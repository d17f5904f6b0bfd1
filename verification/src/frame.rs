//! One timing sample.

use vstd::prelude::*;

verus! {

/// Timing breakdown of one rendered frame. Every duration is a whole number
/// of nanoseconds.
#[derive(Clone, Copy, Debug, PartialEq, Eq)]
pub struct Frame {
    /// Time spent collecting and preparing the scene's elements.
    pub duration_elements: u64,
    /// Time spent issuing draw commands.
    pub duration_render: u64,
    /// Time spent serving a screen capture, if one was asked for.
    pub duration_screencopy: Option<u64>,
    /// Time from the start of the frame until it was shown.
    pub duration_displayed: u64,
}

impl Frame {
    /// The frame time of a sample: preparing its elements plus rendering.
    pub open spec fn spec_frame_time(self) -> int {
        self.duration_elements + self.duration_render
    }

    /// The screen capture time of a sample, zero where none took place.
    pub open spec fn spec_screencopy(self) -> int {
        match self.duration_screencopy {
            Some(t) => t as int,
            None => 0,
        }
    }

    /// The time until the sample's frame was shown.
    pub open spec fn spec_time_to_display(self) -> int {
        self.duration_displayed as int
    }

    /// Frame time in nanoseconds: elements plus render.
    pub fn frame_time(&self) -> (t: u128)
        ensures
            t == self.spec_frame_time(),
    {
        self.duration_elements as u128 + self.duration_render as u128
    }

    /// Screen capture time in nanoseconds, zero where none took place.
    pub fn screencopy(&self) -> (t: u64)
        ensures
            t == self.spec_screencopy(),
    {
        match self.duration_screencopy {
            Some(t) => t,
            None => 0,
        }
    }

    /// Time to display in nanoseconds.
    pub fn time_to_display(&self) -> (t: u64)
        ensures
            t == self.spec_time_to_display(),
    {
        self.duration_displayed
    }
}

} // verus!
