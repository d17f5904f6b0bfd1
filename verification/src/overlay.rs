//! What the overlay shows: its lines of text and its chart.
//!
//! The overlay is described, not drawn. A line says what it shows and holds
//! the number to print; the chart holds its bars. Whoever draws the overlay
//! turns the lines into text and the bars into shapes.

use crate::chart::{
    bar_series, build_chart, chart_shows, sample_amount, spec_amount, spec_normalize, stack_order,
    Chart,
};
use crate::frame::Frame;
use crate::store::{
    display_times, frame_times, lemma_average_between, lemma_extremes_attained, lemma_rate_bounds,
    recent_window, seq_max, seq_min, spec_average, window_rate, FrameSampleStore,
    RATE_UNBOUNDED, WINDOW_SIZE,
};
use vstd::prelude::*;
use vstd::string::StringSliceAdditionalSpecFns;

verus! {

/// One line of the overlay's text.
#[derive(Clone, Copy, Debug, PartialEq, Eq)]
pub enum Line {
    /// The hint at the key that switches the overlay on.
    Hint,
    /// A rule between the heading and the statistics.
    Separator,
    /// The render node of the graphics device in use, by its minor number.
    Gpu(u32),
    /// The frame rate, in thousandths of a frame per second.
    Fps(u64),
    /// The caption above the frame times.
    FrameTimes,
    /// The mean frame time, in nanoseconds.
    Average(u128),
    /// The smallest frame time, in nanoseconds.
    Minimum(u128),
    /// The largest frame time, in nanoseconds.
    Maximum(u128),
}

/// The overlay of one frame: its lines from top to bottom and, below them,
/// its chart if it has one.
#[derive(Clone, Debug, PartialEq, Eq)]
pub struct Overlay {
    pub lines: Vec<Line>,
    pub chart: Option<Chart>,
}

/// The lines that name the graphics device: one if a device is given.
pub open spec fn gpu_lines(gpu: Option<u32>) -> Seq<Line> {
    match gpu {
        Some(minor) => seq![Line::Gpu(minor)],
        None => Seq::empty(),
    }
}

/// The lines of the overlay. Switched off it shows the hint alone; switched
/// on it shows a rule, the graphics device if one is given, the frame rate
/// and the mean, smallest and largest frame time of the window.
pub open spec fn overlay_lines(gpu: Option<u32>, active: bool, frames: Seq<Frame>) -> Seq<Line> {
    if !active {
        seq![Line::Hint]
    } else {
        seq![Line::Separator] + gpu_lines(gpu) + seq![
            Line::Fps(window_rate(frames, 1000) as u64),
            Line::FrameTimes,
            Line::Average(spec_average(frame_times(frames)) as u128),
            Line::Minimum(seq_min(frame_times(frames)) as u128),
            Line::Maximum(seq_max(frame_times(frames)) as u128),
        ]
    }
}

/// The number of samples that the chart of a window shows: two seconds'
/// worth at the window's frame rate, rounded to a whole frame per second.
/// Where the window's samples all took no time, that is more than any
/// window holds, and the chart shows every sample.
pub open spec fn chart_amount(frames: Seq<Frame>) -> int {
    spec_amount(window_rate(frames, 1))
}

/// Whether `chart` is the chart of a window: it shows the window's last
/// `chart_amount` samples, scaled against the window's smallest and largest
/// time to display.
pub open spec fn overlay_chart(chart: Chart, frames: Seq<Frame>) -> bool {
    chart_shows(
        chart,
        recent_window(frames, chart_amount(frames)),
        chart_amount(frames),
        seq_min(display_times(frames)),
        seq_max(display_times(frames)),
    )
}

/// The number of bytes of a build's hash that the heading shows.
pub const SHORT_HASH_LEN: usize = 10;

/// The short form of a build's hash for the heading: its first
/// `SHORT_HASH_LEN` bytes. A hash that is shorter, or that cannot be cut
/// there because a character spans the place, has no short form.
pub fn short_hash(hash: &str) -> (out: Option<&str>)
    ensures
        out is Some <==> vstd::utf8::is_char_boundary(hash.spec_bytes(), SHORT_HASH_LEN as int),
        out is Some ==> hash.spec_bytes().len() >= SHORT_HASH_LEN,
        out is Some ==> out->Some_0.spec_bytes() == hash.spec_bytes().subrange(
            0,
            SHORT_HASH_LEN as int,
        ),
{
    proof {
        vstd::utf8::encode_utf8_valid_utf8(hash@);
    }
    if hash.is_char_boundary(SHORT_HASH_LEN) {
        Some(hash.split_at(SHORT_HASH_LEN).0)
    } else {
        None
    }
}

/// Describes the overlay for one frame.
///
/// `gpu` is the minor number of the render node in use, `active` says
/// whether the overlay is switched on, and `fps` holds the timing samples.
/// Switched off, the overlay is the hint and nothing of `fps` shows in it.
/// Switched on, it has the lines of `overlay_lines` and the chart of
/// `overlay_chart`.
pub fn fps_ui(gpu: Option<u32>, active: bool, fps: &FrameSampleStore) -> (out: Overlay)
    ensures
        out.lines@ == overlay_lines(gpu, active, fps@),
        !active ==> out.chart is None,
        active ==> out.chart is Some && overlay_chart(out.chart->Some_0, fps@),
{
    let mut lines: Vec<Line> = Vec::new();
    if !active {
        lines.push(Line::Hint);
        proof {
            assert(lines@ =~= overlay_lines(gpu, active, fps@));
        }
        return Overlay { lines, chart: None };
    }
    let max: u128 = fps.max_frametime();
    let min: u128 = fps.min_frametime();
    let avg: u128 = fps.avg_frametime();
    let avg_fps: u64 = fps.avg_fps();
    let max_disp: u64 = fps.max_time_to_display();
    let min_disp: u64 = fps.min_time_to_display();

    let amount: usize = sample_amount(avg_fps);
    let samples: Vec<(usize, Frame)> = fps.recent(amount);
    let chart: Chart = build_chart(&samples, amount, min_disp, max_disp);

    lines.push(Line::Separator);
    match gpu {
        Some(minor) => {
            lines.push(Line::Gpu(minor));
        },
        None => {},
    }
    lines.push(Line::Fps(fps.avg_fps_millis()));
    lines.push(Line::FrameTimes);
    lines.push(Line::Average(avg));
    lines.push(Line::Minimum(min));
    lines.push(Line::Maximum(max));
    proof {
        assert(lines@ =~= overlay_lines(gpu, active, fps@));
        let window = recent_window(fps@, chart_amount(fps@));
        assert forall|c: int| 0 <= c < 4 implies (#[trigger] chart.series@[c]).bars@ == bar_series(
            window,
            min_disp as int,
            max_disp as int,
            stack_order()[c],
        ) by {
            assert(chart.series@[c].bars@.len() == window.len());
            assert forall|k: int| 0 <= k < window.len() implies chart.series@[c].bars@[k]
                == bar_series(window, min_disp as int, max_disp as int, stack_order()[c])[k] by {
                assert(samples@[k] == (k as usize, window[k]));
            }
            assert(chart.series@[c].bars@ =~= bar_series(
                window,
                min_disp as int,
                max_disp as int,
                stack_order()[c],
            ));
        }
    }
    Overlay { lines, chart: Some(chart) }
}

/// Switched off, the overlay is the same whatever the store holds: the hint
/// and no chart.
pub proof fn lemma_inactive_ignores_samples(gpu: Option<u32>, a: Seq<Frame>, b: Seq<Frame>)
    ensures
        overlay_lines(gpu, false, a) == overlay_lines(gpu, false, b),
        overlay_lines(gpu, false, a) == seq![Line::Hint],
{
}

/// A store without samples gives a chart without bars: nothing is shown,
/// and the chart's horizontal axis has no length.
pub proof fn lemma_empty_window_chart(chart: Chart)
    requires
        overlay_chart(chart, Seq::<Frame>::empty()),
    ensures
        chart.amount == 0,
        forall|c: int| 0 <= c < 4 ==> (#[trigger] chart.series@[c]).bars@.len() == 0,
{
    assert(frame_times(Seq::<Frame>::empty()) =~= Seq::<int>::empty());
}

/// The chart of a window has, in each of its series, one bar for each of
/// the samples shown: as many as the chart's amount, or as the window holds
/// where those are fewer. Each bar stands at its index, left of the
/// horizontal axis's end.
pub proof fn lemma_chart_bars(chart: Chart, frames: Seq<Frame>, c: int, k: int)
    requires
        overlay_chart(chart, frames),
        0 <= c < 4,
        0 <= k < chart.series@[c].bars@.len(),
    ensures
        chart.series@[c].bars@.len() == (if chart_amount(frames) < frames.len() {
            chart_amount(frames)
        } else {
            frames.len() as int
        }),
        chart.series@[c].bars@[k].x == k,
        k < chart.amount,
{
    lemma_window_rate_counted(frames, 1);
    assert(chart.series@[c].bars@ == bar_series(
        recent_window(frames, chart_amount(frames)),
        seq_min(display_times(frames)),
        seq_max(display_times(frames)),
        stack_order()[c],
    ));
}

/// The frame rate of a window is never negative and never above
/// `RATE_UNBOUNDED`.
pub proof fn lemma_window_rate_counted(frames: Seq<Frame>, units: int)
    requires
        0 <= units <= u32::MAX,
    ensures
        0 <= window_rate(frames, units) <= RATE_UNBOUNDED,
{
    if frames.len() > 0 {
        lemma_average_between(frame_times(frames));
        lemma_extremes_attained(frame_times(frames));
        let period = spec_average(frame_times(frames));
        lemma_rate_bounds(period, period, units);
    }
}

/// A window whose samples all took no time is charted whole: its amount is
/// no less than the number of its samples, and the samples shown are all
/// that the window holds.
pub proof fn lemma_idle_window_charted_whole(frames: Seq<Frame>)
    requires
        0 < frames.len() <= WINDOW_SIZE,
        spec_average(frame_times(frames)) == 0,
    ensures
        chart_amount(frames) >= frames.len(),
        recent_window(frames, chart_amount(frames)) == frames,
{
}

/// A window of one sample has no range to scale against: its smallest and
/// its largest time to display are that sample's, and every value scaled
/// against them gives 0.
pub proof fn lemma_single_sample_flat(frame: Frame, value: int)
    ensures
        seq_min(display_times(seq![frame])) == frame.duration_displayed,
        seq_max(display_times(seq![frame])) == frame.duration_displayed,
        spec_normalize(
            value,
            seq_min(display_times(seq![frame])),
            seq_max(display_times(seq![frame])),
        ) == 0,
{
    assert(display_times(seq![frame])[0] == frame.duration_displayed);
}

} // verus!
