//! Frame-timing telemetry for a compositor overlay.
//!
//! The crate keeps a rolling window of per-frame timing samples, derives
//! statistics from it and turns the most recent samples into the data of a
//! stacked bar chart. Every duration is a whole number of nanoseconds and
//! every derived figure is an integer, so each result is stated exactly.

pub mod rounding;
pub mod frame;
pub mod store;
pub mod chart;
pub mod overlay;
