//! From timing samples to the bars of a stacked chart.
//!
//! Each of a sample's four figures becomes a bar whose height is the figure
//! scaled into `0..=255` against the window's smallest and largest time to
//! display. The four series are scaled one by one; they are stacked for the
//! eye only, and a stack's height is no sum of times.

use crate::frame::Frame;
use crate::rounding::{
    lemma_round_div_monotonic, lemma_round_div_nearest, lemma_round_div_upper, round_div,
    spec_round_div,
};
use vstd::prelude::*;

verus! {

/// The height of a bar that stands for the largest time to display.
pub const FULL_HEIGHT: u8 = 255;

/// The upper end of the chart's vertical axis.
pub const CHART_HEIGHT: u16 = 300;

/// Red, green and blue of the bars for the time spent on elements.
pub const ELEMENTS_COLOR: (u8, u8, u8) = (70, 198, 115);

/// Red, green and blue of the bars for the time spent rendering.
pub const RENDER_COLOR: (u8, u8, u8) = (29, 114, 58);

/// Red, green and blue of the bars for the time spent on screen captures.
pub const SCREENCOPY_COLOR: (u8, u8, u8) = (253, 178, 39);

/// Red, green and blue of the bars for the time to display.
pub const DISPLAY_COLOR: (u8, u8, u8) = (41, 184, 209);

/// The figures of a sample that the chart shows.
#[derive(Clone, Copy, Debug, PartialEq, Eq)]
pub enum Category {
    Elements,
    Render,
    Screencopy,
    Displayed,
}

/// One bar: its place on the horizontal axis and its height.
#[derive(Clone, Copy, Debug, PartialEq, Eq)]
pub struct Bar {
    pub x: usize,
    pub height: u8,
}

/// The bars of one category, one for each sample shown.
#[derive(Clone, Debug, PartialEq, Eq)]
pub struct Series {
    pub category: Category,
    pub bars: Vec<Bar>,
}

/// A stacked bar chart. `series` holds the categories from the bottom of
/// the stack to its top; the horizontal axis runs from zero to `amount`, the
/// vertical one from zero to `height`.
#[derive(Clone, Debug, PartialEq, Eq)]
pub struct Chart {
    pub amount: usize,
    pub height: u16,
    pub series: Vec<Series>,
}

/// The categories in the order in which they are stacked, bottom first.
pub open spec fn stack_order() -> Seq<Category> {
    seq![Category::Elements, Category::Render, Category::Screencopy, Category::Displayed]
}

/// The figure of a sample that belongs to a category; a sample without a
/// screen capture has the figure zero there.
pub open spec fn category_value(frame: Frame, category: Category) -> int {
    match category {
        Category::Elements => frame.duration_elements as int,
        Category::Render => frame.duration_render as int,
        Category::Screencopy => frame.spec_screencopy(),
        Category::Displayed => frame.duration_displayed as int,
    }
}

/// A value scaled into `0..=255` against the range from `lo` to `hi`: the
/// value's share of the range times 255, rounded to the nearest integer.
/// A value below the range gives 0 and one above it 255. A range without
/// width gives 0 for every value.
pub open spec fn spec_normalize(value: int, lo: int, hi: int) -> int {
    if hi <= lo || value <= lo {
        0
    } else if value >= hi {
        255
    } else {
        spec_round_div((value - lo) * 255, hi - lo)
    }
}

/// The number of samples to show at a frame rate: two seconds' worth, and
/// the largest number there is where that cannot be counted.
pub open spec fn spec_amount(fps: int) -> int {
    if 2 * fps <= usize::MAX {
        2 * fps
    } else {
        usize::MAX as int
    }
}

/// The bars of one category for the samples of `window`, the first sample
/// at zero.
pub open spec fn bar_series(window: Seq<Frame>, lo: int, hi: int, category: Category) -> Seq<Bar> {
    Seq::new(
        window.len(),
        |k: int|
            Bar {
                x: k as usize,
                height: spec_normalize(category_value(window[k], category), lo, hi) as u8,
            },
    )
}

/// Whether `chart` is the chart of the samples of `window`, drawn for
/// `amount` samples against the range from `lo` to `hi`.
pub open spec fn chart_shows(
    chart: Chart,
    window: Seq<Frame>,
    amount: int,
    lo: int,
    hi: int,
) -> bool {
    &&& chart.amount == amount
    &&& chart.height == CHART_HEIGHT
    &&& chart.series@.len() == 4
    &&& forall|c: int|
        0 <= c < 4 ==> (#[trigger] chart.series@[c]).category == stack_order()[c]
            && chart.series@[c].bars@ == bar_series(window, lo, hi, stack_order()[c])
}

impl Category {
    /// Red, green and blue of the category's bars.
    pub fn color(self) -> (rgb: (u8, u8, u8))
        ensures
            rgb == (match self {
                Category::Elements => ELEMENTS_COLOR,
                Category::Render => RENDER_COLOR,
                Category::Screencopy => SCREENCOPY_COLOR,
                Category::Displayed => DISPLAY_COLOR,
            }),
    {
        match self {
            Category::Elements => ELEMENTS_COLOR,
            Category::Render => RENDER_COLOR,
            Category::Screencopy => SCREENCOPY_COLOR,
            Category::Displayed => DISPLAY_COLOR,
        }
    }

    /// The figure of `frame` that belongs to the category, in nanoseconds.
    pub fn value(self, frame: &Frame) -> (v: u64)
        ensures
            v == category_value(*frame, self),
    {
        match self {
            Category::Elements => frame.duration_elements,
            Category::Render => frame.duration_render,
            Category::Screencopy => frame.screencopy(),
            Category::Displayed => frame.duration_displayed,
        }
    }
}

/// Scales `value` into `0..=255` against the range from `min_disp` to
/// `max_disp`.
pub fn normalize(value: u64, min_disp: u64, max_disp: u64) -> (out: u8)
    ensures
        out == spec_normalize(value as int, min_disp as int, max_disp as int),
        max_disp <= min_disp ==> out == 0,
{
    if max_disp <= min_disp || value <= min_disp {
        0
    } else if value >= max_disp {
        FULL_HEIGHT
    } else {
        let part: u64 = value - min_disp;
        let span: u64 = max_disp - min_disp;
        assert(part * 255 <= u64::MAX * 255) by (nonlinear_arith)
            requires
                part <= u64::MAX,
        ;
        assert(part * 255 <= 255 * span) by (nonlinear_arith)
            requires
                part <= span,
        ;
        proof {
            lemma_round_div_upper(part * 255, span as int, 255);
        }
        let q: u128 = round_div(part as u128 * 255, span as u128);
        q as u8
    }
}

/// The number of samples to show at `fps` frames per second.
pub fn sample_amount(fps: u64) -> (amount: usize)
    ensures
        amount == spec_amount(fps as int),
{
    if fps as u128 * 2 <= usize::MAX as u128 {
        (fps * 2) as usize
    } else {
        usize::MAX
    }
}

/// The bars of one category for `samples`, each at its sample's position.
pub fn series(
    samples: &Vec<(usize, Frame)>,
    category: Category,
    min_disp: u64,
    max_disp: u64,
) -> (out: Series)
    ensures
        out.category == category,
        out.bars@.len() == samples@.len(),
        forall|k: int|
            0 <= k < samples@.len() ==> #[trigger] out.bars@[k] == (Bar {
                x: samples@[k].0,
                height: spec_normalize(
                    category_value(samples@[k].1, category),
                    min_disp as int,
                    max_disp as int,
                ) as u8,
            }),
{
    let n: usize = samples.len();
    let mut bars: Vec<Bar> = Vec::with_capacity(n);
    let mut k: usize = 0;
    while k < n
        invariant
            k <= n,
            n == samples@.len(),
            bars@.len() == k,
            forall|j: int|
                0 <= j < k ==> #[trigger] bars@[j] == (Bar {
                    x: samples@[j].0,
                    height: spec_normalize(
                        category_value(samples@[j].1, category),
                        min_disp as int,
                        max_disp as int,
                    ) as u8,
                }),
        decreases n - k,
    {
        let value: u64 = category.value(&samples[k].1);
        bars.push(Bar { x: samples[k].0, height: normalize(value, min_disp, max_disp) });
        k += 1;
    }
    Series { category, bars }
}

/// The chart of `samples`: four series of bars, stacked from the time spent
/// on elements at the bottom to the time to display at the top.
pub fn build_chart(
    samples: &Vec<(usize, Frame)>,
    amount: usize,
    min_disp: u64,
    max_disp: u64,
) -> (chart: Chart)
    ensures
        chart.amount == amount,
        chart.height == CHART_HEIGHT,
        chart.series@.len() == 4,
        forall|c: int|
            0 <= c < 4 ==> (#[trigger] chart.series@[c]).category == stack_order()[c]
                && chart.series@[c].bars@.len() == samples@.len(),
        forall|c: int, k: int|
            0 <= c < 4 && 0 <= k < samples@.len() ==> (#[trigger] chart.series@[c].bars@[k])
                == (Bar {
                x: samples@[k].0,
                height: spec_normalize(
                    category_value(samples@[k].1, stack_order()[c]),
                    min_disp as int,
                    max_disp as int,
                ) as u8,
            }),
{
    let mut all: Vec<Series> = Vec::with_capacity(4);
    all.push(series(samples, Category::Elements, min_disp, max_disp));
    all.push(series(samples, Category::Render, min_disp, max_disp));
    all.push(series(samples, Category::Screencopy, min_disp, max_disp));
    all.push(series(samples, Category::Displayed, min_disp, max_disp));
    Chart { amount, height: CHART_HEIGHT, series: all }
}

/// A scaled value is never below 0 nor above 255.
pub proof fn lemma_normalize_range(value: int, lo: int, hi: int)
    ensures
        0 <= spec_normalize(value, lo, hi) <= 255,
{
    if lo < value < hi {
        assert(0 <= (value - lo) * 255 <= 255 * (hi - lo)) by (nonlinear_arith)
            requires
                lo < value < hi,
        ;
        lemma_round_div_upper((value - lo) * 255, hi - lo, 255);
    }
}

/// Within a range that has a width, a scaled value is the whole number
/// nearest to the value's share of the range times 255: it differs from it
/// by at most a half, and by less than a half from below.
pub proof fn lemma_normalize_nearest(value: int, lo: int, hi: int)
    requires
        lo <= value <= hi,
        lo < hi,
    ensures
        2 * spec_normalize(value, lo, hi) * (hi - lo) - (hi - lo) <= 2 * ((value - lo) * 255),
        2 * ((value - lo) * 255) < 2 * spec_normalize(value, lo, hi) * (hi - lo) + (hi - lo),
{
    if lo < value < hi {
        assert((value - lo) * 255 >= 0) by (nonlinear_arith)
            requires
                lo < value,
        ;
        lemma_round_div_nearest((value - lo) * 255, hi - lo);
    } else {
        let r = spec_normalize(value, lo, hi);
        let span = hi - lo;
        assert(2 * r * span - span <= 2 * ((value - lo) * 255) < 2 * r * span + span)
            by (nonlinear_arith)
            requires
                span > 0,
                (r == 0 && value - lo == 0) || (r == 255 && value - lo == span),
        ;
    }
}

/// Scaling keeps the order of values: of two values scaled against one
/// range, the larger never gets the smaller result.
pub proof fn lemma_normalize_monotonic(a: int, b: int, lo: int, hi: int)
    requires
        a <= b,
    ensures
        spec_normalize(a, lo, hi) <= spec_normalize(b, lo, hi),
{
    lemma_normalize_range(a, lo, hi);
    lemma_normalize_range(b, lo, hi);
    if lo < a && b < hi {
        assert((a - lo) * 255 <= (b - lo) * 255) by (nonlinear_arith)
            requires
                a <= b,
        ;
        lemma_round_div_monotonic((a - lo) * 255, (b - lo) * 255, hi - lo);
    }
}

/// The ends of a range with a width are scaled to 0 and to 255; against a
/// range without width every value is scaled to 0.
pub proof fn lemma_normalize_ends(value: int, lo: int, hi: int)
    ensures
        lo < hi ==> spec_normalize(lo, lo, hi) == 0 && spec_normalize(hi, lo, hi) == 255,
        lo == hi ==> spec_normalize(value, lo, hi) == 0,
{
}

} // verus!
