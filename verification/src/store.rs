//! The rolling window of timing samples and its statistics.
//!
//! The window keeps the last [`WINDOW_SIZE`] samples in the order in which
//! they were recorded. Statistics are computed from the window on every
//! request, so none of them can lag behind its contents. On an empty window
//! every statistic is zero.

use crate::frame::Frame;
use crate::rounding::{
    lemma_round_div_nearest, lemma_round_div_upper, round_div, spec_round_div,
};
use vstd::prelude::*;

verus! {

/// The number of samples that the window retains.
pub const WINDOW_SIZE: usize = 100;

/// Nanoseconds in one second.
pub const NANOS_PER_SECOND: u64 = 1_000_000_000;

/// The rate of a period of zero: the largest rate that can be counted.
pub const RATE_UNBOUNDED: u64 = u64::MAX;

/// The frame time of each sample, in the samples' order.
pub open spec fn frame_times(frames: Seq<Frame>) -> Seq<int> {
    Seq::new(frames.len(), |i: int| frames[i].spec_frame_time())
}

/// The time to display of each sample, in the samples' order.
pub open spec fn display_times(frames: Seq<Frame>) -> Seq<int> {
    Seq::new(frames.len(), |i: int| frames[i].spec_time_to_display())
}

/// The sum of a sequence of values.
pub open spec fn seq_sum(values: Seq<int>) -> int
    decreases values.len(),
{
    if values.len() == 0 {
        0
    } else {
        seq_sum(values.drop_last()) + values.last()
    }
}

/// The largest of a sequence of values, zero for the empty sequence.
pub open spec fn seq_max(values: Seq<int>) -> int
    decreases values.len(),
{
    if values.len() == 0 {
        0
    } else if values.len() == 1 {
        values[0]
    } else if seq_max(values.drop_last()) >= values.last() {
        seq_max(values.drop_last())
    } else {
        values.last()
    }
}

/// The smallest of a sequence of values, zero for the empty sequence.
pub open spec fn seq_min(values: Seq<int>) -> int
    decreases values.len(),
{
    if values.len() == 0 {
        0
    } else if values.len() == 1 {
        values[0]
    } else if seq_min(values.drop_last()) <= values.last() {
        seq_min(values.drop_last())
    } else {
        values.last()
    }
}

/// The mean of a sequence of values, rounded down; zero for the empty
/// sequence.
pub open spec fn spec_average(values: Seq<int>) -> int {
    if values.len() == 0 {
        0
    } else {
        seq_sum(values) / (values.len() as int)
    }
}

/// How many periods of `period` nanoseconds fit into one second, counted in
/// `1 / units` and rounded to the nearest whole number. As the period goes
/// to zero the rate grows beyond every number: a period of zero is given
/// `RATE_UNBOUNDED`, the largest rate that can be counted. Counted in no
/// units at all, every rate is zero.
pub open spec fn spec_rate(period: int, units: int) -> int {
    if units <= 0 {
        0
    } else if period <= 0 {
        RATE_UNBOUNDED as int
    } else {
        spec_round_div(units * NANOS_PER_SECOND, period)
    }
}

/// The frame rate of a window at its mean frame time, counted in
/// `1 / units` of a frame per second. A window without samples has the rate
/// zero. One whose samples all took no time has a rate beyond every number,
/// given as `RATE_UNBOUNDED`.
pub open spec fn window_rate(frames: Seq<Frame>, units: int) -> int {
    if frames.len() == 0 {
        0
    } else {
        spec_rate(spec_average(frame_times(frames)), units)
    }
}

/// The window after `frame` was recorded: the frame comes last, and where
/// the window was full its oldest sample has left.
pub open spec fn retained(frames: Seq<Frame>, frame: Frame) -> Seq<Frame> {
    if frames.len() < WINDOW_SIZE {
        frames.push(frame)
    } else {
        frames.subrange(1, frames.len() as int).push(frame)
    }
}

/// The last `n` samples of the window, or all of them where it holds fewer.
pub open spec fn recent_window(frames: Seq<Frame>, n: int) -> Seq<Frame>
    recommends
        n >= 0,
{
    if n < frames.len() {
        frames.subrange(frames.len() - n, frames.len() as int)
    } else {
        frames
    }
}

spec fn picked(frames: Seq<Frame>, displayed: bool) -> Seq<int> {
    if displayed {
        display_times(frames)
    } else {
        frame_times(frames)
    }
}

spec fn extreme_of(values: Seq<int>, largest: bool) -> int {
    if largest {
        seq_max(values)
    } else {
        seq_min(values)
    }
}

proof fn lemma_picked_step(frames: Seq<Frame>, i: int, displayed: bool)
    requires
        0 <= i < frames.len(),
    ensures
        picked(frames.take(i + 1), displayed).len() == i + 1,
        picked(frames.take(i + 1), displayed).drop_last() == picked(frames.take(i), displayed),
        picked(frames.take(i + 1), displayed).last() == picked(frames, displayed)[i],
{
    assert(picked(frames.take(i + 1), displayed).drop_last() =~= picked(
        frames.take(i),
        displayed,
    ));
}

fn measure(frame: &Frame, displayed: bool) -> (t: u128)
    ensures
        t == (if displayed {
            frame.spec_time_to_display()
        } else {
            frame.spec_frame_time()
        }),
        displayed ==> t <= u64::MAX,
        t <= 2 * u64::MAX,
{
    if displayed {
        frame.time_to_display() as u128
    } else {
        frame.frame_time()
    }
}

fn extreme(frames: &Vec<Frame>, displayed: bool, largest: bool) -> (m: u128)
    ensures
        m == extreme_of(picked(frames@, displayed), largest),
        displayed ==> m <= u64::MAX,
{
    let n: usize = frames.len();
    if n == 0 {
        return 0;
    }
    let mut m: u128 = measure(&frames[0], displayed);
    let mut i: usize = 1;
    proof {
        lemma_picked_step(frames@, 0, displayed);
    }
    while i < n
        invariant
            1 <= i <= n,
            n == frames@.len(),
            m == extreme_of(picked(frames@.take(i as int), displayed), largest),
            displayed ==> m <= u64::MAX,
        decreases n - i,
    {
        let t: u128 = measure(&frames[i], displayed);
        proof {
            lemma_picked_step(frames@, i as int, displayed);
        }
        if (largest && t > m) || (!largest && t < m) {
            m = t;
        }
        i += 1;
    }
    proof {
        assert(frames@.take(n as int) =~= frames@);
    }
    m
}

fn total_frame_time(frames: &Vec<Frame>) -> (sum: u128)
    requires
        frames@.len() <= WINDOW_SIZE,
    ensures
        sum == seq_sum(frame_times(frames@)),
{
    let n: usize = frames.len();
    let mut sum: u128 = 0;
    let mut i: usize = 0;
    proof {
        assert(frame_times(frames@.take(0)) =~= Seq::<int>::empty());
    }
    while i < n
        invariant
            i <= n,
            n == frames@.len(),
            n <= WINDOW_SIZE,
            sum == seq_sum(frame_times(frames@.take(i as int))),
            sum <= i * (2 * u64::MAX),
        decreases n - i,
    {
        let t: u128 = measure(&frames[i], false);
        proof {
            lemma_picked_step(frames@, i as int, false);
            assert((i + 1) * (2 * u64::MAX) == i * (2 * u64::MAX) + 2 * u64::MAX)
                by (nonlinear_arith);
            assert(i * (2 * u64::MAX) <= 100 * (2 * u64::MAX)) by (nonlinear_arith)
                requires
                    i <= 100,
            ;
        }
        sum = sum + t;
        i += 1;
    }
    proof {
        assert(frames@.take(n as int) =~= frames@);
    }
    sum
}

fn appended(frames: &Vec<Frame>, frame: Frame) -> (out: Vec<Frame>)
    ensures
        out@ == retained(frames@, frame),
{
    let len: usize = frames.len();
    let start: usize = if len < WINDOW_SIZE {
        0
    } else {
        1
    };
    let mut out: Vec<Frame> = Vec::with_capacity(WINDOW_SIZE);
    let mut i: usize = start;
    while i < len
        invariant
            start <= i <= len,
            len == frames@.len(),
            out@ == frames@.subrange(start as int, i as int),
        decreases len - i,
    {
        out.push(frames[i]);
        proof {
            assert(out@ =~= frames@.subrange(start as int, i + 1));
        }
        i += 1;
    }
    out.push(frame);
    proof {
        assert(frames@.subrange(0, len as int) =~= frames@);
    }
    out
}

/// The rate that belongs to a period: how often `period` nanoseconds fit
/// into a second, in steps of `1 / units`, rounded to the nearest step. A
/// period of zero gives `RATE_UNBOUNDED`.
pub fn rate(period: u128, units: u32) -> (r: u64)
    ensures
        r == spec_rate(period as int, units as int),
{
    if units == 0 {
        return 0;
    }
    if period == 0 {
        return RATE_UNBOUNDED;
    }
    assert(units * NANOS_PER_SECOND <= u32::MAX * NANOS_PER_SECOND) by (nonlinear_arith)
        requires
            units <= u32::MAX,
    ;
    let num: u128 = units as u128 * NANOS_PER_SECOND as u128;
    proof {
        assert(num <= num * period) by (nonlinear_arith)
            requires
                num >= 0,
                period >= 1,
        ;
        lemma_round_div_upper(num as int, period as int, num as int);
    }
    let q: u128 = round_div(num, period);
    q as u64
}

/// A rolling window over the most recent frames' timing samples.
pub struct FrameSampleStore {
    frames: Vec<Frame>,
}

impl View for FrameSampleStore {
    type V = Seq<Frame>;

    /// The retained samples, oldest first.
    closed spec fn view(&self) -> Seq<Frame> {
        self.frames@
    }
}

impl Default for FrameSampleStore {
    /// A store without samples.
    fn default() -> (store: Self)
        ensures
            store@ == Seq::<Frame>::empty(),
    {
        FrameSampleStore::new()
    }
}

impl FrameSampleStore {
    #[verifier::type_invariant]
    spec fn within_window(self) -> bool {
        self.frames@.len() <= WINDOW_SIZE
    }

    /// A store without samples.
    pub fn new() -> (store: Self)
        ensures
            store@ == Seq::<Frame>::empty(),
    {
        FrameSampleStore { frames: Vec::new() }
    }

    /// The number of retained samples.
    pub fn len(&self) -> (n: usize)
        ensures
            n == self@.len(),
            n <= WINDOW_SIZE,
    {
        proof {
            use_type_invariant(self);
        }
        self.frames.len()
    }

    /// Appends a sample; a full window first drops its oldest one.
    pub fn record(&mut self, frame: Frame)
        ensures
            final(self)@ == retained(old(self)@, frame),
            final(self)@.len() <= WINDOW_SIZE,
            final(self)@.last() == frame,
    {
        proof {
            use_type_invariant(&*self);
        }
        self.frames = appended(&self.frames, frame);
    }

    /// The largest frame time in the window, zero when it is empty.
    pub fn max_frametime(&self) -> (m: u128)
        ensures
            m == seq_max(frame_times(self@)),
    {
        extreme(&self.frames, false, true)
    }

    /// The smallest frame time in the window, zero when it is empty.
    pub fn min_frametime(&self) -> (m: u128)
        ensures
            m == seq_min(frame_times(self@)),
    {
        extreme(&self.frames, false, false)
    }

    /// The mean frame time of the window, rounded down to a nanosecond;
    /// zero when it is empty.
    pub fn avg_frametime(&self) -> (avg: u128)
        ensures
            avg == spec_average(frame_times(self@)),
    {
        proof {
            use_type_invariant(self);
        }
        let n: usize = self.frames.len();
        if n == 0 {
            return 0;
        }
        total_frame_time(&self.frames) / (n as u128)
    }

    /// Frames per second at the mean frame time, rounded to the nearest
    /// whole frame. It is zero when the window is empty, and
    /// `RATE_UNBOUNDED` when the window's samples all took no time.
    pub fn avg_fps(&self) -> (fps: u64)
        ensures
            fps == window_rate(self@, 1),
    {
        if self.frames.len() == 0 {
            return 0;
        }
        rate(self.avg_frametime(), 1)
    }

    /// Frames per second at the mean frame time, in thousandths and rounded
    /// to the nearest one. It is zero when the window is empty, and
    /// `RATE_UNBOUNDED` when the window's samples all took no time.
    pub fn avg_fps_millis(&self) -> (fps: u64)
        ensures
            fps == window_rate(self@, 1000),
    {
        if self.frames.len() == 0 {
            return 0;
        }
        rate(self.avg_frametime(), 1000)
    }

    /// The largest time to display in the window, zero when it is empty.
    pub fn max_time_to_display(&self) -> (m: u64)
        ensures
            m == seq_max(display_times(self@)),
    {
        extreme(&self.frames, true, true) as u64
    }

    /// The smallest time to display in the window, zero when it is empty.
    pub fn min_time_to_display(&self) -> (m: u64)
        ensures
            m == seq_min(display_times(self@)),
    {
        extreme(&self.frames, true, false) as u64
    }

    /// The last `n` samples, oldest first, each with its position among
    /// them. A window that holds fewer than `n` samples gives all of them.
    pub fn recent(&self, n: usize) -> (out: Vec<(usize, Frame)>)
        ensures
            out@.len() == (if n < self@.len() {
                n as int
            } else {
                self@.len() as int
            }),
            forall|k: int|
                0 <= k < out@.len() ==> #[trigger] out@[k] == (
                    k as usize,
                    recent_window(self@, n as int)[k],
                ),
    {
        let len: usize = self.frames.len();
        let count: usize = if n < len {
            n
        } else {
            len
        };
        let start: usize = len - count;
        let mut out: Vec<(usize, Frame)> = Vec::new();
        let mut k: usize = 0;
        while k < count
            invariant
                k <= count <= len,
                len == self.frames@.len(),
                start == len - count,
                out@.len() == k,
                forall|j: int|
                    0 <= j < k ==> #[trigger] out@[j] == (j as usize, self.frames@[start + j]),
            decreases count - k,
        {
            out.push((k, self.frames[start + k]));
            k += 1;
        }
        out
    }
}

/// Every value of a sequence lies between the sequence's smallest and
/// largest value.
pub proof fn lemma_extremes_bound(values: Seq<int>, i: int)
    requires
        0 <= i < values.len(),
    ensures
        seq_min(values) <= values[i] <= seq_max(values),
    decreases values.len(),
{
    if values.len() > 1 && i < values.len() - 1 {
        lemma_extremes_bound(values.drop_last(), i);
    }
}

/// The smallest and the largest value of a sequence that is not empty are
/// values of it.
pub proof fn lemma_extremes_attained(values: Seq<int>)
    requires
        values.len() > 0,
    ensures
        values.contains(seq_min(values)),
        values.contains(seq_max(values)),
    decreases values.len(),
{
    if values.len() == 1 {
        assert(values[0] == seq_min(values));
        assert(values[0] == seq_max(values));
    } else {
        let front = values.drop_last();
        lemma_extremes_attained(front);
        let i = choose|i: int| 0 <= i < front.len() && front[i] == seq_min(front);
        let j = choose|j: int| 0 <= j < front.len() && front[j] == seq_max(front);
        assert(values[i] == seq_min(front));
        assert(values[j] == seq_max(front));
        assert(values[values.len() - 1] == values.last());
    }
}

/// The sum of a sequence lies between its length times its smallest value
/// and its length times its largest value.
pub proof fn lemma_sum_between(values: Seq<int>)
    ensures
        values.len() * seq_min(values) <= seq_sum(values) <= values.len() * seq_max(values),
    decreases values.len(),
{
    if values.len() == 0 {
    } else if values.len() == 1 {
        assert(seq_sum(values.drop_last()) == 0);
    } else {
        let front = values.drop_last();
        lemma_sum_between(front);
        let n = front.len() as int;
        assert(n * seq_min(values) <= n * seq_min(front)) by (nonlinear_arith)
            requires
                n >= 0,
                seq_min(values) <= seq_min(front),
        ;
        assert(n * seq_max(front) <= n * seq_max(values)) by (nonlinear_arith)
            requires
                n >= 0,
                seq_max(front) <= seq_max(values),
        ;
        assert((n + 1) * seq_min(values) == n * seq_min(values) + seq_min(values))
            by (nonlinear_arith);
        assert((n + 1) * seq_max(values) == n * seq_max(values) + seq_max(values))
            by (nonlinear_arith);
    }
}

/// The smallest value of a sequence is at most its mean, and its mean at
/// most its largest value.
pub proof fn lemma_average_between(values: Seq<int>)
    ensures
        seq_min(values) <= spec_average(values) <= seq_max(values),
{
    if values.len() > 0 {
        let n = values.len() as int;
        lemma_sum_between(values);
        vstd::arithmetic::div_mod::lemma_div_is_ordered(n * seq_min(values), seq_sum(values), n);
        vstd::arithmetic::div_mod::lemma_div_is_ordered(seq_sum(values), n * seq_max(values), n);
        vstd::arithmetic::div_mod::lemma_div_multiples_vanish(seq_min(values), n);
        vstd::arithmetic::div_mod::lemma_div_multiples_vanish(seq_max(values), n);
    }
}

/// A rate is the whole number nearest to the exact one: it differs from
/// `units` seconds divided by the period by at most a half, and by less
/// than a half from below.
pub proof fn lemma_rate_nearest(period: int, units: int)
    requires
        period > 0,
        units >= 0,
    ensures
        spec_rate(period, units) >= 0,
        2 * spec_rate(period, units) * period - period <= 2 * (units * NANOS_PER_SECOND),
        2 * (units * NANOS_PER_SECOND) < 2 * spec_rate(period, units) * period + period,
{
    assert(units * NANOS_PER_SECOND >= 0) by (nonlinear_arith)
        requires
            units >= 0,
    ;
    if units > 0 {
        lemma_round_div_nearest(units * NANOS_PER_SECOND, period);
    } else {
        assert(2 * spec_rate(period, units) * period == 0) by (nonlinear_arith)
            requires
                spec_rate(period, units) == 0,
        ;
    }
}

/// Rates stay within what can be counted: a rate is never negative and
/// never above `RATE_UNBOUNDED`, and a shorter period never has the lower
/// rate.
pub proof fn lemma_rate_bounds(shorter: int, longer: int, units: int)
    requires
        0 <= shorter <= longer,
        0 <= units <= u32::MAX,
    ensures
        0 <= spec_rate(longer, units) <= spec_rate(shorter, units) <= RATE_UNBOUNDED,
{
    if units > 0 {
        let num = units * NANOS_PER_SECOND;
        assert(0 <= num <= u32::MAX * NANOS_PER_SECOND) by (nonlinear_arith)
            requires
                0 <= units <= u32::MAX,
                num == units * NANOS_PER_SECOND,
        ;
        if shorter > 0 {
            assert(num <= num * shorter) by (nonlinear_arith)
                requires
                    num >= 0,
                    shorter >= 1,
            ;
            lemma_round_div_upper(num, shorter, num);
            lemma_round_div_nearest(num, longer);
            let a = spec_round_div(num, shorter);
            let b = spec_round_div(num, longer);
            lemma_round_div_nearest(num, shorter);
            assert(b <= a) by (nonlinear_arith)
                requires
                    0 < shorter <= longer,
                    a >= 0,
                    b >= 0,
                    2 * b * longer - longer <= 2 * num,
                    2 * num < 2 * a * shorter + shorter,
            ;
        } else if longer > 0 {
            assert(num <= num * longer) by (nonlinear_arith)
                requires
                    num >= 0,
                    longer >= 1,
            ;
            lemma_round_div_upper(num, longer, num);
        }
    }
}

/// The statistics of a window are ordered: its smallest time to display is
/// at most its largest, and its mean frame time lies between its smallest
/// and its largest frame time.
pub proof fn lemma_statistics_ordered(frames: Seq<Frame>)
    ensures
        seq_min(display_times(frames)) <= seq_max(display_times(frames)),
        seq_min(frame_times(frames)) <= spec_average(frame_times(frames)),
        spec_average(frame_times(frames)) <= seq_max(frame_times(frames)),
{
    lemma_average_between(frame_times(frames));
    if frames.len() > 0 {
        lemma_extremes_bound(display_times(frames), 0);
    }
}

/// The statistics of a window that is not empty are taken from its samples:
/// each extreme is the figure of one of them, and the figure of every sample
/// lies between the two extremes.
pub proof fn lemma_statistics_from_samples(frames: Seq<Frame>, i: int)
    requires
        0 <= i < frames.len(),
    ensures
        seq_min(frame_times(frames)) <= frames[i].spec_frame_time() <= seq_max(
            frame_times(frames),
        ),
        seq_min(display_times(frames)) <= frames[i].duration_displayed <= seq_max(
            display_times(frames),
        ),
        exists|j: int|
            0 <= j < frames.len() && frames[j].duration_displayed == seq_min(
                display_times(frames),
            ),
        exists|j: int|
            0 <= j < frames.len() && frames[j].duration_displayed == seq_max(
                display_times(frames),
            ),
{
    lemma_extremes_bound(frame_times(frames), i);
    lemma_extremes_bound(display_times(frames), i);
    lemma_extremes_attained(display_times(frames));
    let lo = choose|j: int|
        0 <= j < display_times(frames).len() && display_times(frames)[j] == seq_min(
            display_times(frames),
        );
    let hi = choose|j: int|
        0 <= j < display_times(frames).len() && display_times(frames)[j] == seq_max(
            display_times(frames),
        );
    assert(frames[lo].duration_displayed == seq_min(display_times(frames)));
    assert(frames[hi].duration_displayed == seq_max(display_times(frames)));
}

/// The recent samples are as many as were asked for, or all where the
/// window holds fewer; they are the window's last samples in the window's
/// order.
pub proof fn lemma_recent_window(frames: Seq<Frame>, n: int)
    requires
        n >= 0,
    ensures
        recent_window(frames, n).len() == (if n < frames.len() {
            n
        } else {
            frames.len() as int
        }),
        forall|k: int|
            0 <= k < recent_window(frames, n).len() ==> #[trigger] recent_window(frames, n)[k]
                == frames[frames.len() - recent_window(frames, n).len() + k],
{
}

/// After a sample was recorded, it is the last of the recent samples,
/// however many are asked for.
pub proof fn lemma_recent_ends_with_recorded(frames: Seq<Frame>, frame: Frame, n: int)
    requires
        n > 0,
    ensures
        recent_window(retained(frames, frame), n).len() > 0,
        recent_window(retained(frames, frame), n).last() == frame,
{
}

/// Recording never lets the window grow beyond its size, and keeps the
/// samples that stay in the order in which they were.
pub proof fn lemma_retained_order(frames: Seq<Frame>, frame: Frame)
    requires
        frames.len() <= WINDOW_SIZE,
    ensures
        retained(frames, frame).len() <= WINDOW_SIZE,
        retained(frames, frame).len() == (if frames.len() < WINDOW_SIZE {
            frames.len() as int + 1
        } else {
            frames.len() as int
        }),
        forall|k: int|
            0 <= k < retained(frames, frame).len() - 1 ==> #[trigger] retained(frames, frame)[k]
                == frames[frames.len() + 1 - retained(frames, frame).len() + k],
{
}

} // verus!
