//! Rate governor for the main loop: converts a variable-cost repeating
//! workload into an approximately constant target frequency via a smoothed
//! sleep-duration control, and reports achieved throughput.
//!
//! All times are integer microseconds on a monotonic clock; frequencies are
//! integer millihertz. The caller measures the clock and performs the sleep:
//! `tick` is called once per iteration after the paced work ran and returns
//! how long to sleep, `complete` is called when the sleep is over and stamps
//! the tick.

use vstd::prelude::*;

use vstd::arithmetic::div_mod::{
    lemma_div_is_ordered,
    lemma_div_multiples_vanish,
    lemma_div_pos_is_pos,
};

verus! {

/// Number of iteration-duration samples the rolling average holds.
pub const SMOOTHING_WINDOW: usize = 10;

/// Sum of a sample window, as a mathematical integer.
pub open spec fn sum_of(w: Seq<u64>) -> int
    decreases w.len(),
{
    if w.len() == 0 {
        0
    } else {
        sum_of(w.drop_last()) + w.last()
    }
}

/// Rolling average of a non-empty window, rounded down.
pub open spec fn avg_of(w: Seq<u64>) -> int
    recommends
        w.len() > 0,
{
    sum_of(w) / (w.len() as int)
}

/// The sleep a tick asks for: the target interval less the smoothed
/// workload duration, clamped to zero — never negative, and no catch-up
/// debt is carried forward.
pub open spec fn planned_sleep(target_interval: int, w: Seq<u64>) -> int {
    if avg_of(w) >= target_interval {
        0
    } else {
        target_interval - avg_of(w)
    }
}

/// A new sample entering the window; once the window is full the oldest
/// sample is evicted.
pub open spec fn push_sample(w: Seq<u64>, s: u64) -> Seq<u64> {
    if w.len() < SMOOTHING_WINDOW {
        w.push(s)
    } else {
        w.skip(1).push(s)
    }
}

/// Achieved frequency in millihertz for a wall-clock tick gap in
/// microseconds.
pub open spec fn spec_freq_millihz(gap_micros: int) -> int {
    if gap_micros > 0 {
        1_000_000_000int / gap_micros
    } else {
        0
    }
}

/// Every sample window sums to something between zero and the window length
/// times the largest sample value.
proof fn lemma_sum_bounds(w: Seq<u64>)
    ensures
        0 <= sum_of(w) <= w.len() * (u64::MAX as int),
    decreases w.len(),
{
    if w.len() > 0 {
        lemma_sum_bounds(w.drop_last());
    }
}

/// If every sample reaches `bound`, the sum reaches `len * bound`.
proof fn lemma_sum_lower(w: Seq<u64>, bound: int)
    requires
        forall|i: int| 0 <= i < w.len() ==> w[i] >= bound,
    ensures
        sum_of(w) >= w.len() * bound,
    decreases w.len(),
{
    if w.len() > 0 {
        assert(forall|i: int| 0 <= i < w.drop_last().len() ==> w.drop_last()[i] >= bound);
        lemma_sum_lower(w.drop_last(), bound);
        assert(w.last() >= bound);
        assert((w.len() - 1) * bound + bound == w.len() * bound) by (nonlinear_arith);
    }
}

/// The average of a window never exceeds the largest possible sample.
proof fn lemma_avg_bounds(w: Seq<u64>)
    requires
        w.len() > 0,
    ensures
        0 <= avg_of(w) <= u64::MAX,
{
    lemma_sum_bounds(w);
    lemma_div_pos_is_pos(sum_of(w), w.len() as int);
    lemma_div_is_ordered(sum_of(w), w.len() * (u64::MAX as int), w.len() as int);
    lemma_div_multiples_vanish(u64::MAX as int, w.len() as int);
}

/// If the workload duration reaches the target interval in every sample of
/// the window, the planned sleep is zero: a loop that cannot keep up
/// free-runs instead of accumulating sleep.
pub proof fn lemma_saturated_workload_never_sleeps(target_interval: int, w: Seq<u64>)
    requires
        0 <= target_interval,
        w.len() > 0,
        forall|i: int| 0 <= i < w.len() ==> w[i] >= target_interval,
    ensures
        planned_sleep(target_interval, w) == 0,
{
    lemma_sum_lower(w, target_interval);
    lemma_div_is_ordered(w.len() * target_interval, sum_of(w), w.len() as int);
    lemma_div_multiples_vanish(target_interval, w.len() as int);
}

/// With near-zero workload durations throughout the window the planned
/// sleep is exactly the target interval, so each tick lands one full target
/// interval after the previous one: the achieved frequency has converged to
/// the target within the smoothing window.
pub proof fn lemma_idle_workload_converges(target_interval: int, w: Seq<u64>)
    requires
        0 <= target_interval,
        w.len() > 0,
        forall|i: int| 0 <= i < w.len() ==> w[i] == 0,
    ensures
        avg_of(w) == 0,
        planned_sleep(target_interval, w) == target_interval,
{
    assert(sum_of(w) == 0) by {
        lemma_sum_zero(w);
    }
    assert(0int / (w.len() as int) == 0) by {
        lemma_div_pos_is_pos(0, w.len() as int);
        lemma_div_is_ordered(0, 0, w.len() as int);
        vstd::arithmetic::div_mod::lemma_div_of0(w.len() as int);
    }
}

/// The window after `n` further zero-duration samples entered it.
pub open spec fn push_zeros(w: Seq<u64>, n: nat) -> Seq<u64>
    decreases n,
{
    if n == 0 {
        w
    } else {
        push_sample(push_zeros(w, (n - 1) as nat), 0)
    }
}

/// After `n` zero samples the window holds `min(len + n, SMOOTHING_WINDOW)`
/// samples, of which at least the last `n` are zero.
proof fn lemma_push_zeros_suffix(w: Seq<u64>, n: nat)
    requires
        w.len() <= SMOOTHING_WINDOW,
    ensures
        push_zeros(w, n).len() == if w.len() + n <= SMOOTHING_WINDOW {
            w.len() + n
        } else {
            SMOOTHING_WINDOW as nat
        },
        forall|i: int|
            0 <= i < push_zeros(w, n).len() && push_zeros(w, n).len() - n <= i ==> push_zeros(
                w,
                n,
            )[i] == 0,
    decreases n,
{
    if n > 0 {
        lemma_push_zeros_suffix(w, (n - 1) as nat);
        let prev = push_zeros(w, (n - 1) as nat);
        let v = push_zeros(w, n);
        assert(v == push_sample(prev, 0));
        if prev.len() < SMOOTHING_WINDOW {
            assert(v == prev.push(0));
            assert forall|i: int| 0 <= i < v.len() && v.len() - n <= i implies v[i] == 0 by {
                if i < prev.len() {
                    assert(prev[i] == 0);
                }
            }
        } else {
            assert(v == prev.skip(1).push(0));
            assert forall|i: int| 0 <= i < v.len() && v.len() - n <= i implies v[i] == 0 by {
                if i < v.len() - 1 {
                    assert(v[i] == prev[i + 1]);
                    assert(prev[i + 1] == 0);
                }
            }
        }
    }
}

/// Convergence is reached within the smoothing window: however the window
/// looked before, one full window of near-zero workload durations leaves
/// every sample zero, and from then on each tick sleeps exactly one target
/// interval — the achieved frequency has settled on the target.
pub proof fn lemma_convergence_within_window(target_interval: int, w: Seq<u64>, n: nat)
    requires
        0 <= target_interval,
        w.len() <= SMOOTHING_WINDOW,
        n >= SMOOTHING_WINDOW,
    ensures
        planned_sleep(target_interval, push_zeros(w, n)) == target_interval,
{
    lemma_push_zeros_suffix(w, n);
    lemma_idle_workload_converges(target_interval, push_zeros(w, n));
}

/// An all-zero window sums to zero.
proof fn lemma_sum_zero(w: Seq<u64>)
    requires
        forall|i: int| 0 <= i < w.len() ==> w[i] == 0,
    ensures
        sum_of(w) == 0,
    decreases w.len(),
{
    if w.len() > 0 {
        assert(forall|i: int| 0 <= i < w.drop_last().len() ==> w.drop_last()[i] == 0);
        lemma_sum_zero(w.drop_last());
    }
}

/// Pacing state: target interval, the rolling window of workload durations,
/// the last tick's timestamp and the last achieved frequency.
pub struct RealtimePacemaker {
    target_interval_micros: u64,
    last_tick_micros: Option<u64>,
    samples: Vec<u64>,
    current_freq_millihz: u64,
}

impl RealtimePacemaker {
    /// Target interval between iterations, in microseconds.
    pub closed spec fn target_interval(self) -> int {
        self.target_interval_micros as int
    }

    /// The rolling window of workload-duration samples, oldest first.
    pub closed spec fn window(self) -> Seq<u64> {
        self.samples@
    }

    /// When the previous tick was stamped, if one was.
    pub closed spec fn last_tick(self) -> Option<u64> {
        self.last_tick_micros
    }

    /// The last achieved frequency, in millihertz.
    pub closed spec fn freq_millihz(self) -> int {
        self.current_freq_millihz as int
    }

    pub open spec fn wf(self) -> bool {
        &&& 1 <= self.target_interval()
        &&& self.window().len() <= SMOOTHING_WINDOW
    }

    /// `target_frequency_millihz` is the configured rate in millihertz; the
    /// target interval is its reciprocal, rounded down to microseconds.
    pub fn new(target_frequency_millihz: u64) -> (p: RealtimePacemaker)
        requires
            1 <= target_frequency_millihz <= 1_000_000_000,
        ensures
            p.wf(),
            p.target_interval() == 1_000_000_000int / target_frequency_millihz as int,
            p.window() == Seq::<u64>::empty(),
            p.last_tick() is None,
            p.freq_millihz() == 0,
    {
        proof {
            lemma_div_is_ordered(target_frequency_millihz as int, 1_000_000_000, target_frequency_millihz as int);
            vstd::arithmetic::div_mod::lemma_div_by_self(target_frequency_millihz as int);
        }
        RealtimePacemaker {
            target_interval_micros: 1_000_000_000u64 / target_frequency_millihz,
            last_tick_micros: None,
            samples: Vec::new(),
            current_freq_millihz: 0,
        }
    }

    /// One pacing step, called after the iteration's work ran, with the
    /// current monotonic time: the very first call only establishes a
    /// reference point and asks for no sleep; later calls feed the elapsed
    /// workload duration into the rolling average and ask for the smoothed
    /// remainder of the target interval, never a negative duration. The
    /// caller sleeps that long and then calls `complete`.
    pub fn tick(&mut self, now_micros: u64) -> (sleep_micros: u64)
        requires
            old(self).wf(),
            match old(self).last_tick() {
                Some(t) => t <= now_micros,
                None => true,
            },
        ensures
            final(self).wf(),
            final(self).target_interval() == old(self).target_interval(),
            final(self).last_tick() == old(self).last_tick(),
            final(self).freq_millihz() == old(self).freq_millihz(),
            match old(self).last_tick() {
                None => final(self).window() == old(self).window() && sleep_micros == 0,
                Some(t) => {
                    &&& final(self).window() == push_sample(
                        old(self).window(),
                        (now_micros - t) as u64,
                    )
                    &&& sleep_micros == planned_sleep(
                        old(self).target_interval(),
                        final(self).window(),
                    )
                },
            },
    {
        match self.last_tick_micros {
            None => 0,
            Some(t) => {
                let sample = now_micros - t;
                if self.samples.len() == SMOOTHING_WINDOW {
                    self.samples.remove(0);
                    proof {
                        assert(self.samples@ =~= old(self).window().skip(1));
                    }
                }
                self.samples.push(sample);
                let average = self.window_average();
                if average >= self.target_interval_micros {
                    0
                } else {
                    self.target_interval_micros - average
                }
            }
        }
    }

    /// The rolling average of the current window.
    fn window_average(&self) -> (avg: u64)
        requires
            0 < self.window().len() <= SMOOTHING_WINDOW,
        ensures
            avg == avg_of(self.window()),
    {
        let mut sum: u128 = 0;
        let mut i: usize = 0;
        while i < self.samples.len()
            invariant
                i <= self.window().len(),
                0 < self.window().len() <= SMOOTHING_WINDOW,
                sum == sum_of(self.window().take(i as int)),
                sum <= i * (u64::MAX as int),
            decreases self.window().len() - i,
        {
            proof {
                assert(self.window().take(i + 1).drop_last() =~= self.window().take(i as int));
                assert(self.window().take(i + 1).last() == self.window()[i as int]);
            }
            sum = sum + self.samples[i] as u128;
            i += 1;
        }
        proof {
            assert(self.window().take(self.window().len() as int) =~= self.window());
            lemma_avg_bounds(self.window());
        }
        (sum / (self.samples.len() as u128)) as u64
    }

    /// Stamp the end of the tick, after the requested sleep was performed:
    /// the achieved frequency is recomputed from the actual wall-clock gap
    /// between the two most recent ticks — workload plus sleep, so it
    /// reflects true throughput including overshoot — and the timestamp is
    /// recorded for the next iteration. On the very first tick only the
    /// timestamp is recorded and the reported frequency stays as it was.
    pub fn complete(&mut self, now_micros: u64)
        requires
            old(self).wf(),
            match old(self).last_tick() {
                Some(t) => t <= now_micros,
                None => true,
            },
        ensures
            final(self).wf(),
            final(self).target_interval() == old(self).target_interval(),
            final(self).window() == old(self).window(),
            final(self).last_tick() == Some(now_micros),
            match old(self).last_tick() {
                None => final(self).freq_millihz() == old(self).freq_millihz(),
                Some(t) => final(self).freq_millihz() == spec_freq_millihz(now_micros - t),
            },
    {
        if let Some(t) = self.last_tick_micros {
            let gap = now_micros - t;
            self.current_freq_millihz = if gap > 0 {
                1_000_000_000u64 / gap
            } else {
                0
            };
        }
        self.last_tick_micros = Some(now_micros);
    }

    /// The last achieved frequency, in millihertz; zero until two ticks
    /// have happened.
    pub fn current_frequency(&self) -> (freq: u64)
        ensures
            freq == self.freq_millihz(),
    {
        self.current_freq_millihz
    }

    /// The configured target interval, in microseconds.
    pub fn target_interval_micros(&self) -> (t: u64)
        ensures
            t == self.target_interval(),
    {
        self.target_interval_micros
    }
}

} // verus!
