//! Liveness guard: a deadline model of the background watchdog. The loop
//! thread resets the deadline every iteration; a background unit that finds
//! the deadline passed with no reset raises a fatal liveness violation and
//! the process terminates. Liveness loss is modelled as data — the `expired`
//! verdict — so the caller that runs the background unit decides how to
//! shut down.
//!
//! Times are integer microseconds on a monotonic clock.

use vstd::prelude::*;

verus! {

/// The timeout is a fixed multiple of the pacing interval, so a loop that
/// merely runs slow does not trip the guard: only a stall does.
pub const WATCHDOG_INTERVAL_FACTOR: u64 = 20;

/// The watchdog timeout for a pacing target interval.
pub fn watchdog_timeout_micros(target_interval_micros: u64) -> (timeout: u64)
    requires
        target_interval_micros * WATCHDOG_INTERVAL_FACTOR <= u64::MAX,
    ensures
        timeout == target_interval_micros * WATCHDOG_INTERVAL_FACTOR,
{
    target_interval_micros * WATCHDOG_INTERVAL_FACTOR
}

/// Watchdog state: the fixed timeout and the current deadline. The process
/// must be reset before the deadline passes, or the guard trips.
pub struct Watchdog {
    timeout_micros: u64,
    deadline_micros: u64,
}

impl Watchdog {
    /// The timeout fixed at construction, in microseconds.
    pub closed spec fn timeout(self) -> int {
        self.timeout_micros as int
    }

    /// The current deadline: the instant at which, with no further reset,
    /// the guard trips.
    pub closed spec fn deadline(self) -> int {
        self.deadline_micros as int
    }

    pub fn new(timeout_micros: u64, now_micros: u64) -> (w: Watchdog)
        requires
            1 <= timeout_micros,
            now_micros + timeout_micros <= u64::MAX,
        ensures
            w.timeout() == timeout_micros,
            w.deadline() == now_micros + timeout_micros,
    {
        Watchdog { timeout_micros, deadline_micros: now_micros + timeout_micros }
    }

    /// A reset signal from the loop thread: the deadline moves one full
    /// timeout past the instant the signal is seen.
    pub fn reset(&mut self, now_micros: u64)
        requires
            now_micros + old(self).timeout() <= u64::MAX,
        ensures
            final(self).timeout() == old(self).timeout(),
            final(self).deadline() == now_micros + old(self).timeout(),
    {
        self.deadline_micros = now_micros + self.timeout_micros;
    }

    /// The background unit's check: has liveness been lost? A `true`
    /// verdict is terminal — the caller terminates the process.
    pub fn expired(&self, now_micros: u64) -> (verdict: bool)
        ensures
            verdict == (self.deadline() <= now_micros),
    {
        self.deadline_micros <= now_micros
    }
}

/// The deadline in force when the `k`-th reset arrives: one timeout past
/// construction for the first reset, one timeout past the previous reset
/// after that.
pub open spec fn deadline_before(start: int, timeout: int, resets: Seq<int>, k: int) -> int {
    if k == 0 {
        start + timeout
    } else {
        resets[k - 1] + timeout
    }
}

/// Every reset arrives strictly before the deadline then in force: the
/// guard never trips while the resets keep coming.
pub open spec fn all_resets_in_time(start: int, timeout: int, resets: Seq<int>) -> bool {
    forall|k: int| 0 <= k < resets.len() ==> resets[k] < deadline_before(start, timeout, resets, k)
}

/// When the resets stop, the guard trips at the deadline left in force
/// after the last one.
pub open spec fn expiry_time(start: int, timeout: int, resets: Seq<int>) -> int {
    deadline_before(start, timeout, resets, resets.len() as int)
}

/// Liveness, both ways, for a watchdog with timeout `timeout` constructed
/// at `start` and reset at the instants `resets`, each reset coming less
/// than one timeout after the previous one: the guard never trips while the
/// resets continue; and once they stop, it trips exactly at the final
/// deadline — within one to two timeouts of the last reset.
pub proof fn lemma_watchdog_liveness(start: int, timeout: int, resets: Seq<int>)
    requires
        0 < timeout,
        0 < resets.len(),
        start <= resets[0] < start + timeout,
        forall|k: int| 1 <= k < resets.len() ==> resets[k - 1] <= #[trigger] resets[k]
            < resets[k - 1] + timeout,
    ensures
        all_resets_in_time(start, timeout, resets),
        resets.last() + timeout <= expiry_time(start, timeout, resets) < resets.last() + 2
            * timeout,
{
}

} // verus!
