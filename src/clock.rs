//! The tick clock: when the last state advance happened, and how often one is due.
//! Instants are milliseconds on a monotonic clock.

use vstd::prelude::*;

verus! {

#[derive(Debug, Clone, Copy, PartialEq, Eq, Structural)]
pub struct TickClock {
    /// Milliseconds between two state advances.
    pub interval: u64,
    /// Instant of the last state advance.
    pub last_tick: u64,
}

impl TickClock {
    /// Time since the last advance; an instant before it counts as none.
    pub open spec fn elapsed(self, now: u64) -> nat {
        if now >= self.last_tick {
            (now - self.last_tick) as nat
        } else {
            0
        }
    }

    /// An advance is due once a whole interval has elapsed.
    pub open spec fn due(self, now: u64) -> bool {
        self.elapsed(now) >= self.interval
    }

    /// How long to wait for input before the next advance is due.
    pub open spec fn wait(self, now: u64) -> nat {
        if self.due(now) {
            0
        } else {
            (self.interval - self.elapsed(now)) as nat
        }
    }

    /// The clock after a check at `now`: reset to `now` when an advance was due.
    pub open spec fn checked_at(self, now: u64) -> TickClock {
        if self.due(now) {
            TickClock { interval: self.interval, last_tick: now }
        } else {
            self
        }
    }

    /// A clock whose last advance is `now`.
    pub fn new(interval: u64, now: u64) -> (r: TickClock)
        ensures
            r.interval == interval,
            r.last_tick == now,
    {
        TickClock { interval, last_tick: now }
    }

    fn elapsed_ms(&self, now: u64) -> (r: u64)
        ensures
            r == self.elapsed(now),
    {
        if now >= self.last_tick {
            now - self.last_tick
        } else {
            0
        }
    }

    /// Whether an advance is due at `now`.
    pub fn is_due(&self, now: u64) -> (r: bool)
        ensures
            r == self.due(now),
    {
        self.elapsed_ms(now) >= self.interval
    }

    /// The poll timeout at `now`: the interval less the elapsed time, at least zero.
    pub fn timeout(&self, now: u64) -> (r: u64)
        ensures
            r == self.wait(now),
            r <= self.interval,
    {
        let e = self.elapsed_ms(now);
        if e >= self.interval {
            0
        } else {
            self.interval - e
        }
    }

    /// Records an advance at `now`.
    pub fn reset(&mut self, now: u64)
        ensures
            final(self).interval == old(self).interval,
            final(self).last_tick == now,
    {
        self.last_tick = now;
    }
}

/// Whether `times` never goes backwards.
pub open spec fn nondecreasing(times: Seq<u64>) -> bool {
    forall|i: int, j: int| 0 <= i <= j < times.len() ==> times[i] <= times[j]
}

/// How many advances a clock makes when checked at each of `times` in turn.
pub open spec fn advances_over(c: TickClock, times: Seq<u64>) -> nat
    decreases times.len(),
{
    if times.len() == 0 {
        0
    } else {
        (if c.due(times[0]) { 1nat } else { 0nat }) + advances_over(
            c.checked_at(times[0]),
            times.drop_first(),
        )
    }
}

/// A check at `now` advances at most once, exactly when a whole interval has
/// elapsed (however many intervals that is), and then measures from `now`.
pub proof fn lemma_single_advance_per_check(c: TickClock, now: u64)
    ensures
        c.due(now) ==> c.checked_at(now) == (TickClock { interval: c.interval, last_tick: now }),
        c.due(now) && c.last_tick <= now ==> now - c.last_tick >= c.interval,
        !c.due(now) ==> c.checked_at(now) == c,
        c.checked_at(now).interval == c.interval,
{
}

/// Advances never come early: over checks at nondecreasing instants, starting
/// no earlier than the last advance, the advances made span at most the time
/// that passed, one interval each.
pub proof fn lemma_advances_never_early(c: TickClock, times: Seq<u64>)
    requires
        times.len() > 0,
        nondecreasing(times),
        c.last_tick <= times[0],
    ensures
        advances_over(c, times) * c.interval <= times.last() - c.last_tick,
    decreases times.len(),
{
    let t0 = times[0];
    let next = c.checked_at(t0);
    let rest = times.drop_first();
    if rest.len() == 0 {
        assert(advances_over(next, rest) == 0);
        assert(times.last() == t0);
        if c.due(t0) {
            assert(advances_over(c, times) == 1);
            assert(advances_over(c, times) * c.interval == c.interval);
        } else {
            assert(advances_over(c, times) == 0);
            assert(advances_over(c, times) * c.interval == 0);
        }
    } else {
        assert(nondecreasing(rest)) by {
            assert forall|i: int, j: int| 0 <= i <= j < rest.len() implies rest[i] <= rest[j] by {
                assert(rest[i] == times[i + 1] && rest[j] == times[j + 1]);
            }
        }
        assert(rest[0] == times[1]);
        assert(next.last_tick <= rest[0]);
        lemma_advances_never_early(next, rest);
        assert(rest.last() == times.last());
        let k = advances_over(next, rest);
        assert(k * next.interval <= rest.last() - next.last_tick);
        if c.due(t0) {
            assert(advances_over(c, times) == 1 + k);
            assert((1 + k) * c.interval == c.interval + k * c.interval) by (nonlinear_arith);
        } else {
            assert(advances_over(c, times) == k);
        }
    }
}

} // verus!
