//! Fixed-rate pacing: the logic loop and the render loop each fire when
//! their period has passed since they last fired.

use vstd::prelude::*;

verus! {

/// A schedule with a fixed period. Times are counted in nanoseconds on a
/// clock that never runs backwards.
#[derive(Clone, Copy, Debug, PartialEq, Eq, Structural)]
pub struct Pacer {
    pub period: u64,
    pub last: u64,
}

impl Pacer {
    /// At `now`, at least one period has passed since the schedule last fired.
    pub open spec fn due(self, now: u64) -> bool {
        now >= self.last && now - self.last >= self.period
    }

    /// The schedule after it was asked at `now`: where it was due, it has
    /// fired at `now`.
    pub open spec fn asked(self, now: u64) -> Pacer {
        if self.due(now) {
            Pacer { last: now, ..self }
        } else {
            self
        }
    }

    /// A schedule that counts its first period from `now`.
    pub fn new(period: u64, now: u64) -> (r: Pacer)
        ensures
            r == (Pacer { period, last: now }),
    {
        Pacer { period, last: now }
    }

    /// Asks the schedule at `now`. Where a period has passed it fires: it
    /// answers `true` and counts the next period from `now`. However many
    /// periods have passed, it fires once.
    pub fn fire(&mut self, now: u64) -> (r: bool)
        ensures
            r == old(self).due(now),
            *final(self) == old(self).asked(now),
    {
        if now >= self.last && now - self.last >= self.period {
            self.last = now;
            true
        } else {
            false
        }
    }
}

/// A schedule that has fired is not due again before a whole period has
/// passed, however late it fired: missed periods are not made up for.
pub proof fn lemma_no_catch_up(p: Pacer, now: u64, later: u64)
    requires
        p.due(now),
        now <= later,
        later - now < p.period,
    ensures
        !p.asked(now).due(later),
        p.asked(now).asked(later) == p.asked(now),
{
}

/// Asking a schedule that is not due changes nothing, and the period never changes.
pub proof fn lemma_idle_ask(p: Pacer, now: u64)
    ensures
        !p.due(now) ==> p.asked(now) == p,
        p.asked(now).period == p.period,
        p.due(now) ==> p.asked(now).last == now,
{
}

} // verus!
