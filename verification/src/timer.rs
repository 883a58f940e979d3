//! Repeating countdown timers that drive the periodic spawns.

use vstd::prelude::*;

verus! {

use crate::MAX_TICK_MS;

/// A repeating countdown: ticking it forward by the elapsed frame time makes
/// it fire once each time the countdown reaches zero, upon which it rewinds
/// to its full period. While the simulation is paused the timer is simply
/// not ticked, so it freezes rather than catching up.
pub struct RepeatTimer {
    period_ms: i64,
    remaining_ms: i64,
    just_fired: bool,
}

impl RepeatTimer {
    /// The fixed period, in milliseconds.
    pub closed spec fn spec_period(self) -> i64 {
        self.period_ms
    }

    /// Milliseconds left until the timer next fires.
    pub closed spec fn spec_remaining(self) -> i64 {
        self.remaining_ms
    }

    /// Whether the most recent tick made the timer fire.
    pub closed spec fn spec_just_fired(self) -> bool {
        self.just_fired
    }

    /// A healthy timer: positive period, countdown within it.
    pub open spec fn wf(self) -> bool {
        0 < self.spec_period() <= i64::MAX - MAX_TICK_MS && 0 < self.spec_remaining()
            <= self.spec_period()
    }

    /// A fresh timer with a full countdown.
    pub fn new(period_ms: i64) -> (r: RepeatTimer)
        requires
            0 < period_ms <= i64::MAX - MAX_TICK_MS,
        ensures
            r.wf(),
            r.spec_period() == period_ms,
            r.spec_remaining() == period_ms,
            !r.spec_just_fired(),
    {
        RepeatTimer { period_ms, remaining_ms: period_ms, just_fired: false }
    }

    /// Advances the countdown by the elapsed frame time; fires — and rewinds
    /// to the full period — exactly when the elapsed time uses the countdown
    /// up.
    pub fn tick(&mut self, dt_ms: i64) -> (fired: bool)
        requires
            old(self).wf(),
            0 <= dt_ms <= MAX_TICK_MS,
        ensures
            final(self).wf(),
            final(self).spec_period() == old(self).spec_period(),
            fired == (dt_ms >= old(self).spec_remaining()),
            final(self).spec_just_fired() == fired,
            fired ==> final(self).spec_remaining() == old(self).spec_period(),
            !fired ==> final(self).spec_remaining() == old(self).spec_remaining() - dt_ms,
    {
        if dt_ms >= self.remaining_ms {
            self.remaining_ms = self.period_ms;
            self.just_fired = true;
            true
        } else {
            self.remaining_ms = self.remaining_ms - dt_ms;
            self.just_fired = false;
            false
        }
    }

    /// Whether the most recent tick fired.
    pub fn finished(&self) -> (r: bool)
        ensures
            r == self.spec_just_fired(),
    {
        self.just_fired
    }
}

} // verus!
