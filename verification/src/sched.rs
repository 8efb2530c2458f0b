//! The tick scheduler: a resettable countdown, in milliseconds. The frame
//! loop accumulates elapsed time into it; the simulation mutates state only
//! when it has fired, and then restarts it with the duration of the mode
//! it is entering.

use vstd::prelude::*;

verus! {

/// `a + b` capped at `u64::MAX`.
pub open spec fn sat_add(a: u64, b: u64) -> u64 {
    if a + b <= u64::MAX {
        (a + b) as u64
    } else {
        u64::MAX
    }
}

/// Countdown timer. It has fired once the accumulated time reaches its
/// duration; the simulation step restarts it on every firing.
#[derive(Clone, Copy, PartialEq, Eq, Structural, Debug)]
pub struct Scheduler {
    pub duration_ms: u64,
    pub elapsed_ms: u64,
}

impl Scheduler {
    /// Durations are always positive, so a freshly restarted scheduler has
    /// not fired.
    pub open spec fn wf(&self) -> bool {
        self.duration_ms > 0
    }

    /// The countdown has run out.
    pub open spec fn fired(&self) -> bool {
        self.elapsed_ms >= self.duration_ms
    }

    pub fn new(duration_ms: u64) -> (r: Self)
        requires
            duration_ms > 0,
        ensures
            r == (Scheduler { duration_ms, elapsed_ms: 0 }),
    {
        Scheduler { duration_ms, elapsed_ms: 0 }
    }

    /// Accumulate elapsed frame time, saturating at the counter's limit.
    pub fn tick(&mut self, delta_ms: u64)
        ensures
            final(self).duration_ms == old(self).duration_ms,
            final(self).elapsed_ms == sat_add(old(self).elapsed_ms, delta_ms),
    {
        if self.elapsed_ms <= u64::MAX - delta_ms {
            self.elapsed_ms = self.elapsed_ms + delta_ms;
        } else {
            self.elapsed_ms = u64::MAX;
        }
    }

    /// Replace the countdown: new duration, nothing elapsed.
    pub fn restart(&mut self, duration_ms: u64)
        requires
            duration_ms > 0,
        ensures
            *final(self) == (Scheduler { duration_ms, elapsed_ms: 0 }),
    {
        self.duration_ms = duration_ms;
        self.elapsed_ms = 0;
    }

    /// Expire the countdown immediately, so the next firing check passes.
    pub fn force_fire(&mut self)
        ensures
            *final(self) == (Scheduler {
                duration_ms: old(self).duration_ms,
                elapsed_ms: old(self).duration_ms,
            }),
            final(self).fired(),
    {
        self.elapsed_ms = self.duration_ms;
    }

    pub fn is_fired(&self) -> (b: bool)
        ensures
            b == self.fired(),
    {
        self.elapsed_ms >= self.duration_ms
    }
}

} // verus!
