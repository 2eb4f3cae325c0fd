//! The fixed-period schedule that drives the update engine: one sweep at
//! startup, then one every period, and never two sweeps at once — a sweep
//! that is still running when the next is due makes the next one wait for
//! a later tick instead of queueing.

use vstd::prelude::*;

verus! {

/// When sweeps start, and whether one is running now.
pub struct Scheduler {
    pub period: u32,
    pub last_start: Option<u64>,
    pub running: bool,
}

impl Scheduler {
    /// A sweep is due when none is running and either none has started yet
    /// (the startup sweep) or a full period has passed since the last start.
    pub open spec fn spec_due(&self, now: u64) -> bool {
        &&& !self.running
        &&& match self.last_start {
            None => true,
            Some(t) => now >= t + self.period,
        }
    }

    /// A schedule on which the startup sweep is immediately due.
    pub fn new(period: u32) -> (r: Scheduler)
        requires
            period > 0,
        ensures
            r.period == period,
            r.last_start is None,
            !r.running,
    {
        Scheduler { period, last_start: None, running: false }
    }

    /// Says whether a sweep should start at time `now`.
    pub fn due(&self, now: u64) -> (r: bool)
        ensures
            r == self.spec_due(now),
    {
        if self.running {
            return false;
        }
        match self.last_start {
            None => true,
            Some(t) => match now.checked_sub(t) {
                Some(elapsed) => elapsed >= self.period as u64,
                None => false,
            },
        }
    }

    /// Starts the sweep that is due at time `now`.
    pub fn begin(&mut self, now: u64)
        requires
            old(self).spec_due(now),
        ensures
            final(self).running,
            final(self).last_start == Some(now),
            final(self).period == old(self).period,
    {
        self.last_start = Some(now);
        self.running = true;
    }

    /// Marks the running sweep finished.
    pub fn finish(&mut self)
        ensures
            !final(self).running,
            final(self).last_start == old(self).last_start,
            final(self).period == old(self).period,
    {
        self.running = false;
    }
}

/// Mutual exclusion of sweeps: while one runs, no other is ever due, so
/// runs can only be skipped, never overlapped.
pub proof fn lemma_no_overlapping_sweeps(s: Scheduler, now: u64)
    requires
        s.running,
    ensures
        !s.spec_due(now),
{
}

} // verus!
