//! One-shot countdown timers in milliseconds, ticked once per frame.
use vstd::prelude::*;

verus! {

/// A one-shot timer: `elapsed` runs from zero up to `duration` and stops
/// there; `finished` is set by the tick that reaches the end.
#[derive(Clone, Copy, Debug, PartialEq, Eq, Structural)]
pub struct Timey {
    pub duration: u64,
    pub elapsed: u64,
    pub finished: bool,
}

impl Timey {
    /// A timer that has not run yet.
    pub open spec fn started(duration: u64) -> Timey {
        Timey { duration, elapsed: 0, finished: false }
    }

    pub open spec fn wf(&self) -> bool {
        &&& self.elapsed <= self.duration
        &&& self.finished ==> self.elapsed == self.duration
    }

    /// Whether a tick of `dt` milliseconds is the one that reaches the end.
    pub open spec fn finishes_on(&self, dt: u64) -> bool {
        !self.finished && self.elapsed + dt >= self.duration
    }

    /// The timer after a tick of `dt` milliseconds.
    pub open spec fn ticked(&self, dt: u64) -> Timey {
        if self.finished {
            *self
        } else if self.elapsed + dt >= self.duration {
            Timey { elapsed: self.duration, finished: true, ..*self }
        } else {
            Timey { elapsed: (self.elapsed + dt) as u64, ..*self }
        }
    }

    /// Whole seconds elapsed.
    pub open spec fn secs(&self) -> u64 {
        self.elapsed / 1000
    }

    /// A timer of `duration` milliseconds.
    pub fn new(duration: u64) -> (t: Timey)
        ensures
            t == Timey::started(duration),
            t.wf(),
    {
        Timey { duration, elapsed: 0, finished: false }
    }

    /// Advances by `delta` milliseconds; true exactly on the tick that
    /// reaches the end.
    pub fn tick(&mut self, delta: u64) -> (just_finished: bool)
        requires
            old(self).wf(),
        ensures
            *final(self) == old(self).ticked(delta),
            just_finished == old(self).finishes_on(delta),
            final(self).wf(),
    {
        if self.finished {
            return false;
        }
        if delta >= self.duration - self.elapsed {
            self.elapsed = self.duration;
            self.finished = true;
            true
        } else {
            self.elapsed = self.elapsed + delta;
            false
        }
    }

    /// Milliseconds elapsed.
    pub fn elapsed(&self) -> (r: u64)
        ensures
            r == self.elapsed,
    {
        self.elapsed
    }

    /// Whole seconds elapsed.
    pub fn elapsed_secs(&self) -> (r: u64)
        ensures
            r == self.secs(),
    {
        self.elapsed / 1000
    }
}

} // verus!
