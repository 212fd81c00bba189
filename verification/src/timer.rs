//! A pausable stopwatch over an external monotonic clock.
//!
//! The caller reads the clock and passes the current time in, so the timer
//! itself is plain verified arithmetic: while paused, the elapsed time is
//! frozen at the pause point; resuming shifts the start by the paused span.

use vstd::prelude::*;
use crate::fx::fits;

verus! {

/// A pausable stopwatch; times are milli-seconds from the caller's clock.
#[derive(Clone, Copy, Debug, PartialEq, Eq, Structural)]
pub struct Timer {
    start: i64,
    pause_start: Option<i64>,
}

impl Timer {
    /// The moment the measured span began.
    pub closed spec fn start_time(&self) -> int {
        self.start as int
    }

    /// The moment the timer was paused, if it is paused.
    pub closed spec fn paused_at(&self) -> Option<int> {
        match self.pause_start {
            Some(p) => Some(p as int),
            None => None,
        }
    }

    /// A paused timer never pauses before it started, and times stay in the
    /// working range.
    pub closed spec fn wf(&self) -> bool {
        &&& fits(self.start as int)
        &&& 0 <= self.start
        &&& match self.pause_start {
            Some(p) => self.start <= p && fits(p as int),
            None => true,
        }
    }

    /// A running timer started at the given current time.
    pub fn new(now: i64) -> (r: Timer)
        requires
            0 <= now,
            fits(now as int),
        ensures
            r.wf(),
            r.start_time() == now,
            r.paused_at() is None,
    {
        Timer { start: now, pause_start: None }
    }

    /// Pauses the timer at the given current time; pausing a paused timer
    /// changes nothing.
    pub fn pause(&mut self, now: i64)
        requires
            old(self).wf(),
            old(self).start_time() <= now,
            fits(now as int),
        ensures
            final(self).wf(),
            old(self).paused_at() is Some ==> *final(self) == *old(self),
            old(self).paused_at() is None ==> final(self).start_time() == old(self).start_time()
                && final(self).paused_at() == Some(now as int),
    {
        if self.pause_start.is_none() {
            self.pause_start = Some(now);
        }
    }

    /// Resumes a paused timer at the given current time: the span spent
    /// paused is added to the start, so the elapsed time continues from
    /// where it froze.  Resuming a running timer changes nothing.
    pub fn resume(&mut self, now: i64)
        requires
            old(self).wf(),
            fits(now as int),
            old(self).paused_at() is Some ==> old(self).paused_at()->Some_0 <= now,
        ensures
            final(self).wf(),
            old(self).paused_at() is None ==> *final(self) == *old(self),
            old(self).paused_at() is Some ==> final(self).paused_at() is None && final(self).start_time() == old(self).start_time() + (now - old(self).paused_at()->Some_0),
    {
        if let Some(p) = self.pause_start {
            let paused_for = now - p;
            self.start = self.start + paused_for;
            self.pause_start = None;
        }
    }

    /// The measured span at the given current time: frozen at the pause
    /// point while paused, else the time since start.
    pub fn elapsed(&self, now: i64) -> (r: i64)
        requires
            self.wf(),
            self.start_time() <= now,
            fits(now as int),
        ensures
            match self.paused_at() {
                Some(p) => r == p - self.start_time(),
                None => r == now - self.start_time(),
            },
            r >= 0,
    {
        if let Some(p) = self.pause_start {
            p - self.start
        } else {
            now - self.start
        }
    }
}

} // verus!
