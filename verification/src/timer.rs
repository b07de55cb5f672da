//! A minimal stopwatch over caller-supplied monotonic microsecond readings.

use vstd::prelude::*;

verus! {

pub struct Timer {
    /// Reading of the caller's time source when the timer (re)started.
    pub start_us: u64,
}

impl Timer {
    /// Start a timer at the given reading.
    pub fn new(now_us: u64) -> (t: Timer)
        ensures
            t.start_us == now_us,
    {
        Timer { start_us: now_us }
    }

    /// Elapsed whole milliseconds at reading `now_us`.
    pub fn elapsed_ms(&self, now_us: u64) -> (ms: u64)
        requires
            self.start_us <= now_us,
        ensures
            ms == (now_us - self.start_us) / 1000,
    {
        (now_us - self.start_us) / 1000
    }

    /// Elapsed microseconds at reading `now_us`.
    pub fn elapsed(&self, now_us: u64) -> (us: u64)
        requires
            self.start_us <= now_us,
        ensures
            us == now_us - self.start_us,
    {
        now_us - self.start_us
    }

    /// Restart the timer at the given reading.
    pub fn reset(&mut self, now_us: u64)
        ensures
            final(self).start_us == now_us,
    {
        self.start_us = now_us;
    }
}

} // verus!
