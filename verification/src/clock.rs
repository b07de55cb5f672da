//! Monotonic master clock for audio/video synchronization.
//!
//! The clock is a pure state machine over integer microsecond readings: the
//! caller samples its monotonic time source and passes the reading in. This
//! keeps every transition and the elapsed-time arithmetic verifiable.

use vstd::prelude::*;

verus! {

/// A pausable clock. `elapsed` excludes time spent paused.
pub struct MasterClock {
    /// Reading of the caller's time source when the clock (re)started.
    pub start_us: u64,
    /// Whether the clock is currently paused.
    pub paused: bool,
    /// The reading at which the current pause began, when paused.
    pub pause_us: Option<u64>,
    /// Total time spent paused since the clock started, excluding a
    /// still-open pause.
    pub total_pause_us: u64,
}

impl MasterClock {
    /// Internal consistency: the pause record exists exactly while paused,
    /// and accumulated pause time never exceeds the span it was carved from.
    pub open spec fn wf(self) -> bool {
        &&& self.paused <==> self.pause_us is Some
        &&& self.pause_us matches Some(p) ==> self.start_us + self.total_pause_us <= p
    }

    /// What the clock reports as elapsed: time from start to `now` (or to the
    /// pause instant while paused), minus time spent paused.
    pub open spec fn spec_elapsed(self, now_us: u64) -> int {
        if self.paused {
            self.pause_us->Some_0 - self.start_us - self.total_pause_us
        } else {
            now_us - self.start_us - self.total_pause_us
        }
    }

    /// Create a clock that starts at the given reading.
    pub fn new(now_us: u64) -> (c: MasterClock)
        ensures
            c.wf(),
            c == (MasterClock {
                start_us: now_us,
                paused: false,
                pause_us: None::<u64>,
                total_pause_us: 0u64,
            }),
    {
        MasterClock { start_us: now_us, paused: false, pause_us: None, total_pause_us: 0 }
    }

    /// Elapsed unpaused time at reading `now_us`.
    pub fn elapsed(&self, now_us: u64) -> (e: u64)
        requires
            self.wf(),
            !self.paused ==> self.start_us + self.total_pause_us <= now_us,
        ensures
            e == self.spec_elapsed(now_us),
    {
        if self.paused {
            match self.pause_us {
                Some(p) => p - self.start_us - self.total_pause_us,
                None => 0,
            }
        } else {
            now_us - self.start_us - self.total_pause_us
        }
    }

    /// Pause the clock at reading `now_us`. Pausing an already paused clock
    /// changes nothing.
    pub fn pause(&mut self, now_us: u64)
        requires
            old(self).wf(),
            old(self).start_us + old(self).total_pause_us <= now_us,
        ensures
            final(self).wf(),
            old(self).paused ==> *final(self) == *old(self),
            !old(self).paused ==> *final(self) == (MasterClock {
                paused: true,
                pause_us: Some(now_us),
                ..*old(self)
            }),
    {
        if !self.paused {
            self.paused = true;
            self.pause_us = Some(now_us);
        }
    }

    /// Resume the clock at reading `now_us`; the span of the ended pause is
    /// added to the paused total. Resuming a running clock changes nothing.
    pub fn resume(&mut self, now_us: u64)
        requires
            old(self).wf(),
            old(self).pause_us matches Some(p) ==> p <= now_us,
        ensures
            final(self).wf(),
            !old(self).paused ==> *final(self) == *old(self),
            old(self).paused ==> *final(self) == (MasterClock {
                paused: false,
                pause_us: None::<u64>,
                total_pause_us: (old(self).total_pause_us + (now_us
                    - old(self).pause_us->Some_0)) as u64,
                ..*old(self)
            }),
            old(self).paused ==> final(self).start_us + final(self).total_pause_us <= now_us,
    {
        if self.paused {
            match self.pause_us {
                Some(p) => {
                    self.total_pause_us = self.total_pause_us + (now_us - p);
                }
                None => {}
            }
            self.paused = false;
            self.pause_us = None;
        }
    }

    /// Whether the clock is paused.
    pub fn is_paused(&self) -> (p: bool)
        ensures
            p == self.paused,
    {
        self.paused
    }

    /// Restart the clock from zero at reading `now_us`.
    pub fn reset(&mut self, now_us: u64)
        ensures
            final(self).wf(),
            *final(self) == (MasterClock {
                start_us: now_us,
                paused: false,
                pause_us: None::<u64>,
                total_pause_us: 0u64,
            }),
    {
        self.start_us = now_us;
        self.paused = false;
        self.pause_us = None;
        self.total_pause_us = 0;
    }
}

} // verus!
