//! Fixed-interval frame pacing with bounded catch-up.
//!
//! The pacer tracks a monotonically advancing deadline one frame interval
//! apart. When the wall clock has drifted more than three intervals past the
//! deadline it resynchronizes to `now + interval` instead of firing rapidly
//! to catch up, trading perfect frame count for bounded recovery time.
//!
//! All sleeping is left to the caller: `wait_for_next_frame` returns how long
//! to sleep, so the pacing decision itself is verified.

use vstd::prelude::*;

verus! {

pub struct VSync {
    /// Duration of one frame in microseconds.
    pub frame_interval_us: u64,
    /// Deadline at which the next frame should be presented.
    pub next_frame_time_us: u64,
    /// Frames paced through `wait_for_next_frame`.
    pub frames_rendered: u64,
    /// Frames skipped through `drop_frame`.
    pub frames_dropped: u64,
}

/// Counters reported by [`VSync::stats`].
#[derive(Clone, Copy, PartialEq, Eq, Structural, Debug)]
pub struct VSyncStats {
    pub frames_rendered: u64,
    pub frames_dropped: u64,
    /// Duration of one frame in microseconds.
    pub frame_interval_us: u64,
}

impl VSync {
    /// How many frames should have been presented after `elapsed_us` of
    /// playback.
    pub open spec fn spec_expected_frames(self, elapsed_us: u64) -> int {
        elapsed_us as int / self.frame_interval_us as int
    }

    /// Create a pacer with the given frame interval; the first deadline is
    /// one interval from `now_us`.
    pub fn new(frame_interval_us: u64, now_us: u64) -> (v: VSync)
        requires
            1 <= frame_interval_us,
            now_us + frame_interval_us <= u64::MAX,
        ensures
            v == (VSync {
                frame_interval_us,
                next_frame_time_us: (now_us + frame_interval_us) as u64,
                frames_rendered: 0u64,
                frames_dropped: 0u64,
            }),
    {
        VSync {
            frame_interval_us,
            next_frame_time_us: now_us + frame_interval_us,
            frames_rendered: 0,
            frames_dropped: 0,
        }
    }

    /// Decide how long to sleep before presenting the next frame, then
    /// advance the deadline by one interval and count the frame.
    ///
    /// If `now_us` has drifted more than three intervals past the deadline,
    /// the deadline resynchronizes to `now_us + interval` instead.
    pub fn wait_for_next_frame(&mut self, now_us: u64) -> (sleep_us: u64)
        requires
            old(self).next_frame_time_us + old(self).frame_interval_us <= u64::MAX,
            now_us + old(self).frame_interval_us <= u64::MAX,
            old(self).frame_interval_us * 3 <= u64::MAX,
            old(self).frames_rendered < u64::MAX,
        ensures
            final(self).frame_interval_us == old(self).frame_interval_us,
            final(self).frames_dropped == old(self).frames_dropped,
            final(self).frames_rendered == old(self).frames_rendered + 1,
            now_us > old(self).next_frame_time_us + old(self).frame_interval_us * 3 ==> {
                &&& sleep_us == 0
                &&& final(self).next_frame_time_us == now_us + old(self).frame_interval_us
            },
            now_us <= old(self).next_frame_time_us + old(self).frame_interval_us * 3 ==> {
                &&& final(self).next_frame_time_us == old(self).next_frame_time_us
                    + old(self).frame_interval_us
                &&& sleep_us == if now_us < old(self).next_frame_time_us {
                    old(self).next_frame_time_us - now_us
                } else {
                    0int
                }
            },
    {
        let lag_limit = self.frame_interval_us * 3;
        if now_us > self.next_frame_time_us && now_us - self.next_frame_time_us > lag_limit {
            self.next_frame_time_us = now_us + self.frame_interval_us;
            self.frames_rendered = self.frames_rendered + 1;
            return 0;
        }
        let sleep_us = if now_us < self.next_frame_time_us {
            self.next_frame_time_us - now_us
        } else {
            0
        };
        self.next_frame_time_us = self.next_frame_time_us + self.frame_interval_us;
        self.frames_rendered = self.frames_rendered + 1;
        sleep_us
    }

    /// Whether the current frame should be skipped to catch up: true when
    /// playback is more than five frames ahead of what has been rendered.
    pub fn should_drop_frame(&self, elapsed_us: u64) -> (drop: bool)
        requires
            1 <= self.frame_interval_us,
            self.frames_rendered + 5 <= u64::MAX,
        ensures
            drop == (self.spec_expected_frames(elapsed_us) > self.frames_rendered + 5),
    {
        let expected_frame = elapsed_us / self.frame_interval_us;
        expected_frame > self.frames_rendered + 5
    }

    /// Record a skipped frame and advance the deadline past it.
    pub fn drop_frame(&mut self)
        requires
            old(self).frames_dropped < u64::MAX,
            old(self).next_frame_time_us + old(self).frame_interval_us <= u64::MAX,
        ensures
            *final(self) == (VSync {
                frames_dropped: (old(self).frames_dropped + 1) as u64,
                next_frame_time_us: (old(self).next_frame_time_us
                    + old(self).frame_interval_us) as u64,
                ..*old(self)
            }),
    {
        self.frames_dropped = self.frames_dropped + 1;
        self.next_frame_time_us = self.next_frame_time_us + self.frame_interval_us;
    }

    /// Report the counters.
    pub fn stats(&self) -> (s: VSyncStats)
        ensures
            s == (VSyncStats {
                frames_rendered: self.frames_rendered,
                frames_dropped: self.frames_dropped,
                frame_interval_us: self.frame_interval_us,
            }),
    {
        VSyncStats {
            frames_rendered: self.frames_rendered,
            frames_dropped: self.frames_dropped,
            frame_interval_us: self.frame_interval_us,
        }
    }

    /// Zero the counters and restart the deadline one interval from `now_us`.
    pub fn reset(&mut self, now_us: u64)
        requires
            now_us + old(self).frame_interval_us <= u64::MAX,
        ensures
            *final(self) == (VSync {
                frame_interval_us: old(self).frame_interval_us,
                next_frame_time_us: (now_us + old(self).frame_interval_us) as u64,
                frames_rendered: 0u64,
                frames_dropped: 0u64,
            }),
    {
        self.next_frame_time_us = now_us + self.frame_interval_us;
        self.frames_rendered = 0;
        self.frames_dropped = 0;
    }
}

} // verus!
