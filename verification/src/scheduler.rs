//! Timestamp-driven playback scheduling.
//!
//! The scheduler drives the consumer side of the frame channel. Each poll
//! drains the channel without blocking: frames whose timestamp has already
//! passed become the rendering candidate (each replaced candidate counts as
//! one dropped frame), and the first frame still in the future is set aside
//! for the next poll. The caller performs the sleeps the returned action
//! asks for, so every pacing and drop decision here is verified.
//!
//! Presentation order is non-decreasing in timestamp: frames are dropped,
//! never reordered. A frame popped ahead of its time is set aside, not
//! dropped, so the true first frame is always presented; only a candidate
//! replaced by a newer due frame counts as dropped.

use crate::frame_buffer::FrameBuffer;
use crate::frame_data::FrameData;
use vstd::prelude::*;

verus! {

#[derive(Clone, Copy, PartialEq, Eq, Structural, Debug)]
pub enum SchedulerPhase {
    /// No frame has been popped yet; the playback origin is not set.
    WaitingForFirstFrame,
    /// The origin is set; frames are being presented against it.
    Playing,
    /// The producer finished and the channel emptied; disposing.
    Draining,
    /// Playback over (end of stream or cancellation).
    Stopped,
}

/// What the consumer loop should do next.
pub enum SchedulerAction {
    /// Hand this frame to the cell processor and renderer now.
    Render(FrameData),
    /// Sleep this many microseconds, then poll again.
    Sleep(u64),
    /// Playback is over.
    Finished,
}

/// Timestamps never decrease along the sequence.
pub open spec fn ts_sorted(frames: Seq<FrameData>) -> bool {
    forall|i: int, j: int|
        0 <= i <= j < frames.len() ==> frames[i].timestamp_us <= frames[j].timestamp_us
}

/// Every frame's timestamp is at least `t`.
pub open spec fn frames_at_or_after(frames: Seq<FrameData>, t: u64) -> bool {
    forall|i: int| 0 <= i < frames.len() ==> frames[i].timestamp_us >= t
}

/// The length of the longest prefix whose timestamps are due at `pt`.
pub open spec fn count_due(frames: Seq<FrameData>, pt: u64) -> int
    decreases frames.len(),
{
    if frames.len() == 0 {
        0
    } else if frames[0].timestamp_us > pt {
        0
    } else {
        1 + count_due(frames.drop_first(), pt)
    }
}

/// `count_due` is exactly the boundary of the due prefix.
proof fn lemma_count_due_prefix(frames: Seq<FrameData>, pt: u64, k: int)
    requires
        0 <= k <= frames.len(),
        forall|i: int| 0 <= i < k ==> frames[i].timestamp_us <= pt,
        k < frames.len() ==> frames[k].timestamp_us > pt,
    ensures
        count_due(frames, pt) == k,
    decreases k,
{
    if k == 0 {
    } else {
        lemma_count_due_prefix(frames.drop_first(), pt, k - 1);
    }
}

pub struct PlaybackScheduler {
    pub phase: SchedulerPhase,
    /// The reading at which the first frame was popped (`t0`).
    pub origin_us: u64,
    /// A frame popped ahead of time, waiting for its timestamp.
    pub pending: Option<FrameData>,
    /// Timestamp of the last frame handed to rendering.
    pub last_rendered_ts: u64,
    /// Frames handed to rendering, each counted exactly once.
    pub frames_rendered: u64,
    /// Candidates replaced during drains, each counted exactly once.
    pub frames_dropped: u64,
    /// The short fixed sleep when the channel is empty.
    pub poll_interval_us: u64,
}

impl PlaybackScheduler {
    pub open spec fn wf(self) -> bool {
        &&& 1 <= self.poll_interval_us
        &&& self.phase is WaitingForFirstFrame ==> self.pending is None
        &&& (self.pending matches Some(p) ==> p.timestamp_us >= self.last_rendered_ts)
    }

    /// Everything still to be presented lies at or after what was already
    /// presented, with the set-aside frame first.
    pub open spec fn chan_ordered(self, frames: Seq<FrameData>) -> bool {
        &&& frames_at_or_after(frames, self.last_rendered_ts)
        &&& (self.pending matches Some(p) ==> frames_at_or_after(frames, p.timestamp_us))
    }

    pub fn new(poll_interval_us: u64) -> (s: PlaybackScheduler)
        requires
            1 <= poll_interval_us,
        ensures
            s.wf(),
            s == (PlaybackScheduler {
                phase: SchedulerPhase::WaitingForFirstFrame,
                origin_us: 0u64,
                pending: None::<FrameData>,
                last_rendered_ts: 0u64,
                frames_rendered: 0u64,
                frames_dropped: 0u64,
                poll_interval_us,
            }),
    {
        PlaybackScheduler {
            phase: SchedulerPhase::WaitingForFirstFrame,
            origin_us: 0,
            pending: None,
            last_rendered_ts: 0,
            frames_rendered: 0,
            frames_dropped: 0,
            poll_interval_us,
        }
    }

    /// Cancellation: an external signal stops playback directly. Not an
    /// error — a clean shutdown path.
    pub fn stop(&mut self)
        ensures
            *final(self) == (PlaybackScheduler { phase: SchedulerPhase::Stopped, ..*old(self) }),
    {
        self.phase = SchedulerPhase::Stopped;
    }

    /// One scheduling decision at reading `now_us`. `closed` says the
    /// producer has finished (no frame will ever be pushed again).
    ///
    /// Presented timestamps never decrease: a `Render` action carries a
    /// timestamp at or after every previously rendered one, the rendered
    /// counter increments exactly once per `Render`, and the dropped
    /// counter increments exactly once per candidate replaced in the drain.
    #[verifier::rlimit(100)]
    pub fn poll(&mut self, chan: &mut FrameBuffer, now_us: u64, closed: bool) -> (action:
        SchedulerAction)
        requires
            old(self).wf(),
            old(chan).wf(),
            ts_sorted(old(chan)@),
            old(self).chan_ordered(old(chan)@),
            old(self).phase is Playing ==> old(self).origin_us <= now_us,
            old(self).frames_dropped + old(chan)@.len() + 1 <= u64::MAX,
            old(self).frames_rendered < u64::MAX,
        ensures
            final(self).wf(),
            final(chan).wf(),
            final(chan).spec_capacity() == old(chan).spec_capacity(),
            ts_sorted(final(chan)@),
            final(self).chan_ordered(final(chan)@),
            final(self).poll_interval_us == old(self).poll_interval_us,
            action matches SchedulerAction::Render(f) ==> {
                &&& f.timestamp_us >= old(self).last_rendered_ts
                &&& final(self).last_rendered_ts == f.timestamp_us
                &&& final(self).frames_rendered == old(self).frames_rendered + 1
            },
            ({
                let s0 = *old(self);
                let q = old(chan)@;
                match s0.phase {
                    SchedulerPhase::Stopped => action is Finished && *final(self) == s0
                        && final(chan)@ == q,
                    SchedulerPhase::Draining => {
                        &&& action is Finished
                        &&& *final(self) == (PlaybackScheduler {
                            phase: SchedulerPhase::Stopped,
                            ..s0
                        })
                        &&& final(chan)@ == q
                    },
                    _ => {
                        if s0.phase is WaitingForFirstFrame && q.len() == 0 {
                            if closed {
                                &&& action is Finished
                                &&& *final(self) == (PlaybackScheduler {
                                    phase: SchedulerPhase::Draining,
                                    ..s0
                                })
                                &&& final(chan)@ == q
                            } else {
                                &&& action == SchedulerAction::Sleep(s0.poll_interval_us)
                                &&& *final(self) == s0
                                &&& final(chan)@ == q
                            }
                        } else {
                            let origin = if s0.phase is Playing {
                                s0.origin_us
                            } else {
                                now_us
                            };
                            let pt = (now_us - origin) as u64;
                            if s0.pending is Some && s0.pending->Some_0.timestamp_us > pt {
                                &&& action == SchedulerAction::Sleep(
                                    (s0.pending->Some_0.timestamp_us - pt) as u64,
                                )
                                &&& *final(self) == s0
                                &&& final(chan)@ == q
                            } else {
                                let pend_count: int = if s0.pending is Some {
                                    1int
                                } else {
                                    0int
                                };
                                let k = count_due(q, pt);
                                let total = pend_count + k;
                                if total > 0 {
                                    let cand = if k > 0 {
                                        q[k - 1]
                                    } else {
                                        s0.pending->Some_0
                                    };
                                    &&& action == SchedulerAction::Render(cand)
                                    &&& *final(self) == (PlaybackScheduler {
                                        phase: SchedulerPhase::Playing,
                                        origin_us: origin,
                                        pending: if k < q.len() {
                                            Some(q[k])
                                        } else {
                                            None::<FrameData>
                                        },
                                        last_rendered_ts: cand.timestamp_us,
                                        frames_rendered: (s0.frames_rendered + 1) as u64,
                                        frames_dropped: (s0.frames_dropped + total - 1) as u64,
                                        poll_interval_us: s0.poll_interval_us,
                                    })
                                    &&& final(chan)@ == q.skip(
                                        if k < q.len() {
                                            k + 1
                                        } else {
                                            k
                                        },
                                    )
                                } else {
                                    if q.len() > 0 {
                                        &&& action == SchedulerAction::Sleep(
                                            (q[0].timestamp_us - pt) as u64,
                                        )
                                        &&& *final(self) == (PlaybackScheduler {
                                            phase: SchedulerPhase::Playing,
                                            origin_us: origin,
                                            pending: Some(q[0]),
                                            ..s0
                                        })
                                        &&& final(chan)@ == q.drop_first()
                                    } else if closed {
                                        &&& action is Finished
                                        &&& *final(self) == (PlaybackScheduler {
                                            phase: SchedulerPhase::Draining,
                                            origin_us: origin,
                                            ..s0
                                        })
                                        &&& final(chan)@ == q
                                    } else {
                                        &&& action == SchedulerAction::Sleep(
                                            s0.poll_interval_us,
                                        )
                                        &&& *final(self) == (PlaybackScheduler {
                                            phase: SchedulerPhase::Playing,
                                            origin_us: origin,
                                            ..s0
                                        })
                                        &&& final(chan)@ == q
                                    }
                                }
                            }
                        }
                    },
                }
            }),
    {
        let ghost s0 = *old(self);
        let ghost q = chan@;
        match self.phase {
            SchedulerPhase::Stopped => {
                return SchedulerAction::Finished;
            },
            SchedulerPhase::Draining => {
                self.phase = SchedulerPhase::Stopped;
                return SchedulerAction::Finished;
            },
            _ => {},
        }
        if matches!(self.phase, SchedulerPhase::WaitingForFirstFrame) {
            if chan.is_empty() {
                if closed {
                    self.phase = SchedulerPhase::Draining;
                    return SchedulerAction::Finished;
                } else {
                    return SchedulerAction::Sleep(self.poll_interval_us);
                }
            }
            self.origin_us = now_us;
            self.phase = SchedulerPhase::Playing;
        }
        let pt = now_us - self.origin_us;
        let mut candidate: Option<FrameData> = None;
        let ghost pend_count: int = if s0.pending is Some {
            1int
        } else {
            0int
        };
        match self.pending.take() {
            Some(p) => {
                if p.timestamp_us > pt {
                    let delta = p.timestamp_us - pt;
                    self.pending = Some(p);
                    return SchedulerAction::Sleep(delta);
                }
                candidate = Some(p);
            },
            None => {},
        }
        let ghost init_cand = candidate;
        let ghost mut d: int = 0;
        let mut done = false;
        while !done
            invariant
                chan.wf(),
                chan.spec_capacity() == old(chan).spec_capacity(),
                0 <= d <= q.len(),
                chan@ == q.skip(d),
                ts_sorted(q),
                self.pending matches Some(p) ==> {
                    &&& done
                    &&& d >= 1
                    &&& p == q[d - 1]
                    &&& p.timestamp_us > pt
                },
                forall|i: int|
                    0 <= i < d - (if self.pending is Some {
                        1int
                    } else {
                        0int
                    }) ==> q[i].timestamp_us <= pt,
                ({
                    let du = d - (if self.pending is Some {
                        1int
                    } else {
                        0int
                    });
                    &&& (du > 0 ==> candidate == Some(q[du - 1]))
                    &&& (du == 0 ==> candidate == init_cand)
                    &&& (candidate is Some <==> pend_count + du > 0)
                    &&& self.frames_dropped == s0.frames_dropped + pend_count + du - (
                    if candidate is Some {
                        1int
                    } else {
                        0int
                    })
                }),
                done ==> (self.pending is Some || chan@.len() == 0),
                self.phase == SchedulerPhase::Playing,
                self.origin_us == if s0.phase is Playing {
                    s0.origin_us
                } else {
                    now_us
                },
                self.last_rendered_ts == s0.last_rendered_ts,
                self.frames_rendered == s0.frames_rendered,
                self.poll_interval_us == s0.poll_interval_us,
                pt == now_us - self.origin_us,
                pend_count == if s0.pending is Some {
                    1int
                } else {
                    0int
                },
                candidate matches Some(c) ==> c.timestamp_us <= pt,
                init_cand matches Some(c) ==> c == s0.pending->Some_0 && pend_count == 1,
                s0.frames_dropped + q.len() + 1 <= u64::MAX,
                s0.wf(),
                s0.chan_ordered(q),
            decreases q.len() - d, (if done {
                0int
            } else {
                1int
            }),
        {
            match chan.pop() {
                None => {
                    done = true;
                },
                Some(f) => {
                    proof {
                        assert(f == q[d]);
                        assert(chan@ =~= q.skip(d + 1));
                        d = d + 1;
                    }
                    if f.timestamp_us <= pt {
                        if candidate.is_some() {
                            self.frames_dropped = self.frames_dropped + 1;
                        }
                        candidate = Some(f);
                    } else {
                        self.pending = Some(f);
                        done = true;
                    }
                },
            }
        }
        proof {
            let du = d - (if self.pending is Some {
                1int
            } else {
                0int
            });
            if self.pending is Some {
                lemma_count_due_prefix(q, pt, du);
            } else {
                assert(chan@.len() == 0);
                assert(du == q.len());
                lemma_count_due_prefix(q, pt, du);
            }
        }
        match candidate {
            Some(c) => {
                self.frames_rendered = self.frames_rendered + 1;
                self.last_rendered_ts = c.timestamp_us;
                SchedulerAction::Render(c)
            },
            None => {
                match &self.pending {
                    Some(p) => SchedulerAction::Sleep(p.timestamp_us - pt),
                    None => {
                        if closed {
                            self.phase = SchedulerPhase::Draining;
                            SchedulerAction::Finished
                        } else {
                            SchedulerAction::Sleep(self.poll_interval_us)
                        }
                    },
                }
            },
        }
    }
}

} // verus!
