//! Bounded frame channel: a fixed-capacity FIFO of decoded frames that
//! decouples decode latency from render cadence.
//!
//! The queue itself is crossbeam's `ArrayQueue`; its behaviour enters the
//! proofs only through the contracts of the trusted wrappers below, stated
//! over the queue's contents and fixed capacity.

use crate::frame_data::FrameData;
use crossbeam::queue::ArrayQueue;
use vstd::prelude::*;

verus! {

#[verifier::external_type_specification]
#[verifier::external_body]
#[verifier::reject_recursive_types(T)]
pub struct ExArrayQueue<T>(ArrayQueue<T>);

/// The frames currently in the queue, oldest first.
pub uninterp spec fn queue_frames(q: ArrayQueue<FrameData>) -> Seq<FrameData>;

/// The fixed capacity the queue was created with.
pub uninterp spec fn queue_capacity(q: ArrayQueue<FrameData>) -> nat;

/// Relies on crossbeam's `ArrayQueue::new`: creates an empty bounded queue
/// with the given capacity. It panics on zero or absurdly large capacities,
/// which the precondition excludes.
#[verifier::external_body]
fn queue_new(capacity: usize) -> (q: ArrayQueue<FrameData>)
    requires
        1 <= capacity <= 0x1000_0000,
    ensures
        queue_capacity(q) == capacity,
        queue_frames(q) == Seq::<FrameData>::empty(),
{
    ArrayQueue::new(capacity)
}

/// Relies on crossbeam's `ArrayQueue::push`: appends at the tail when there
/// is room, or hands the value back when the queue is full.
#[verifier::external_body]
fn queue_push(q: &mut ArrayQueue<FrameData>, frame: FrameData) -> (rejected: Option<FrameData>)
    ensures
        queue_capacity(*final(q)) == queue_capacity(*old(q)),
        queue_frames(*old(q)).len() < queue_capacity(*old(q)) ==> {
            &&& rejected is None
            &&& queue_frames(*final(q)) == queue_frames(*old(q)).push(frame)
        },
        queue_frames(*old(q)).len() >= queue_capacity(*old(q)) ==> {
            &&& rejected == Some(frame)
            &&& queue_frames(*final(q)) == queue_frames(*old(q))
        },
{
    match q.push(frame) {
        Ok(()) => None,
        Err(f) => Some(f),
    }
}

/// Relies on crossbeam's `ArrayQueue::pop`: removes and returns the oldest
/// element, or returns `None` when the queue is empty.
#[verifier::external_body]
fn queue_pop(q: &mut ArrayQueue<FrameData>) -> (popped: Option<FrameData>)
    ensures
        queue_capacity(*final(q)) == queue_capacity(*old(q)),
        queue_frames(*old(q)).len() == 0 ==> {
            &&& popped is None
            &&& queue_frames(*final(q)) == queue_frames(*old(q))
        },
        queue_frames(*old(q)).len() > 0 ==> {
            &&& popped == Some(queue_frames(*old(q))[0])
            &&& queue_frames(*final(q)) == queue_frames(*old(q)).drop_first()
        },
{
    q.pop()
}

/// Relies on crossbeam's `ArrayQueue::len`: the number of elements held.
#[verifier::external_body]
fn queue_len(q: &ArrayQueue<FrameData>) -> (n: usize)
    ensures
        n == queue_frames(*q).len(),
{
    q.len()
}

/// A bounded single-producer/single-consumer channel of frames.
///
/// `try_push` and `pop` never block: a full channel hands the frame back
/// (backpressure is the producer's retry loop), an empty channel is a normal
/// state the scheduler handles.
pub struct FrameBuffer {
    queue: ArrayQueue<FrameData>,
    capacity: usize,
}

impl View for FrameBuffer {
    type V = Seq<FrameData>;

    closed spec fn view(&self) -> Seq<FrameData> {
        queue_frames(self.queue)
    }
}

impl FrameBuffer {
    pub closed spec fn wf(self) -> bool {
        &&& queue_capacity(self.queue) == self.capacity
        &&& 1 <= self.capacity <= 0x1000_0000
        &&& queue_frames(self.queue).len() <= self.capacity
    }

    pub closed spec fn spec_capacity(self) -> int {
        self.capacity as int
    }

    /// Create a channel that holds at most `capacity` frames.
    pub fn new(capacity: usize) -> (b: FrameBuffer)
        requires
            1 <= capacity <= 0x1000_0000,
        ensures
            b.wf(),
            b.spec_capacity() == capacity,
            b@ == Seq::<FrameData>::empty(),
    {
        FrameBuffer { queue: queue_new(capacity), capacity }
    }

    /// Append a frame unless the channel is full; a full channel hands the
    /// frame back so the producer can retry.
    pub fn try_push(&mut self, frame: FrameData) -> (rejected: Option<FrameData>)
        requires
            old(self).wf(),
        ensures
            final(self).wf(),
            final(self).spec_capacity() == old(self).spec_capacity(),
            old(self)@.len() < old(self).spec_capacity() ==> {
                &&& rejected is None
                &&& final(self)@ == old(self)@.push(frame)
            },
            old(self)@.len() >= old(self).spec_capacity() ==> {
                &&& rejected == Some(frame)
                &&& final(self)@ == old(self)@
            },
    {
        queue_push(&mut self.queue, frame)
    }

    /// Append a frame, reporting only success; a rejected frame is dropped.
    pub fn push(&mut self, frame: FrameData) -> (ok: bool)
        requires
            old(self).wf(),
        ensures
            final(self).wf(),
            final(self).spec_capacity() == old(self).spec_capacity(),
            ok == (old(self)@.len() < old(self).spec_capacity()),
            ok ==> final(self)@ == old(self)@.push(frame),
            !ok ==> final(self)@ == old(self)@,
    {
        let rejected = self.try_push(frame);
        rejected.is_none()
    }

    /// Remove and return the oldest frame, or `None` when empty.
    pub fn pop(&mut self) -> (popped: Option<FrameData>)
        requires
            old(self).wf(),
        ensures
            final(self).wf(),
            final(self).spec_capacity() == old(self).spec_capacity(),
            old(self)@.len() == 0 ==> popped is None && final(self)@ == old(self)@,
            old(self)@.len() > 0 ==> {
                &&& popped == Some(old(self)@[0])
                &&& final(self)@ == old(self)@.drop_first()
            },
    {
        queue_pop(&mut self.queue)
    }

    /// The number of frames currently buffered.
    pub fn len(&self) -> (n: usize)
        ensures
            n == self@.len(),
    {
        queue_len(&self.queue)
    }

    /// Whether the channel is empty.
    pub fn is_empty(&self) -> (e: bool)
        ensures
            e == (self@.len() == 0),
    {
        self.len() == 0
    }

    /// The fixed capacity.
    pub fn capacity(&self) -> (c: usize)
        ensures
            c == self.spec_capacity(),
    {
        self.capacity
    }

    /// Buffer fill level as a percentage, for diagnostics only.
    pub fn fill_level_percent(&self) -> (p: u64)
        requires
            self.wf(),
        ensures
            p == (self@.len() as int) * 100 / self.spec_capacity(),
    {
        let n = self.len();
        (n as u64) * 100 / (self.capacity as u64)
    }
}

} // verus!
