//! A decoded video frame: an owned RGB canvas tagged with its dimensions
//! and presentation timestamp.

use vstd::prelude::*;

verus! {

/// An owned canvas of `width * height * 3` RGB bytes, row-major, together
/// with the presentation timestamp (in microseconds) at which it should
/// become visible.
#[derive(Clone)]
pub struct FrameData {
    pub buffer: Vec<u8>,
    pub width: u32,
    pub height: u32,
    pub timestamp_us: u64,
}

impl FrameData {
    /// A canvas is well formed when its buffer holds exactly one RGB triple
    /// per pixel.
    pub open spec fn wf(self) -> bool {
        self.buffer@.len() == self.width * self.height * 3
    }

    pub fn new(buffer: Vec<u8>, width: u32, height: u32, timestamp_us: u64) -> (f: FrameData)
        ensures
            f.buffer == buffer,
            f.width == width,
            f.height == height,
            f.timestamp_us == timestamp_us,
    {
        FrameData { buffer, width, height, timestamp_us }
    }
}

} // verus!
