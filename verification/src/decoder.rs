//! The producer's per-frame transform: a decoded RGB frame of arbitrary
//! source dimensions becomes a fixed-size canvas stamped with its
//! presentation timestamp.
//!
//! Decoding itself (pulling native frames from a container) is I/O and lives
//! with the caller; everything after the decoded RGB bytes — scale selection,
//! resampling, letterbox/crop compositing, timestamping — happens here. Only
//! the resampling call is trusted; its output enters the contracts under the
//! name `resized_of`.

use crate::frame_data::FrameData;
use crate::geometry::compose_canvas;
use crate::scheduler::ts_sorted;
use crate::geometry::mul_u32;
use crate::geometry::scaled_dims;
use crate::geometry::spec_composed_byte;
use crate::geometry::spec_scaled_dims;
use vstd::arithmetic::mul::lemma_mul_inequality;
use vstd::prelude::*;

verus! {

/// The bytes that resampling a `src_w x src_h` RGB image to `dst_w x dst_h`
/// produces. The interpolation takes pages to state, but it is a function of
/// the pixel data and dimensions alone, so it only gets a name.
pub uninterp spec fn resized_of(
    src: Seq<u8>,
    src_w: int,
    src_h: int,
    dst_w: int,
    dst_h: int,
) -> Seq<u8>;

/// Relies on fast_image_resize's `Resizer::resize` over `U8x3` pixels with
/// default options: the destination image is allocated with exactly
/// `dst_w * dst_h * 3` bytes and filled by convolution from the source
/// pixels alone; `into_vec` hands back that buffer.
#[verifier::external_body]
fn resize_rgb(src: &Vec<u8>, src_w: u32, src_h: u32, dst_w: u32, dst_h: u32) -> (r: Vec<u8>)
    requires
        src@.len() == src_w * src_h * 3,
        1 <= src_w && 1 <= src_h && 1 <= dst_w && 1 <= dst_h,
        dst_w * dst_h * 3 <= usize::MAX,
    ensures
        r@ == resized_of(src@, src_w as int, src_h as int, dst_w as int, dst_h as int),
        r@.len() == dst_w * dst_h * 3,
{
    let src_image = fast_image_resize::images::Image::from_vec_u8(
        src_w,
        src_h,
        src.clone(),
        fast_image_resize::PixelType::U8x3,
    ).unwrap();
    let mut dst_image = fast_image_resize::images::Image::new(
        dst_w,
        dst_h,
        fast_image_resize::PixelType::U8x3,
    );
    let mut resizer = fast_image_resize::Resizer::new();
    resizer.resize(&src_image, &mut dst_image, None::<&fast_image_resize::ResizeOptions>).unwrap();
    dst_image.into_vec()
}

/// Turns decoded source frames into fixed-size, timestamped canvases.
pub struct Producer {
    /// Output canvas width in pixels.
    pub target_w: u32,
    /// Output canvas height in pixels.
    pub target_h: u32,
    /// Fill mode crops; letterbox mode pads.
    pub fill_mode: bool,
    /// Duration of one source frame in microseconds.
    pub frame_interval_us: u64,
    /// Index of the next frame to produce.
    pub frame_index: u64,
}

impl Producer {
    pub open spec fn wf(self) -> bool {
        &&& 1 <= self.target_w
        &&& 1 <= self.target_h
        &&& self.target_w * self.target_h * 3 <= usize::MAX
        &&& 1 <= self.frame_interval_us
    }

    /// The scaled dimensions this producer picks for a source frame.
    pub open spec fn spec_dims(self, src_w: int, src_h: int) -> (int, int) {
        spec_scaled_dims(src_w, src_h, self.target_w as int, self.target_h as int, self.fill_mode)
    }

    /// The canvas bytes this producer emits for a source frame.
    pub open spec fn spec_canvas_byte(self, src: Seq<u8>, src_w: int, src_h: int, i: int) -> u8 {
        let (nw, nh) = self.spec_dims(src_w, src_h);
        spec_composed_byte(
            resized_of(src, src_w, src_h, nw, nh),
            nw,
            nh,
            self.target_w as int,
            self.target_h as int,
            i,
        )
    }

    pub fn new(target_w: u32, target_h: u32, fill_mode: bool, frame_interval_us: u64) -> (p:
        Producer)
        requires
            1 <= target_w,
            1 <= target_h,
            target_w * target_h * 3 <= usize::MAX,
            1 <= frame_interval_us,
        ensures
            p.wf(),
            p == (Producer { target_w, target_h, fill_mode, frame_interval_us, frame_index: 0u64 }),
    {
        Producer { target_w, target_h, fill_mode, frame_interval_us, frame_index: 0 }
    }

    /// Transform one decoded RGB frame into the next canvas: pick the
    /// aspect-preserving scale, resample, letterbox or crop onto the fixed
    /// canvas, and stamp `timestamp = frame_index * frame_interval`.
    ///
    /// Returns `None` (leaving the producer unchanged) only when a scaled
    /// dimension, the intermediate image, or the timestamp would overflow
    /// the machine's integer limits.
    pub fn next_canvas(&mut self, rgb: &Vec<u8>, src_w: u32, src_h: u32) -> (frame: Option<
        FrameData>)
        requires
            old(self).wf(),
            1 <= src_w,
            1 <= src_h,
            rgb@.len() == src_w * src_h * 3,
            old(self).frame_index < u64::MAX,
        ensures
            final(self).wf(),
            ({
                let (nw, nh) = old(self).spec_dims(src_w as int, src_h as int);
                match frame {
                    Some(f) => {
                        &&& *final(self) == (Producer {
                            frame_index: (old(self).frame_index + 1) as u64,
                            ..*old(self)
                        })
                        &&& f.width == old(self).target_w
                        &&& f.height == old(self).target_h
                        &&& f.timestamp_us == old(self).frame_index * old(self).frame_interval_us
                        &&& f.wf()
                        &&& f.buffer@.len() == old(self).target_w * old(self).target_h * 3
                        &&& forall|i: int|
                            0 <= i < f.buffer@.len() ==> f.buffer@[i] == old(self).spec_canvas_byte(
                                rgb@,
                                src_w as int,
                                src_h as int,
                                i,
                            )
                    },
                    None => {
                        &&& *final(self) == *old(self)
                        &&& (nw > u32::MAX || nh > u32::MAX || nw * nh * 3 > usize::MAX
                            || old(self).frame_index * old(self).frame_interval_us > u64::MAX)
                    },
                }
            }),
    {
        let dims = scaled_dims(src_w, src_h, self.target_w, self.target_h, self.fill_mode);
        match dims {
            None => None,
            Some((nw, nh)) => {
                let area = mul_u32(nw, nh);
                proof {
                    assert((nw as int) * (nh as int) * 3 > usize::MAX ==> (nw as int) * (nh as int)
                        > (usize::MAX as int) / 3) by (nonlinear_arith);
                    assert((nw as int) * (nh as int) > (usize::MAX as int) / 3 ==> (nw as int) * (
                    nh as int) * 3 > usize::MAX) by (nonlinear_arith);
                }
                if area > (usize::MAX / 3) as u64 {
                    return None;
                }
                let resized = resize_rgb(rgb, src_w, src_h, nw, nh);
                let canvas = compose_canvas(&resized, nw, nh, self.target_w, self.target_h);
                match self.frame_index.checked_mul(self.frame_interval_us) {
                    None => None,
                    Some(ts) => {
                        let f = FrameData::new(canvas, self.target_w, self.target_h, ts);
                        self.frame_index = self.frame_index + 1;
                        Some(f)
                    },
                }
            },
        }
    }
}

/// Presentation timestamps are non-decreasing in the frame index: a later
/// frame never carries an earlier timestamp.
pub proof fn lemma_timestamps_monotonic(i: int, j: int, interval_us: int)
    requires
        0 <= i <= j,
        0 <= interval_us,
    ensures
        i * interval_us <= j * interval_us,
{
    lemma_mul_inequality(i, j, interval_us);
}

/// Any run of frames stamped `timestamp = index * interval`, indices
/// ascending from `base`, is sorted by timestamp: what the producer emits,
/// the scheduler may present in order.
pub proof fn lemma_produced_frames_sorted(frames: Seq<FrameData>, interval_us: u64, base: int)
    requires
        0 <= base,
        forall|k: int|
            0 <= k < frames.len() ==> (#[trigger] frames[k].timestamp_us) == (base + k)
                * interval_us,
    ensures
        ts_sorted(frames),
{
    assert forall|i: int, j: int| 0 <= i <= j < frames.len() implies frames[i].timestamp_us
        <= frames[j].timestamp_us by {
        lemma_mul_inequality(base + i, base + j, interval_us as int);
    }
}

} // verus!
