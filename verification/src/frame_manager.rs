//! Storage for pre-extracted one-bit video frames.
//!
//! A frame file holds a header (width, height, frame count) followed by an
//! LZ4-compressed body of packed frames, one bit per pixel, most significant
//! bit first. `load_frames` parses and decompresses the body into per-frame
//! packed buffers; `get_frame` expands one packed frame into the renderer's
//! format: a four-byte header and one RGB triple per pixel, white for a set
//! bit, black for a clear one.

use vstd::prelude::*;

verus! {

/// Why a frame file was rejected.
#[derive(Clone, Copy, PartialEq, Eq, Structural, Debug)]
pub enum FrameStoreError {
    /// The decompressed body is shorter than the header promises.
    Corrupt,
    /// The declared dimensions or frame count exceed the machine's limits.
    TooLarge,
    /// The LZ4 body could not be decompressed.
    DecodeFailed,
}

/// The bytes that LZ4 block decompression yields from `src` when told to
/// expect `size` bytes. A function of the arguments alone.
pub uninterp spec fn lz4_block_decoded(src: Seq<u8>, size: int) -> Seq<u8>;

/// Whether LZ4 block decompression of `src` with expected size `size`
/// succeeds. Like the decoded bytes, a function of the arguments alone.
pub uninterp spec fn lz4_block_decodes(src: Seq<u8>, size: int) -> bool;

/// Relies on lz4's `block::decompress` with an explicit size: it fills a
/// `size`-byte buffer from `src` and truncates it to the decoded length, or
/// fails on malformed input. Both the success and the bytes are functions
/// of the input and the expected size alone.
#[verifier::external_body]
fn lz4_decompress(src: &Vec<u8>, skip: usize, size: usize) -> (r: Option<Vec<u8>>)
    requires
        skip <= src@.len(),
        size <= i32::MAX,
    ensures
        r is Some <==> lz4_block_decodes(src@.skip(skip as int), size as int),
        r matches Some(v) ==> {
            &&& v@ == lz4_block_decoded(src@.skip(skip as int), size as int)
            &&& v@.len() <= size
        },
{
    lz4::block::decompress(&src[skip..], Some(size as i32)).ok()
}

/// A 16-bit little-endian value read from two bytes.
pub open spec fn le16(b0: u8, b1: u8) -> int {
    b0 + 256 * b1
}

/// A 32-bit little-endian value read from four bytes.
pub open spec fn le32(b0: u8, b1: u8, b2: u8, b3: u8) -> int {
    b0 + 256 * b1 + 65536 * b2 + 16777216 * b3
}

/// Bit `k` (most significant first) of a packed buffer, as 255 or 0.
pub open spec fn spec_bit_value(packed: Seq<u8>, k: int) -> u8 {
    if (packed[k / 8] >> (7 - k % 8) as u8) & 1 == 1 {
        255u8
    } else {
        0u8
    }
}

/// The expanded frame for a packed buffer: a four-byte little-endian
/// width/height header, then each pixel's bit as a grey RGB triple.
pub open spec fn spec_expanded(packed: Seq<u8>, w: int, h: int) -> Seq<u8> {
    let ppf = w * (h * 2);
    Seq::new(
        (4 + ppf * 3) as nat,
        |i: int|
            if i == 0 {
                (w % 256) as u8
            } else if i == 1 {
                (w / 256) as u8
            } else if i == 2 {
                (h % 256) as u8
            } else if i == 3 {
                (h / 256) as u8
            } else {
                spec_bit_value(packed, (i - 4) / 3)
            },
    )
}

/// Holds the packed frames of one loaded video.
pub struct FrameManager {
    /// Source width in pixels (of the packed grid's columns).
    width: usize,
    /// Source height in terminal rows; the pixel grid is twice as tall.
    height: usize,
    /// One packed buffer per frame, one bit per pixel.
    packed_frames: Vec<Vec<u8>>,
}

impl FrameManager {
    /// Dimensions fit the header format, every packed frame has exactly the
    /// packed size, and an expanded frame fits in memory.
    pub closed spec fn wf(self) -> bool {
        &&& self.width <= 65535
        &&& self.height <= 65535
        &&& 4 + self.width * (self.height * 2) * 3 <= usize::MAX
        &&& forall|i: int|
            0 <= i < self.packed_frames@.len() ==> (#[trigger] self.packed_frames@[i])@.len() == (
            self.width * (self.height * 2) + 7) / 8
    }

    pub closed spec fn spec_width(self) -> int {
        self.width as int
    }

    pub closed spec fn spec_height(self) -> int {
        self.height as int
    }

    pub closed spec fn spec_frames(self) -> Seq<Seq<u8>> {
        Seq::new(self.packed_frames@.len(), |i: int| self.packed_frames@[i]@)
    }

    pub fn new() -> (m: FrameManager)
        ensures
            m.wf(),
            m.spec_frames() == Seq::<Seq<u8>>::empty(),
            m.spec_width() == 0,
            m.spec_height() == 0,
    {
        let m = FrameManager { width: 0, height: 0, packed_frames: Vec::new() };
        proof {
            assert(m.spec_frames() =~= Seq::<Seq<u8>>::empty());
        }
        m
    }

    /// The number of frames loaded.
    pub fn frame_count(&self) -> (n: usize)
        ensures
            n == self.spec_frames().len(),
    {
        self.packed_frames.len()
    }

    /// Parse a frame file: an eight-byte header (width, height as 16-bit
    /// little-endian, frame count as 32-bit little-endian), then the
    /// LZ4-compressed packed frames. A successful load replaces any frames
    /// already held and returns the loaded frame count.
    ///
    /// A file shorter than its header loads zero frames, as an empty file
    /// does. Otherwise the outcome is exact: declared sizes beyond the
    /// machine's limits are `TooLarge`; a body the decoder rejects is
    /// `DecodeFailed`; a decoded body shorter than the header promises is
    /// `Corrupt`; everything else loads and is owed `Ok`.
    pub fn load_frames(&mut self, data: &Vec<u8>) -> (r: Result<usize, FrameStoreError>)
        requires
            old(self).wf(),
        ensures
            final(self).wf(),
            r matches Err(_) ==> *final(self) == *old(self),
            data@.len() < 8 ==> (r matches Ok(n) && n == old(self).spec_frames().len())
                && *final(self) == *old(self),
            ({
                let w = le16(data@[0], data@[1]);
                let h = le16(data@[2], data@[3]);
                let count = le32(data@[4], data@[5], data@[6], data@[7]);
                let ppf = w * (h * 2);
                let pfs = (ppf + 7) / 8;
                let size = pfs * count;
                let too_large = size > 0x7FFF_FFFF || size > usize::MAX || ppf * 3 + 4
                    > usize::MAX;
                let decodes = lz4_block_decodes(data@.skip(8), size);
                let body = lz4_block_decoded(data@.skip(8), size);
                data@.len() >= 8 ==> {
                    &&& (r == Err::<usize, FrameStoreError>(FrameStoreError::TooLarge)
                        <==> too_large)
                    &&& !too_large ==> (r == Err::<usize, FrameStoreError>(
                        FrameStoreError::DecodeFailed,
                    ) <==> !decodes)
                    &&& !too_large && decodes ==> (r == Err::<usize, FrameStoreError>(
                        FrameStoreError::Corrupt,
                    ) <==> body.len() < size)
                    &&& !too_large && decodes && body.len() >= size ==> (r matches Ok(n) && {
                        &&& n == count
                        &&& final(self).spec_width() == w
                        &&& final(self).spec_height() == h
                        &&& final(self).spec_frames().len() == count
                        &&& forall|i: int|
                            0 <= i < count ==> #[trigger] final(self).spec_frames()[i]
                                == body.subrange(i * pfs, (i + 1) * pfs)
                    })
                }
            }),
    {
        if data.len() < 8 {
            return Ok(self.packed_frames.len());
        }
        let w: u64 = (data[0] as u64) + 256 * (data[1] as u64);
        let h: u64 = (data[2] as u64) + 256 * (data[3] as u64);
        let count: u64 = (data[4] as u64) + 256 * (data[5] as u64) + 65536 * (data[6] as u64)
            + 16777216 * (data[7] as u64);
        proof {
            assert(w * (h * 2) <= 0xFFFFu64 * 0x1FFFEu64) by (nonlinear_arith)
                requires
                    0 <= w <= 0xFFFF,
                    0 <= h <= 0xFFFF,
            ;
        }
        let ppf: u64 = w * (h * 2);
        let pfs: u64 = (ppf + 7) / 8;
        proof {
            assert(pfs * count <= 0x40000000u64 * 0x100000000u64 && ppf * 3 + 4 < 0x800000000u64)
                by (nonlinear_arith)
                requires
                    0 <= ppf <= 0xFFFFu64 * 0x1FFFEu64,
                    0 <= count <= 0xFFFF_FFFFu64,
                    pfs == (ppf + 7) / 8,
            ;
        }
        let total: u64 = pfs * count;
        if total > 0x7FFF_FFFF || (usize::MAX as u64) < total || (usize::MAX as u64) < ppf * 3 + 4 {
            return Err(FrameStoreError::TooLarge);
        }
        let body = match lz4_decompress(data, 8, total as usize) {
            Some(b) => b,
            None => {
                return Err(FrameStoreError::DecodeFailed);
            },
        };
        if body.len() < total as usize {
            return Err(FrameStoreError::Corrupt);
        }
        let pfs_us = pfs as usize;
        let count_us = count as usize;
        self.width = w as usize;
        self.height = h as usize;
        self.packed_frames = Vec::new();
        let mut i: usize = 0;
        while i < count_us
            invariant
                self.width == w && self.height == h,
                w <= 0xFFFF && h <= 0xFFFF,
                4 + self.width * (self.height * 2) * 3 <= usize::MAX,
                pfs_us == (self.width * (self.height * 2) + 7) / 8,
                i <= count_us,
                body@.len() >= pfs_us * count_us,
                pfs_us * count_us <= usize::MAX,
                self.packed_frames@.len() == i,
                forall|j: int|
                    0 <= j < i ==> (#[trigger] self.packed_frames@[j])@ == body@.subrange(
                        j * pfs_us,
                        (j + 1) * pfs_us,
                    ) && (#[trigger] self.packed_frames@[j])@.len() == pfs_us,
            decreases count_us - i,
        {
            proof {
                assert((i + 1) * pfs_us <= count_us * pfs_us && i * pfs_us + pfs_us == (i + 1)
                    * pfs_us && count_us * pfs_us == pfs_us * count_us) by (nonlinear_arith)
                    requires
                        0 <= i < count_us,
                        0 <= pfs_us,
                ;
            }
            let frame = copy_range(&body, i * pfs_us, pfs_us);
            self.packed_frames.push(frame);
            i = i + 1;
        }
        proof {
            assert(forall|j: int|
                0 <= j < count_us ==> #[trigger] self.spec_frames()[j] == self.packed_frames@[j]@);
        }
        Ok(self.packed_frames.len())
    }

    /// Expand frame `index` to the renderer's format, or `None` when the
    /// index is out of range.
    pub fn get_frame(&self, index: usize) -> (r: Option<Vec<u8>>)
        requires
            self.wf(),
        ensures
            index >= self.spec_frames().len() ==> r is None,
            index < self.spec_frames().len() ==> (r matches Some(v) && v@ == spec_expanded(
                self.spec_frames()[index as int],
                self.spec_width(),
                self.spec_height(),
            )),
    {
        if index >= self.packed_frames.len() {
            return None;
        }
        let packed = &self.packed_frames[index];
        let ppf: usize = self.width * (self.height * 2);
        let ghost target = spec_expanded(packed@, self.width as int, self.height as int);
        let mut out: Vec<u8> = Vec::new();
        out.push((self.width % 256) as u8);
        out.push((self.width / 256) as u8);
        out.push((self.height % 256) as u8);
        out.push((self.height / 256) as u8);
        proof {
            assert(forall|j: int| 0 <= j < 4 ==> out@[j] == target[j]);
        }
        let mut k: usize = 0;
        while k < ppf
            invariant
                k <= ppf,
                ppf == self.width * (self.height * 2),
                4 + ppf * 3 <= usize::MAX,
                packed@.len() == (ppf + 7) / 8,
                out@.len() == 4 + k * 3,
                target == spec_expanded(packed@, self.spec_width(), self.spec_height()),
                target.len() == 4 + ppf * 3,
                forall|j: int| 0 <= j < out@.len() ==> out@[j] == target[j],
            decreases ppf - k,
        {
            let byte_pos = k / 8;
            let bit_pos: u8 = 7 - (k % 8) as u8;
            proof {
                assert(byte_pos < packed@.len());
            }
            let val: u8 = if (packed[byte_pos] >> bit_pos) & 1 == 1 {
                255
            } else {
                0
            };
            out.push(val);
            out.push(val);
            out.push(val);
            proof {
                assert(val == spec_bit_value(packed@, k as int));
                assert forall|j: int| 4 + k * 3 <= j < 4 + (k + 1) * 3 implies out@[j] == target[j]
                by {
                    assert((j - 4) / 3 == k as int) by (nonlinear_arith)
                        requires
                            4 + (k as int) * 3 <= j < 4 + (k as int + 1) * 3,
                    ;
                }
            }
            k = k + 1;
        }
        proof {
            assert(out@ =~= target);
        }
        Some(out)
    }
}

/// A copy of `len` bytes of `src` starting at `start`.
fn copy_range(src: &Vec<u8>, start: usize, len: usize) -> (r: Vec<u8>)
    requires
        start + len <= src@.len(),
    ensures
        r@ == src@.subrange(start as int, start as int + len),
{
    let n = src.len();
    let mut r: Vec<u8> = Vec::new();
    let mut i: usize = 0;
    while i < len
        invariant
            i <= len,
            start + len <= n,
            n == src@.len(),
            r@.len() == i,
            forall|j: int| 0 <= j < i ==> r@[j] == src@[start + j],
        decreases len - i,
    {
        r.push(src[start + i]);
        i = i + 1;
    }
    proof {
        assert(r@ =~= src@.subrange(start as int, start as int + len));
    }
    r
}

} // verus!
