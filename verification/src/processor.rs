//! Pixel-to-cell conversion under the half-block encoding.
//!
//! A canvas of `width * height` RGB pixels becomes a grid of
//! `width * (height / 2)` cells; the cell at grid position `(cx, cy)` shows
//! the source pixel `(cx, 2*cy)` as its foreground color and `(cx, 2*cy+1)`
//! as its background color, both behind a single upper-half-block glyph.
//! Out-of-range reads (malformed input) yield black rather than failing.

use crate::cell::CellData;
use vstd::prelude::*;

verus! {

/// The RGB triple of source pixel `(x, y)`, or black when the byte range
/// falls outside the buffer.
pub open spec fn spec_pixel(data: Seq<u8>, w: int, x: int, y: int) -> (u8, u8, u8) {
    let base = (y * w + x) * 3;
    if base + 2 < data.len() {
        (data[base], data[base + 1], data[base + 2])
    } else {
        (0u8, 0u8, 0u8)
    }
}

/// The cell at flat grid index `idx` of a grid `w` cells wide over `data`.
pub open spec fn spec_cell(data: Seq<u8>, w: int, idx: int) -> CellData {
    let cx = idx % w;
    let cy = idx / w;
    CellData {
        char: '\u{2580}',
        fg: spec_pixel(data, w, cx, 2 * cy),
        bg: spec_pixel(data, w, cx, 2 * cy + 1),
    }
}

/// Converts fixed-size RGB canvases into cell grids.
pub struct FrameProcessor {
    pub width: usize,
    pub height: usize,
}

impl FrameProcessor {
    /// The canvas byte count fits in a `usize`, so offset arithmetic cannot
    /// overflow.
    pub open spec fn wf(self) -> bool {
        self.width * self.height * 3 <= usize::MAX
    }

    pub fn new(width: usize, height: usize) -> (p: FrameProcessor)
        requires
            width * height * 3 <= usize::MAX,
        ensures
            p.wf(),
            p.width == width,
            p.height == height,
    {
        FrameProcessor { width, height }
    }

    /// Number of cells in the output grid.
    pub open spec fn spec_cell_count(self) -> int {
        self.width * (self.height / 2)
    }

    /// The cell for flat grid index `idx`, read from `pixel_data`.
    pub fn cell_at(&self, pixel_data: &Vec<u8>, idx: usize) -> (c: CellData)
        requires
            self.wf(),
            idx < self.spec_cell_count(),
        ensures
            c == spec_cell(pixel_data@, self.width as int, idx as int),
    {
        let w = self.width;
        let th = self.height / 2;
        proof {
            assert((idx as int) / (w as int) < (th as int) && (idx as int) % (w as int) < (
            w as int)) by (nonlinear_arith)
                requires
                    0 <= idx < w * th,
                    0 < w,
            ;
        }
        let cx = idx % w;
        let cy = idx / w;
        let top = pixel_at(pixel_data, w, self.height, cx, 2 * cy);
        let bot = pixel_at(pixel_data, w, self.height, cx, 2 * cy + 1);
        CellData { char: '\u{2580}', fg: top, bg: bot }
    }

    /// Write the cell grid for `pixel_data` into `cells`.
    ///
    /// A destination of the wrong length is a malformed input: nothing is
    /// written (the caller violated the grid-size invariant, and refusing is
    /// safer than reading out of bounds).
    pub fn process_frame_into(&self, pixel_data: &Vec<u8>, cells: &mut Vec<CellData>)
        requires
            self.wf(),
        ensures
            old(cells)@.len() != self.spec_cell_count() ==> final(cells)@ == old(cells)@,
            old(cells)@.len() == self.spec_cell_count() ==> {
                &&& final(cells)@.len() == self.spec_cell_count()
                &&& forall|i: int|
                    0 <= i < final(cells)@.len() ==> final(cells)@[i] == spec_cell(
                        pixel_data@,
                        self.width as int,
                        i,
                    )
            },
    {
        let w = self.width;
        let th = self.height / 2;
        proof {
            assert(w * th <= w * (self.height as int) <= self.width * self.height * 3)
                by (nonlinear_arith)
                requires
                    0 <= w == self.width,
                    0 <= th <= self.height as int,
            ;
        }
        let total = w * th;
        if cells.len() != total {
            return;
        }
        let mut idx: usize = 0;
        while idx < total
            invariant
                self.wf(),
                w == self.width,
                th == self.height / 2,
                total == w * th,
                idx <= total,
                cells@.len() == total,
                forall|j: int|
                    0 <= j < idx ==> cells@[j] == spec_cell(pixel_data@, w as int, j),
            decreases total - idx,
        {
            let c = self.cell_at(pixel_data, idx);
            cells.set(idx, c);
            idx = idx + 1;
        }
    }

    /// The cell grid for `pixel_data`, freshly allocated.
    pub fn process_frame(&self, pixel_data: &Vec<u8>) -> (cells: Vec<CellData>)
        requires
            self.wf(),
        ensures
            cells@.len() == self.spec_cell_count(),
            forall|i: int|
                0 <= i < cells@.len() ==> cells@[i] == spec_cell(
                    pixel_data@,
                    self.width as int,
                    i,
                ),
    {
        let w = self.width;
        let th = self.height / 2;
        proof {
            assert(w * th <= w * (self.height as int) <= self.width * self.height * 3)
                by (nonlinear_arith)
                requires
                    0 <= w == self.width,
                    0 <= th <= self.height as int,
            ;
        }
        let total = w * th;
        let mut cells: Vec<CellData> = Vec::new();
        while cells.len() < total
            invariant
                cells@.len() <= total,
            decreases total - cells@.len(),
        {
            cells.push(CellData::default());
        }
        self.process_frame_into(pixel_data, &mut cells);
        cells
    }
}

/// The RGB triple of source pixel `(x, y)`, or black when out of range.
fn pixel_at(data: &Vec<u8>, w: usize, h: usize, x: usize, y: usize) -> (p: (u8, u8, u8))
    requires
        x < w,
        y < h,
        w * h * 3 <= usize::MAX,
    ensures
        p == spec_pixel(data@, w as int, x as int, y as int),
{
    proof {
        assert((y * w + x) * 3 + 2 < w * h * 3) by (nonlinear_arith)
            requires
                0 <= x < w,
                0 <= y < h,
        ;
    }
    let base = (y * w + x) * 3;
    if base + 2 < data.len() {
        (data[base], data[base + 1], data[base + 2])
    } else {
        (0, 0, 0)
    }
}

/// Chunk size for splitting a grid of `cell_count` cells over `workers`
/// parallel workers: a fixed 2000 cells for large grids, otherwise an even
/// split with at least one cell per chunk.
pub open spec fn spec_chunk_size(cell_count: int, workers: int) -> int {
    if cell_count > 10000 {
        2000
    } else {
        let w = if workers >= 1 {
            workers
        } else {
            1
        };
        let q = cell_count / w;
        if q >= 1 {
            q
        } else {
            1
        }
    }
}

/// Chunk size for splitting a grid of `cell_count` cells over `workers`
/// parallel workers.
pub fn chunk_size(cell_count: usize, workers: usize) -> (n: usize)
    ensures
        n == spec_chunk_size(cell_count as int, workers as int),
        n >= 1,
{
    if cell_count > 10000 {
        2000
    } else {
        let w = if workers >= 1 {
            workers
        } else {
            1
        };
        let q = cell_count / w;
        if q >= 1 {
            q
        } else {
            1
        }
    }
}

} // verus!
