//! Terminal cell data: a glyph plus true-color foreground and background.

use vstd::prelude::*;

verus! {

/// A 24-bit RGB color.
#[derive(Clone, Copy, PartialEq, Eq, Structural, Debug)]
pub struct RgbColor(pub u8, pub u8, pub u8);

/// One character cell of the terminal grid.
///
/// Under half-block rendering a cell shows two vertically stacked source
/// pixels: the top pixel as the foreground color, the bottom as the
/// background color of a single glyph.
#[derive(Clone, Copy, Eq, Debug)]
pub struct CellData {
    pub char: char,
    pub fg: (u8, u8, u8),
    pub bg: (u8, u8, u8),
}

impl PartialEq for CellData {
    fn eq(&self, o: &CellData) -> (r: bool) {
        self.char == o.char && self.fg.0 == o.fg.0 && self.fg.1 == o.fg.1
            && self.fg.2 == o.fg.2 && self.bg.0 == o.bg.0 && self.bg.1 == o.bg.1
            && self.bg.2 == o.bg.2
    }
}

impl vstd::std_specs::cmp::PartialEqSpecImpl for CellData {
    open spec fn obeys_eq_spec() -> bool {
        true
    }

    open spec fn eq_spec(&self, o: &CellData) -> bool {
        *self == *o
    }
}

impl Default for CellData {
    /// The blank cell: a space over black on black.
    fn default() -> (c: CellData)
        ensures
            c == CellData::black(),
    {
        CellData { char: ' ', fg: (0, 0, 0), bg: (0, 0, 0) }
    }
}

impl CellData {
    /// The cell that an out-of-range source pixel yields.
    pub open spec fn black() -> CellData {
        CellData { char: ' ', fg: (0u8, 0u8, 0u8), bg: (0u8, 0u8, 0u8) }
    }
}

} // verus!
