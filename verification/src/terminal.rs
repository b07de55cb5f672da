//! Terminal size normalization.
//!
//! Some terminals report their size in pixels rather than character cells.
//! When the per-character cell size is known, a report absurdly large for a
//! character count (more than sixteen times the cell width, or eight times
//! the cell height) is taken for pixels and divided down, with a floor of
//! one cell.

use vstd::prelude::*;

verus! {

/// The column count a raw report stands for, given the character cell
/// width when known.
pub open spec fn spec_normalized_cols(cols: int, char_w: Option<u16>) -> int {
    match char_w {
        Some(cw) => if cw > 0 && cols > cw * 16 {
            if cols / (cw as int) >= 1 {
                cols / (cw as int)
            } else {
                1int
            }
        } else {
            cols
        },
        None => cols,
    }
}

/// The row count a raw report stands for, given the character cell height
/// when known.
pub open spec fn spec_normalized_rows(rows: int, char_h: Option<u16>) -> int {
    match char_h {
        Some(ch) => if ch > 0 && rows > ch * 8 {
            if rows / (ch as int) >= 1 {
                rows / (ch as int)
            } else {
                1int
            }
        } else {
            rows
        },
        None => rows,
    }
}

/// Convert a raw terminal size report to character columns and rows. The
/// cell size applies only when both dimensions of it are known, as when
/// both come from one configuration source.
pub fn normalize_terminal_size(cols: u16, rows: u16, char_w: Option<u16>, char_h: Option<u16>)
    -> (size: (u16, u16))
    ensures
        char_w is Some && char_h is Some ==> {
            &&& size.0 == spec_normalized_cols(cols as int, char_w)
            &&& size.1 == spec_normalized_rows(rows as int, char_h)
        },
        !(char_w is Some && char_h is Some) ==> size == (cols, rows),
{
    let (cw, ch) = match (char_w, char_h) {
        (Some(cw), Some(ch)) => (cw, ch),
        _ => {
            return (cols, rows);
        },
    };
    let mut out_cols = cols;
    let mut out_rows = rows;
    if cw > 0 && cw <= 4095 && cols > cw * 16 {
        let q = cols / cw;
        out_cols = if q >= 1 {
            q
        } else {
            1
        };
    }
    if ch > 0 && ch <= 8191 && rows > ch * 8 {
        let q = rows / ch;
        out_rows = if q >= 1 {
            q
        } else {
            1
        };
    }
    (out_cols, out_rows)
}

} // verus!
