//! Diff-based terminal renderer.
//!
//! `render_diff` compares an incoming cell grid against the previously
//! painted one and emits exactly the terminal control bytes needed to turn
//! the old picture into the new one: an absolute cursor move only where the
//! raster-order walk skipped an unchanged or clipped cell, a color sequence
//! only where the color differs from the one last emitted, and the glyph
//! bytes themselves. The whole frame is bracketed by synchronized-update
//! markers so a partially transmitted frame is never visible.
//!
//! The emitted byte stream is specified exactly, byte for byte, by a fold
//! over the cell grid (`spec_render_bytes`); writing the bytes to the
//! terminal is the caller's job.

use crate::cell::CellData;
use vstd::arithmetic::div_mod::lemma_breakdown;
use vstd::arithmetic::div_mod::lemma_div_is_ordered;
use vstd::prelude::*;

verus! {

/// The decimal digits of `n`, most significant first, as ASCII bytes.
pub open spec fn spec_digits(n: int) -> Seq<u8>
    decreases n,
{
    if n < 10 {
        seq![(48 + if n >= 0 {
            n
        } else {
            0int
        }) as u8]
    } else {
        spec_digits(n / 10).push((48 + n % 10) as u8)
    }
}

/// The middle digit identity: reducing modulo `p*10` then dividing by `p`
/// extracts the same digit as dividing by `p` then reducing modulo ten.
proof fn lemma_digit_split(n: int, p: int)
    requires
        0 <= n,
        1 <= p,
    ensures
        (n % (p * 10)) / p == (n / p) % 10,
        (n % (p * 10)) % p == n % p,
{
    lemma_breakdown(n, p, 10);
    assert((p * ((n / p) % 10) + n % p) / p == (n / p) % 10 && (p * ((n / p) % 10) + n % p) % p == n
        % p) by (nonlinear_arith)
        requires
            0 <= n % p < p,
            1 <= p,
            0 <= (n / p) % 10,
    ;
}

/// Renders the full-color and the monochrome cell encodings.
#[derive(Clone, Copy, PartialEq, Eq, Structural, Debug)]
pub enum DisplayMode {
    /// Brightness-mapped ASCII glyphs, no color.
    Ascii,
    /// True-color half blocks.
    Rgb,
}

pub struct DisplayManager {
    /// Render mode, fixed at construction.
    pub mode: DisplayMode,
    /// The last grid painted, absent until the first frame arrives.
    pub last_cells: Option<Vec<CellData>>,
}

impl DisplayManager {
    /// Append the decimal digits of `n` (no leading zeros).
    pub fn write_u8_fast(buffer: &mut Vec<u8>, n: u8)
        ensures
            final(buffer)@ == old(buffer)@ + spec_digits(n as int),
    {
        let ghost orig = buffer@;
        if n >= 100 {
            buffer.push(48 + n / 100);
            let m = n % 100;
            buffer.push(48 + m / 10);
            buffer.push(48 + m % 10);
            proof {
                lemma_digit_split(n as int, 10);
                assert(n as int / 10 / 10 == n as int / 100 && (n as int / 100) < 10)
                    by (nonlinear_arith)
                    requires
                        100 <= (n as int) && (n as int) < 256,
                ;
                assert(spec_digits(n as int / 10) == spec_digits(n as int / 100).push(
                    (48 + (n as int / 10) % 10) as u8,
                ));
                assert(buffer@ =~= orig + spec_digits(n as int));
            }
        } else if n >= 10 {
            buffer.push(48 + n / 10);
            buffer.push(48 + n % 10);
            proof {
                assert(spec_digits(n as int / 10) =~= seq![(48 + n as int / 10) as u8]);
                assert(buffer@ =~= orig + spec_digits(n as int));
            }
        } else {
            buffer.push(48 + n);
            proof {
                assert(buffer@ =~= orig + spec_digits(n as int));
            }
        }
    }

    /// Append the decimal digits of `n` (no leading zeros).
    pub fn write_u16_fast(buffer: &mut Vec<u8>, n: u16)
        ensures
            final(buffer)@ == old(buffer)@ + spec_digits(n as int),
    {
        let ghost orig = buffer@;
        let ghost ni = n as int;
        if n >= 10000 {
            buffer.push(48 + (n / 10000) as u8);
            let m1 = n % 10000;
            buffer.push(48 + (m1 / 1000) as u8);
            let m2 = m1 % 1000;
            buffer.push(48 + (m2 / 100) as u8);
            let m3 = m2 % 100;
            buffer.push(48 + (m3 / 10) as u8);
            buffer.push(48 + (m3 % 10) as u8);
            proof {
                lemma_digit_split(ni, 1000);
                lemma_digit_split(ni, 100);
                lemma_digit_split(ni, 10);
                lemma_digit_split(ni % 10000, 100);
                lemma_digit_split(ni % 10000, 10);
                lemma_digit_split(ni % 1000, 10);
                assert(ni / 10 / 10 == ni / 100 && ni / 100 / 10 == ni / 1000 && ni / 1000 / 10
                    == ni / 10000 && ni / 10000 < 10) by (nonlinear_arith)
                    requires
                        10000 <= ni && ni < 65536,
                ;
                assert(spec_digits(ni) == spec_digits(ni / 10).push((48 + ni % 10) as u8));
                assert(spec_digits(ni / 10) == spec_digits(ni / 100).push(
                    (48 + (ni / 10) % 10) as u8,
                ));
                assert(spec_digits(ni / 100) == spec_digits(ni / 1000).push(
                    (48 + (ni / 100) % 10) as u8,
                ));
                assert(spec_digits(ni / 1000) == spec_digits(ni / 10000).push(
                    (48 + (ni / 1000) % 10) as u8,
                ));
                assert(buffer@ =~= orig + spec_digits(ni));
            }
        } else if n >= 1000 {
            buffer.push(48 + (n / 1000) as u8);
            let m1 = n % 1000;
            buffer.push(48 + (m1 / 100) as u8);
            let m2 = m1 % 100;
            buffer.push(48 + (m2 / 10) as u8);
            buffer.push(48 + (m2 % 10) as u8);
            proof {
                lemma_digit_split(ni, 100);
                lemma_digit_split(ni, 10);
                lemma_digit_split(ni % 1000, 10);
                assert(ni / 10 / 10 == ni / 100 && ni / 100 / 10 == ni / 1000 && ni / 1000 < 10)
                    by (nonlinear_arith)
                    requires
                        1000 <= ni && ni < 10000,
                ;
                assert(spec_digits(ni) == spec_digits(ni / 10).push((48 + ni % 10) as u8));
                assert(spec_digits(ni / 10) == spec_digits(ni / 100).push(
                    (48 + (ni / 10) % 10) as u8,
                ));
                assert(spec_digits(ni / 100) == spec_digits(ni / 1000).push(
                    (48 + (ni / 100) % 10) as u8,
                ));
                assert(buffer@ =~= orig + spec_digits(ni));
            }
        } else if n >= 100 {
            buffer.push(48 + (n / 100) as u8);
            let m1 = n % 100;
            buffer.push(48 + (m1 / 10) as u8);
            buffer.push(48 + (m1 % 10) as u8);
            proof {
                lemma_digit_split(ni, 10);
                assert(ni / 10 / 10 == ni / 100 && ni / 100 < 10) by (nonlinear_arith)
                    requires
                        100 <= ni && ni < 1000,
                ;
                assert(spec_digits(ni) == spec_digits(ni / 10).push((48 + ni % 10) as u8));
                assert(spec_digits(ni / 10) == spec_digits(ni / 100).push(
                    (48 + (ni / 10) % 10) as u8,
                ));
                assert(buffer@ =~= orig + spec_digits(ni));
            }
        } else if n >= 10 {
            buffer.push(48 + (n / 10) as u8);
            buffer.push(48 + (n % 10) as u8);
            proof {
                assert(spec_digits(ni / 10) =~= seq![(48 + ni / 10) as u8]);
                assert(buffer@ =~= orig + spec_digits(ni));
            }
        } else {
            buffer.push(48 + n as u8);
            proof {
                assert(buffer@ =~= orig + spec_digits(ni));
            }
        }
    }
}


/// `ESC[?2026h`: begin synchronized update.
pub open spec fn sync_begin_seq() -> Seq<u8> {
    seq![27u8, 91u8, 63u8, 50u8, 48u8, 50u8, 54u8, 104u8]
}

/// `ESC[?2026l`: end synchronized update.
pub open spec fn sync_end_seq() -> Seq<u8> {
    seq![27u8, 91u8, 63u8, 50u8, 48u8, 50u8, 54u8, 108u8]
}

/// `ESC[2J`: clear the whole screen.
pub open spec fn clear_seq() -> Seq<u8> {
    seq![27u8, 91u8, 50u8, 74u8]
}

/// `ESC[0m`: reset attributes.
pub open spec fn reset_seq() -> Seq<u8> {
    seq![27u8, 91u8, 48u8, 109u8]
}

/// `ESC[{row+1};{col+1}H`: absolute cursor position.
pub open spec fn cursor_move_seq(row: int, col: int) -> Seq<u8> {
    seq![27u8, 91u8] + spec_digits(row + 1) + seq![59u8] + spec_digits(col + 1) + seq![72u8]
}

/// `ESC[38;2;{r};{g};{b}m`: true-color foreground.
pub open spec fn fg_seq(c: (u8, u8, u8)) -> Seq<u8> {
    seq![27u8, 91u8, 51u8, 56u8, 59u8, 50u8, 59u8] + spec_digits(c.0 as int) + seq![59u8]
        + spec_digits(c.1 as int) + seq![59u8] + spec_digits(c.2 as int) + seq![109u8]
}

/// `ESC[48;2;{r};{g};{b}m`: true-color background.
pub open spec fn bg_seq(c: (u8, u8, u8)) -> Seq<u8> {
    seq![27u8, 91u8, 52u8, 56u8, 59u8, 50u8, 59u8] + spec_digits(c.0 as int) + seq![59u8]
        + spec_digits(c.1 as int) + seq![59u8] + spec_digits(c.2 as int) + seq![109u8]
}

/// The UTF-8 bytes of the upper-half-block glyph.
pub open spec fn half_block_seq() -> Seq<u8> {
    seq![226u8, 150u8, 128u8]
}

/// Perceived brightness of a color, 0 to 255.
pub open spec fn spec_brightness(c: (u8, u8, u8)) -> int {
    (299 * c.0 + 587 * c.1 + 114 * c.2) / 1000
}

/// The ten-level glyph ramp from darkest to brightest, indexed by
/// brightness.
pub open spec fn spec_ramp_glyph(c: (u8, u8, u8)) -> u8 {
    seq![32u8, 46u8, 58u8, 45u8, 61u8, 43u8, 42u8, 35u8, 37u8, 64u8][spec_brightness(c) * 9 / 255]
}

fn emit_sync_begin(buf: &mut Vec<u8>)
    ensures
        final(buf)@ == old(buf)@ + sync_begin_seq(),
{
    buf.push(27);
    buf.push(91);
    buf.push(63);
    buf.push(50);
    buf.push(48);
    buf.push(50);
    buf.push(54);
    buf.push(104);
    proof {
        assert(buf@ =~= old(buf)@ + sync_begin_seq());
    }
}

fn emit_sync_end(buf: &mut Vec<u8>)
    ensures
        final(buf)@ == old(buf)@ + sync_end_seq(),
{
    buf.push(27);
    buf.push(91);
    buf.push(63);
    buf.push(50);
    buf.push(48);
    buf.push(50);
    buf.push(54);
    buf.push(108);
    proof {
        assert(buf@ =~= old(buf)@ + sync_end_seq());
    }
}

fn emit_clear(buf: &mut Vec<u8>)
    ensures
        final(buf)@ == old(buf)@ + clear_seq(),
{
    buf.push(27);
    buf.push(91);
    buf.push(50);
    buf.push(74);
    proof {
        assert(buf@ =~= old(buf)@ + clear_seq());
    }
}

fn emit_reset(buf: &mut Vec<u8>)
    ensures
        final(buf)@ == old(buf)@ + reset_seq(),
{
    buf.push(27);
    buf.push(91);
    buf.push(48);
    buf.push(109);
    proof {
        assert(buf@ =~= old(buf)@ + reset_seq());
    }
}

fn emit_cursor_move(buf: &mut Vec<u8>, row: u16, col: u16)
    requires
        row < 65535,
        col < 65535,
    ensures
        final(buf)@ == old(buf)@ + cursor_move_seq(row as int, col as int),
{
    buf.push(27);
    buf.push(91);
    DisplayManager::write_u16_fast(buf, row + 1);
    buf.push(59);
    DisplayManager::write_u16_fast(buf, col + 1);
    buf.push(72);
    proof {
        assert(buf@ =~= old(buf)@ + cursor_move_seq(row as int, col as int));
    }
}

fn emit_fg(buf: &mut Vec<u8>, c: (u8, u8, u8))
    ensures
        final(buf)@ == old(buf)@ + fg_seq(c),
{
    buf.push(27);
    buf.push(91);
    buf.push(51);
    buf.push(56);
    buf.push(59);
    buf.push(50);
    buf.push(59);
    DisplayManager::write_u8_fast(buf, c.0);
    buf.push(59);
    DisplayManager::write_u8_fast(buf, c.1);
    buf.push(59);
    DisplayManager::write_u8_fast(buf, c.2);
    buf.push(109);
    proof {
        assert(buf@ =~= old(buf)@ + fg_seq(c));
    }
}

fn emit_bg(buf: &mut Vec<u8>, c: (u8, u8, u8))
    ensures
        final(buf)@ == old(buf)@ + bg_seq(c),
{
    buf.push(27);
    buf.push(91);
    buf.push(52);
    buf.push(56);
    buf.push(59);
    buf.push(50);
    buf.push(59);
    DisplayManager::write_u8_fast(buf, c.0);
    buf.push(59);
    DisplayManager::write_u8_fast(buf, c.1);
    buf.push(59);
    DisplayManager::write_u8_fast(buf, c.2);
    buf.push(109);
    proof {
        assert(buf@ =~= old(buf)@ + bg_seq(c));
    }
}

fn emit_half_block(buf: &mut Vec<u8>)
    ensures
        final(buf)@ == old(buf)@ + half_block_seq(),
{
    buf.push(226);
    buf.push(150);
    buf.push(128);
    proof {
        assert(buf@ =~= old(buf)@ + half_block_seq());
    }
}

/// The ramp glyph for a color, by brightness.
fn ramp_glyph(c: (u8, u8, u8)) -> (g: u8)
    ensures
        g == spec_ramp_glyph(c),
{
    let brightness: u32 = (299 * (c.0 as u32) + 587 * (c.1 as u32) + 114 * (c.2 as u32)) / 1000;
    let idx: u32 = brightness * 9 / 255;
    proof {
        assert(idx <= 9) by (nonlinear_arith)
            requires
                idx == (brightness as int) * 9 / 255,
                0 <= brightness as int <= 255,
        ;
    }
    if idx == 0 {
        32
    } else if idx == 1 {
        46
    } else if idx == 2 {
        58
    } else if idx == 3 {
        45
    } else if idx == 4 {
        61
    } else if idx == 5 {
        43
    } else if idx == 6 {
        42
    } else if idx == 7 {
        35
    } else if idx == 8 {
        37
    } else {
        64
    }
}

/// Whether two RGB triples are equal.
fn rgb_eq(a: (u8, u8, u8), b: (u8, u8, u8)) -> (r: bool)
    ensures
        r == (a == b),
{
    a.0 == b.0 && a.1 == b.1 && a.2 == b.2
}

/// Everything the per-cell emission depends on besides the walk state:
/// grid width, centering offsets, terminal bounds, render mode, and
/// whether a resize forced a full repaint.
pub struct RenderCfg {
    pub width: int,
    pub off_x: int,
    pub off_y: int,
    pub term_cols: int,
    pub term_rows: int,
    pub mode: DisplayMode,
    pub force: bool,
}

/// The walk state of the diff emission: colors last emitted, where the
/// terminal cursor will put the next glyph (if known), the bytes emitted so
/// far, and the snapshot grid as updated so far.
#[verifier::ext_equal]
pub struct DiffState {
    pub last_fg: Option<(u8, u8, u8)>,
    pub last_bg: Option<(u8, u8, u8)>,
    pub cursor: Option<(int, int)>,
    pub out: Seq<u8>,
    pub stored: Seq<CellData>,
}

/// One cell of the diff walk.
///
/// A clean cell emits nothing but invalidates the cursor tracker (the next
/// paint must reposition); so does a cell clipped by the terminal bounds. A
/// dirty visible cell repositions unless the cursor already sits on it,
/// emits each color only if it differs from the last one emitted, then the
/// glyph, and records itself in the snapshot.
pub open spec fn spec_step(s: DiffState, cells: Seq<CellData>, cfg: RenderCfg, i: int) -> DiffState {
    let cell = cells[i];
    let dirty = cfg.force || cell != s.stored[i];
    if !dirty {
        DiffState { cursor: None, ..s }
    } else {
        let x = cfg.off_x + i % cfg.width;
        let y = cfg.off_y + i / cfg.width;
        if x >= cfg.term_cols || y >= cfg.term_rows {
            DiffState { cursor: None, ..s }
        } else {
            let out1 = if s.cursor == Some((x, y)) {
                s.out
            } else {
                s.out + cursor_move_seq(y, x)
            };
            if cfg.mode is Rgb {
                let out2 = if s.last_fg == Some(cell.fg) {
                    out1
                } else {
                    out1 + fg_seq(cell.fg)
                };
                let out3 = if s.last_bg == Some(cell.bg) {
                    out2
                } else {
                    out2 + bg_seq(cell.bg)
                };
                DiffState {
                    last_fg: Some(cell.fg),
                    last_bg: Some(cell.bg),
                    cursor: Some((x + 1, y)),
                    out: out3 + half_block_seq(),
                    stored: s.stored.update(i, cell),
                }
            } else {
                DiffState {
                    cursor: Some((x + 1, y)),
                    out: out1 + seq![spec_ramp_glyph(cell.fg)],
                    stored: s.stored.update(i, cell),
                    ..s
                }
            }
        }
    }
}

/// The walk state after the first `n` cells.
pub open spec fn spec_render_fold(
    cells: Seq<CellData>,
    cfg: RenderCfg,
    init: DiffState,
    n: int,
) -> DiffState
    decreases n,
{
    if n <= 0 {
        init
    } else {
        spec_step(spec_render_fold(cells, cfg, init, n - 1), cells, cfg, n - 1)
    }
}

/// The walk's starting state: no color or cursor known, the
/// synchronized-update header (plus a full clear after a resize), and the
/// previous snapshot.
pub open spec fn spec_init(prev: Seq<CellData>, force: bool) -> DiffState {
    DiffState {
        last_fg: None::<(u8, u8, u8)>,
        last_bg: None::<(u8, u8, u8)>,
        cursor: None::<(int, int)>,
        out: sync_begin_seq() + if force {
            clear_seq()
        } else {
            Seq::<u8>::empty()
        },
        stored: prev,
    }
}

/// The walk state after the whole grid.
pub open spec fn spec_render(prev: Seq<CellData>, cells: Seq<CellData>, cfg: RenderCfg) -> DiffState {
    spec_render_fold(cells, cfg, spec_init(prev, cfg.force), cells.len() as int)
}

/// The complete byte stream of one frame: the walk's output, an attribute
/// reset if the walk painted anything, and the closing marker. An empty
/// diff is exactly the synchronized-update markers.
pub open spec fn spec_render_bytes(
    prev: Seq<CellData>,
    cells: Seq<CellData>,
    cfg: RenderCfg,
) -> Seq<u8> {
    let init = spec_init(prev, cfg.force);
    let fin = spec_render_fold(cells, cfg, init, cells.len() as int);
    fin.out + (if fin.out.len() > init.out.len() {
        reset_seq()
    } else {
        Seq::<u8>::empty()
    }) + sync_end_seq()
}

/// Centering offset: half the slack when the terminal is larger than the
/// content, else zero.
pub open spec fn spec_offset(term: int, content: int) -> int {
    if term > content {
        (term - content) / 2
    } else {
        0
    }
}


/// The renderer's mutable walk trackers in executable form.
struct Walk {
    fg_known: bool,
    fg_last: (u8, u8, u8),
    bg_known: bool,
    bg_last: (u8, u8, u8),
    cur_known: bool,
    cur_x: usize,
    cur_y: usize,
}

/// The abstract walk state that a buffer, a snapshot and the trackers
/// stand for.
spec fn walk_state(out: Seq<u8>, stored: Seq<CellData>, w: Walk) -> DiffState {
    DiffState {
        last_fg: if w.fg_known {
            Some(w.fg_last)
        } else {
            None::<(u8, u8, u8)>
        },
        last_bg: if w.bg_known {
            Some(w.bg_last)
        } else {
            None::<(u8, u8, u8)>
        },
        cursor: if w.cur_known {
            Some((w.cur_x as int, w.cur_y as int))
        } else {
            None::<(int, int)>
        },
        out,
        stored,
    }
}

/// Process one cell of the diff walk: exactly `spec_step`.
#[verifier::rlimit(60)]
fn render_cell(
    buf: &mut Vec<u8>,
    stored: &mut Vec<CellData>,
    w: &mut Walk,
    cells: &Vec<CellData>,
    i: usize,
    width: usize,
    off_xu: usize,
    off_yu: usize,
    tcu: usize,
    tru: usize,
    mode: DisplayMode,
    force: bool,
)
    requires
        1 <= width <= 65535,
        i < cells@.len(),
        (cells@.len() as int) / (width as int) <= 65535,
        old(stored)@.len() == cells@.len(),
        off_xu <= 65535,
        off_yu <= 65535,
        tcu <= 65535,
        tru <= 65535,
    ensures
        final(stored)@.len() == cells@.len(),
        walk_state(final(buf)@, final(stored)@, *final(w)) == spec_step(
            walk_state(old(buf)@, old(stored)@, *old(w)),
            cells@,
            RenderCfg {
                width: width as int,
                off_x: off_xu as int,
                off_y: off_yu as int,
                term_cols: tcu as int,
                term_rows: tru as int,
                mode,
                force,
            },
            i as int,
        ),
{
    let ghost s_pre = walk_state(buf@, stored@, *w);
    let ghost cfg = RenderCfg {
        width: width as int,
        off_x: off_xu as int,
        off_y: off_yu as int,
        term_cols: tcu as int,
        term_rows: tru as int,
        mode,
        force,
    };
    let cell = cells[i];
    let old_cell = stored[i];
    let dirty = force || !(cell == old_cell);
    if dirty {
        proof {
            lemma_div_is_ordered(i as int, cells@.len() as int, width as int);
        }
        let x = i % width + off_xu;
        let y = i / width + off_yu;
        if x >= tcu || y >= tru {
            w.cur_known = false;
        } else {
            if !(w.cur_known && w.cur_x == x && w.cur_y == y) {
                emit_cursor_move(buf, y as u16, x as u16);
                w.cur_known = true;
                w.cur_x = x;
                w.cur_y = y;
            }
            match mode {
                DisplayMode::Rgb => {
                    if !(w.fg_known && rgb_eq(w.fg_last, cell.fg)) {
                        emit_fg(buf, cell.fg);
                    }
                    w.fg_known = true;
                    w.fg_last = cell.fg;
                    if !(w.bg_known && rgb_eq(w.bg_last, cell.bg)) {
                        emit_bg(buf, cell.bg);
                    }
                    w.bg_known = true;
                    w.bg_last = cell.bg;
                    emit_half_block(buf);
                },
                DisplayMode::Ascii => {
                    let g = ramp_glyph(cell.fg);
                    buf.push(g);
                },
            }
            stored.set(i, cell);
            w.cur_known = true;
            w.cur_x = x + 1;
            w.cur_y = y;
        }
    } else {
        w.cur_known = false;
    }
    proof {
        assert(walk_state(buf@, stored@, *w) =~~= spec_step(s_pre, cells@, cfg, i as int));
    }
}

impl DisplayManager {
    /// A renderer in the given mode with no frame painted yet.
    pub fn new(mode: DisplayMode) -> (d: DisplayManager)
        ensures
            d.mode == mode,
            d.last_cells is None,
    {
        DisplayManager { mode, last_cells: None }
    }

    /// Emit the control bytes that turn the previously painted grid into
    /// `cells`, and record `cells` as painted.
    ///
    /// A grid whose length differs from the stored snapshot (or the very
    /// first frame) means a full repaint: the screen is cleared and every
    /// cell paints. Content outside the `term_cols x term_rows` bounds is
    /// clipped silently. The content is centered when the terminal is
    /// larger than the grid.
    #[verifier::rlimit(100)]
    pub fn render_diff(&mut self, cells: &Vec<CellData>, width: usize, term_cols: u16, term_rows:
        u16) -> (out: Vec<u8>)
        requires
            1 <= width <= 65535,
            (cells@.len() as int) / (width as int) <= 65535,
        ensures
            final(self).mode == old(self).mode,
            ({
                let force = match old(self).last_cells {
                    Some(v) => v@.len() != cells@.len(),
                    None => true,
                };
                let prev = if force {
                    Seq::new(cells@.len(), |j: int| CellData::black())
                } else {
                    old(self).last_cells->Some_0@
                };
                let cfg = RenderCfg {
                    width: width as int,
                    off_x: spec_offset(term_cols as int, width as int),
                    off_y: spec_offset(term_rows as int, cells@.len() as int / width as int),
                    term_cols: term_cols as int,
                    term_rows: term_rows as int,
                    mode: old(self).mode,
                    force,
                };
                &&& out@ == spec_render_bytes(prev, cells@, cfg)
                &&& final(self).last_cells is Some
                &&& final(self).last_cells->Some_0@ == spec_render(prev, cells@, cfg).stored
            }),
    {
        let n = cells.len();
        let force = match &self.last_cells {
            Some(v) => v.len() != n,
            None => true,
        };
        let mut stored: Vec<CellData>;
        if force {
            let mut fresh: Vec<CellData> = Vec::new();
            while fresh.len() < n
                invariant
                    fresh@.len() <= n,
                    forall|j: int| 0 <= j < fresh@.len() ==> fresh@[j] == CellData::black(),
                decreases n - fresh@.len(),
            {
                fresh.push(CellData::default());
            }
            stored = fresh;
        } else {
            match self.last_cells.take() {
                Some(v) => {
                    stored = v;
                },
                None => {
                    proof {
                        assert(false);
                    }
                    stored = Vec::new();
                },
            }
        }
        let ghost prev = stored@;
        let ghost forceg = force;
        proof {
            assert(forceg ==> prev =~= Seq::new(cells@.len(), |j: int| CellData::black()));
        }
        let cw: u16 = width as u16;
        let chu: usize = n / width;
        let ch: u16 = chu as u16;
        let off_x: u16 = if term_cols > cw {
            (term_cols - cw) / 2
        } else {
            0
        };
        let off_y: u16 = if term_rows > ch {
            (term_rows - ch) / 2
        } else {
            0
        };
        let ghost cfg = RenderCfg {
            width: width as int,
            off_x: spec_offset(term_cols as int, width as int),
            off_y: spec_offset(term_rows as int, cells@.len() as int / width as int),
            term_cols: term_cols as int,
            term_rows: term_rows as int,
            mode: self.mode,
            force: forceg,
        };
        let ghost init = spec_init(prev, forceg);
        let mut buf: Vec<u8> = Vec::new();
        emit_sync_begin(&mut buf);
        if force {
            emit_clear(&mut buf);
        }
        let header_len = buf.len();
        let mode = self.mode;
        let off_xu = off_x as usize;
        let off_yu = off_y as usize;
        let tcu = term_cols as usize;
        let tru = term_rows as usize;
        let mut w = Walk {
            fg_known: false,
            fg_last: (0, 0, 0),
            bg_known: false,
            bg_last: (0, 0, 0),
            cur_known: false,
            cur_x: 0,
            cur_y: 0,
        };
        proof {
            assert(buf@ =~= init.out);
            assert(walk_state(buf@, stored@, w) =~~= init);
        }
        let mut i: usize = 0;
        while i < n
            invariant
                i <= n,
                n == cells@.len(),
                1 <= width <= 65535,
                (cells@.len() as int) / (width as int) <= 65535,
                stored@.len() == n,
                cfg == (RenderCfg {
                    width: width as int,
                    off_x: off_xu as int,
                    off_y: off_yu as int,
                    term_cols: tcu as int,
                    term_rows: tru as int,
                    mode,
                    force: forceg,
                }),
                forceg == force,
                header_len == spec_init(prev, forceg).out.len(),
                init == spec_init(prev, forceg),
                off_xu <= 65535 && off_yu <= 65535 && tcu <= 65535 && tru <= 65535,
                walk_state(buf@, stored@, w) == spec_render_fold(cells@, cfg, init, i as int),
            decreases n - i,
        {
            render_cell(
                &mut buf,
                &mut stored,
                &mut w,
                cells,
                i,
                width,
                off_xu,
                off_yu,
                tcu,
                tru,
                mode,
                force,
            );
            proof {
                assert(spec_render_fold(cells@, cfg, init, i as int + 1) == spec_step(
                    spec_render_fold(cells@, cfg, init, i as int),
                    cells@,
                    cfg,
                    i as int,
                ));
            }
            i = i + 1;
        }
        if buf.len() > header_len {
            emit_reset(&mut buf);
        }
        emit_sync_end(&mut buf);
        self.last_cells = Some(stored);
        proof {
            assert(buf@ =~= spec_render_bytes(prev, cells@, cfg));
        }
        buf
    }
}


/// Whether grid index `i` falls outside the terminal bounds.
pub open spec fn spec_clipped(cfg: RenderCfg, i: int) -> bool {
    cfg.off_x + i % cfg.width >= cfg.term_cols || cfg.off_y + i / cfg.width >= cfg.term_rows
}

/// Whether the walk paints grid index `i`: it differs from the snapshot
/// (or a repaint is forced) and it is not clipped.
pub open spec fn spec_painted(
    prev: Seq<CellData>,
    cells: Seq<CellData>,
    cfg: RenderCfg,
    i: int,
) -> bool {
    (cfg.force || cells[i] != prev[i]) && !spec_clipped(cfg, i)
}

/// After the walk, the snapshot holds the new cell exactly where the walk
/// painted, and the old cell everywhere else.
pub proof fn lemma_fold_stored(cells: Seq<CellData>, cfg: RenderCfg, init: DiffState, n: int)
    requires
        0 <= n <= cells.len(),
        init.stored.len() == cells.len(),
    ensures
        spec_render_fold(cells, cfg, init, n).stored.len() == cells.len(),
        forall|j: int|
            0 <= j < n ==> spec_render_fold(cells, cfg, init, n).stored[j] == if spec_painted(
                init.stored,
                cells,
                cfg,
                j,
            ) {
                cells[j]
            } else {
                init.stored[j]
            },
        forall|j: int|
            n <= j < cells.len() ==> spec_render_fold(cells, cfg, init, n).stored[j]
                == init.stored[j],
    decreases n,
{
    if n > 0 {
        lemma_fold_stored(cells, cfg, init, n - 1);
    }
}

/// A walk in which every differing cell is clipped emits nothing and
/// changes nothing.
pub proof fn lemma_fold_clean(cells: Seq<CellData>, cfg: RenderCfg, init: DiffState, n: int)
    requires
        0 <= n <= cells.len(),
        !cfg.force,
        init.cursor is None,
        forall|i: int|
            0 <= i < n && cells[i] != init.stored[i] ==> spec_clipped(cfg, i),
    ensures
        spec_render_fold(cells, cfg, init, n) == init,
    decreases n,
{
    if n > 0 {
        lemma_fold_clean(cells, cfg, init, n - 1);
        assert(spec_step(init, cells, cfg, n - 1) =~~= init);
    }
}

/// Diff idempotence: rendering the same grid twice in succession produces
/// an empty diff. The second frame's bytes are only the synchronized-update
/// markers — no cursor, color, glyph or reset bytes.
pub proof fn lemma_diff_idempotent(prev: Seq<CellData>, cells: Seq<CellData>, cfg: RenderCfg)
    requires
        !cfg.force,
        prev.len() == cells.len(),
    ensures
        spec_render_bytes(spec_render(prev, cells, cfg).stored, cells, cfg) == sync_begin_seq()
            + sync_end_seq(),
{
    let init1 = spec_init(prev, cfg.force);
    let st1 = spec_render(prev, cells, cfg).stored;
    lemma_fold_stored(cells, cfg, init1, cells.len() as int);
    let init2 = spec_init(st1, cfg.force);
    assert forall|i: int| 0 <= i < cells.len() && cells[i] != st1[i] implies spec_clipped(
        cfg,
        i,
    ) by {
        if spec_painted(prev, cells, cfg, i) {
            assert(st1[i] == cells[i]);
        } else {
            if !spec_clipped(cfg, i) {
                assert(cells[i] == prev[i] && st1[i] == prev[i]);
            }
        }
    };
    lemma_fold_clean(cells, cfg, init2, cells.len() as int);
    assert(spec_render_bytes(st1, cells, cfg) =~= sync_begin_seq() + sync_end_seq());
}

} // verus!
