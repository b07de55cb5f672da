//! Frame geometry: aspect-preserving scale selection and compositing of a
//! resized image onto a fixed output canvas.
//!
//! In letterbox mode the uniform scale factor is the smaller of
//! `target_w/src_w` and `target_h/src_h`: the image fits entirely inside the
//! canvas and the remainder is padded black. In fill mode it is the larger of
//! the two: the image covers the canvas and the overflow is center-cropped.
//! All arithmetic is exact over integers; the fractional scale never appears,
//! only the rounded output dimensions.

use vstd::arithmetic::div_mod::lemma_fundamental_div_mod;
use vstd::prelude::*;

verus! {

/// `x / y` rounded to the nearest integer, halves up (`y > 0`).
pub open spec fn round_div(x: int, y: int) -> int {
    x / y + if 2 * (x % y) >= y {
        1int
    } else {
        0int
    }
}

/// If `x <= b*y`, rounding `x/y` cannot exceed `b`.
proof fn lemma_round_div_le(x: int, y: int, b: int)
    requires
        1 <= y,
        0 <= x <= b * y,
    ensures
        round_div(x, y) <= b,
{
    lemma_fundamental_div_mod(x, y);
    let q = x / y;
    let r = x % y;
    assert(q <= b) by (nonlinear_arith)
        requires
            x == y * q + r,
            0 <= r < y,
            x <= b * y,
            1 <= y,
    ;
    if 2 * r >= y {
        assert(q < b) by (nonlinear_arith)
            requires
                x == y * q + r,
                0 < r < y,
                x <= b * y,
                1 <= y,
                q <= b,
        ;
    }
}

/// If `x >= b*y`, rounding `x/y` is at least `b`.
proof fn lemma_round_div_ge(x: int, y: int, b: int)
    requires
        1 <= y,
        0 <= b,
        b * y <= x,
    ensures
        round_div(x, y) >= b,
{
    lemma_fundamental_div_mod(x, y);
    let q = x / y;
    let r = x % y;
    assert(q >= b) by (nonlinear_arith)
        requires
            x == y * q + r,
            0 <= r < y,
            b * y <= x,
            1 <= y,
    ;
}

/// The scaled dimensions of a `src_w x src_h` image fit to a
/// `target_w x target_h` canvas: the binding dimension maps exactly to its
/// target, the other is scaled by the same rounded ratio; both are clamped
/// to at least one pixel.
pub open spec fn spec_scaled_dims(
    src_w: int,
    src_h: int,
    target_w: int,
    target_h: int,
    fill: bool,
) -> (int, int) {
    let width_binds = if fill {
        target_w * src_h >= target_h * src_w
    } else {
        target_w * src_h <= target_h * src_w
    };
    if width_binds {
        let nh = round_div(src_h * target_w, src_w);
        (target_w, if nh >= 1 {
            nh
        } else {
            1int
        })
    } else {
        let nw = round_div(src_w * target_h, src_h);
        (if nw >= 1 {
            nw
        } else {
            1int
        }, target_h)
    }
}

/// Compute the scaled dimensions, or `None` when a dimension would exceed
/// `u32::MAX` (an extreme aspect mismatch in fill mode).
pub fn scaled_dims(src_w: u32, src_h: u32, target_w: u32, target_h: u32, fill: bool) -> (dims:
    Option<(u32, u32)>)
    requires
        1 <= src_w,
        1 <= src_h,
        1 <= target_w,
        1 <= target_h,
    ensures
        ({
            let (sw, sh) = spec_scaled_dims(
                src_w as int,
                src_h as int,
                target_w as int,
                target_h as int,
                fill,
            );
            match dims {
                Some(d) => {
                    &&& d.0 == sw
                    &&& d.1 == sh
                    &&& !fill ==> d.0 <= target_w && d.1 <= target_h
                    &&& fill ==> d.0 >= target_w && d.1 >= target_h
                    &&& 1 <= d.0 && 1 <= d.1
                },
                None => sw > u32::MAX || sh > u32::MAX,
            }
        }),
{
    let cross_w: u64 = mul_u32(target_w, src_h);
    let cross_h: u64 = mul_u32(target_h, src_w);
    let width_binds = if fill {
        cross_w >= cross_h
    } else {
        cross_w <= cross_h
    };
    if width_binds {
        let x: u64 = mul_u32(src_h, target_w);
        let y: u64 = src_w as u64;
        let q = x / y;
        let r = x % y;
        proof {
            lemma_fundamental_div_mod(x as int, y as int);
            assert(q <= x) by (nonlinear_arith)
                requires
                    x as int == (y as int) * (q as int) + (r as int),
                    0 <= r as int,
                    1 <= y as int,
                    0 <= q as int,
            ;
            if fill {
                lemma_round_div_ge(x as int, y as int, target_h as int);
            } else {
                lemma_round_div_le(x as int, y as int, target_h as int);
            }
        }
        let rounded: u64 = if r >= y - r {
            q + 1
        } else {
            q
        };
        let nh: u64 = if rounded >= 1 {
            rounded
        } else {
            1
        };
        if nh > 0xFFFF_FFFF {
            None
        } else {
            Some((target_w, nh as u32))
        }
    } else {
        let x: u64 = mul_u32(src_w, target_h);
        let y: u64 = src_h as u64;
        let q = x / y;
        let r = x % y;
        proof {
            lemma_fundamental_div_mod(x as int, y as int);
            assert(q <= x) by (nonlinear_arith)
                requires
                    x as int == (y as int) * (q as int) + (r as int),
                    0 <= r as int,
                    1 <= y as int,
                    0 <= q as int,
            ;
            if fill {
                lemma_round_div_ge(x as int, y as int, target_w as int);
            } else {
                lemma_round_div_le(x as int, y as int, target_w as int);
            }
        }
        let rounded: u64 = if r >= y - r {
            q + 1
        } else {
            q
        };
        let nw: u64 = if rounded >= 1 {
            rounded
        } else {
            1
        };
        if nw > 0xFFFF_FFFF {
            None
        } else {
            Some((nw as u32, target_h))
        }
    }
}

/// The product of two `u32` values, exact in a `u64`.
pub(crate) fn mul_u32(a: u32, b: u32) -> (r: u64)
    ensures
        r == a * b,
        r <= 0xFFFF_FFFF * 0xFFFF_FFFF,
{
    proof {
        assert((a as int) * (b as int) <= 0xFFFF_FFFF * 0xFFFF_FFFF) by (nonlinear_arith)
            requires
                0 <= a <= 0xFFFF_FFFF,
                0 <= b <= 0xFFFF_FFFF,
        ;
    }
    (a as u64) * (b as u64)
}

/// Byte `i` of a canvas built by centering an `nw x nh` image on a
/// `tw x th` canvas and padding the remainder black.
pub open spec fn spec_letterbox_byte(
    resized: Seq<u8>,
    nw: int,
    nh: int,
    tw: int,
    th: int,
    i: int,
) -> u8 {
    let p = i / 3;
    let c = i % 3;
    let x = p % tw;
    let y = p / tw;
    let x0 = (tw - nw) / 2;
    let y0 = (th - nh) / 2;
    if x0 <= x < x0 + nw && y0 <= y < y0 + nh {
        resized[((y - y0) * nw + (x - x0)) * 3 + c]
    } else {
        0u8
    }
}

/// Byte `i` of a canvas built by center-cropping an `nw x nh` image to
/// `tw x th`.
pub open spec fn spec_crop_byte(
    resized: Seq<u8>,
    nw: int,
    nh: int,
    tw: int,
    th: int,
    i: int,
) -> u8 {
    let p = i / 3;
    let c = i % 3;
    let x = p % tw;
    let y = p / tw;
    let x0 = (nw - tw) / 2;
    let y0 = (nh - th) / 2;
    resized[((y + y0) * nw + (x + x0)) * 3 + c]
}

/// Byte `i` of the composed canvas: center-crop when the resized image
/// overflows the canvas, letterbox otherwise.
pub open spec fn spec_composed_byte(
    resized: Seq<u8>,
    nw: int,
    nh: int,
    tw: int,
    th: int,
    i: int,
) -> u8 {
    if nw > tw || nh > th {
        spec_crop_byte(resized, nw, nh, tw, th, i)
    } else {
        spec_letterbox_byte(resized, nw, nh, tw, th, i)
    }
}

/// Composite a resized `nw x nh` RGB image onto a fresh `tw x th` canvas:
/// letterbox (center, pad black) when it fits, center-crop when it
/// overflows.
pub fn compose_canvas(resized: &Vec<u8>, nw: u32, nh: u32, tw: u32, th: u32) -> (canvas: Vec<u8>)
    requires
        resized@.len() == nw * nh * 3,
        1 <= nw && 1 <= nh && 1 <= tw && 1 <= th,
        (nw <= tw && nh <= th) || (nw >= tw && nh >= th),
        tw * th * 3 <= usize::MAX,
    ensures
        canvas@.len() == tw * th * 3,
        forall|i: int|
            0 <= i < canvas@.len() ==> canvas@[i] == spec_composed_byte(
                resized@,
                nw as int,
                nh as int,
                tw as int,
                th as int,
                i,
            ),
{
    let nwu = nw as usize;
    let nhu = nh as usize;
    let twu = tw as usize;
    let thu = th as usize;
    proof {
        assert(twu * thu * 3 == tw * th * 3 && nwu * nhu * 3 == nw * nh * 3) by (nonlinear_arith)
            requires
                nwu == nw && nhu == nh && twu == tw && thu == th,
        ;
        assert(twu * thu <= twu * thu * 3) by (nonlinear_arith)
            requires
                0 <= twu * thu,
        ;
    }
    let total: usize = twu * thu;
    let crop = nw > tw || nh > th;
    let x0: usize = if crop {
        (nwu - twu) / 2
    } else {
        (twu - nwu) / 2
    };
    let y0: usize = if crop {
        (nhu - thu) / 2
    } else {
        (thu - nhu) / 2
    };
    let mut canvas: Vec<u8> = Vec::new();
    let mut p: usize = 0;
    while p < total
        invariant
            canvas@.len() == 3 * p,
            0 <= p <= total,
            total == twu * thu,
            nwu == nw && nhu == nh && twu == tw && thu == th,
            resized@.len() == nw * nh * 3,
            1 <= nw && 1 <= nh && 1 <= tw && 1 <= th,
            (nw <= tw && nh <= th) || (nw >= tw && nh >= th),
            tw * th * 3 <= usize::MAX,
            crop == (nw > tw || nh > th),
            x0 == if crop {
                (nw - tw) as int / 2
            } else {
                (tw - nw) as int / 2
            },
            y0 == if crop {
                (nh - th) as int / 2
            } else {
                (th - nh) as int / 2
            },
            forall|i: int|
                0 <= i < 3 * p ==> canvas@[i] == spec_composed_byte(
                    resized@,
                    nw as int,
                    nh as int,
                    tw as int,
                    th as int,
                    i,
                ),
        decreases total - p,
    {
        let x = p % twu;
        let y = p / twu;
        proof {
            assert((p as int) % (twu as int) < twu && (p as int) / (twu as int) < thu)
                by (nonlinear_arith)
                requires
                    0 <= p < twu * thu,
                    1 <= twu,
            ;
            assert(3 * (p + 1) <= 3 * total <= twu * thu * 3) by (nonlinear_arith)
                requires
                    p < total,
                    total == twu * thu,
                    0 <= twu * thu,
            ;
        }
        let mut c: usize = 0;
        while c < 3
            invariant
                canvas@.len() == 3 * p + c,
                0 <= c <= 3,
                x == p % twu,
                y == p / twu,
                x < twu && y < thu,
                p < total,
                total == twu * thu,
                nwu == nw && nhu == nh && twu == tw && thu == th,
                resized@.len() == nw * nh * 3,
                1 <= nw && 1 <= nh && 1 <= tw && 1 <= th,
                (nw <= tw && nh <= th) || (nw >= tw && nh >= th),
                tw * th * 3 <= usize::MAX,
                crop == (nw > tw || nh > th),
                x0 == if crop {
                    (nw - tw) as int / 2
                } else {
                    (tw - nw) as int / 2
                },
                y0 == if crop {
                    (nh - th) as int / 2
                } else {
                    (th - nh) as int / 2
                },
                forall|i: int|
                    0 <= i < 3 * p + c ==> canvas@[i] == spec_composed_byte(
                        resized@,
                        nw as int,
                        nh as int,
                        tw as int,
                        th as int,
                        i,
                    ),
            decreases 3 - c,
        {
            let byte: u8 = if crop {
                proof {
                    assert(x + x0 < nwu && y + y0 < nhu) by (nonlinear_arith)
                        requires
                            0 <= x < twu,
                            0 <= y < thu,
                            x0 == (nwu - twu) as int / 2,
                            y0 == (nhu - thu) as int / 2,
                            twu <= nwu,
                            thu <= nhu,
                    ;
                }
                fetch_rgb_byte(resized, nwu, nhu, x + x0, y + y0, c)
            } else {
                if x0 <= x && x < x0 + nwu && y0 <= y && y < y0 + nhu {
                    fetch_rgb_byte(resized, nwu, nhu, x - x0, y - y0, c)
                } else {
                    0
                }
            };
            canvas.push(byte);
            proof {
                let i = 3 * (p as int) + c;
                assert(i / 3 == p && i % 3 == c) by (nonlinear_arith)
                    requires
                        i == 3 * (p as int) + c,
                        0 <= c < 3,
                        0 <= p,
                ;
            }
            c = c + 1;
        }
        p = p + 1;
    }
    canvas
}

/// Byte `c` of source pixel `(sx, sy)` of an `nw x nh` RGB image.
fn fetch_rgb_byte(resized: &Vec<u8>, nw: usize, nh: usize, sx: usize, sy: usize, c: usize) -> (b:
    u8)
    requires
        resized@.len() == nw * nh * 3,
        sx < nw,
        sy < nh,
        c < 3,
    ensures
        b == resized@[((sy * nw + sx) * 3 + c) as int],
{
    let n = resized.len();
    proof {
        assert(sy * nw + sx < nw * nh && (sy * nw + sx) * 3 + c < nw * nh * 3) by (nonlinear_arith)
            requires
                0 <= sx < nw,
                0 <= sy < nh,
                0 <= c < 3,
        ;
    }
    resized[(sy * nw + sx) * 3 + c]
}


/// The flat byte index of channel `c` of canvas pixel `(x, y)`.
pub open spec fn pixel_byte(tw: int, x: int, y: int, c: int) -> int {
    (y * tw + x) * 3 + c
}

/// Decompose a pixel byte index back into its coordinates.
proof fn lemma_pixel_byte_decompose(tw: int, x: int, y: int, c: int)
    requires
        0 <= x < tw,
        0 <= y,
        0 <= c < 3,
    ensures
        pixel_byte(tw, x, y, c) / 3 == y * tw + x,
        pixel_byte(tw, x, y, c) % 3 == c,
        (y * tw + x) % tw == x,
        (y * tw + x) / tw == y,
{
    let p = y * tw + x;
    assert(p >= 0 && (p * 3 + c) / 3 == p && (p * 3 + c) % 3 == c) by (nonlinear_arith)
        requires
            0 <= x < tw,
            0 <= y,
            0 <= c < 3,
            p == y * tw + x,
    ;
    assert(p % tw == x && p / tw == y) by (nonlinear_arith)
        requires
            0 <= x < tw,
            0 <= y,
            p == y * tw + x,
    ;
}

/// Letterbox padding: when the letterboxed image leaves at least two rows
/// or two columns of slack, all four canvas corners are padding (black),
/// never source pixels.
pub proof fn lemma_letterbox_corners(resized: Seq<u8>, nw: int, nh: int, tw: int, th: int, c: int)
    requires
        1 <= nw <= tw,
        1 <= nh <= th,
        2 <= tw - nw || 2 <= th - nh,
        0 <= c < 3,
    ensures
        spec_composed_byte(resized, nw, nh, tw, th, pixel_byte(tw, 0, 0, c)) == 0,
        spec_composed_byte(resized, nw, nh, tw, th, pixel_byte(tw, tw - 1, 0, c)) == 0,
        spec_composed_byte(resized, nw, nh, tw, th, pixel_byte(tw, 0, th - 1, c)) == 0,
        spec_composed_byte(resized, nw, nh, tw, th, pixel_byte(tw, tw - 1, th - 1, c)) == 0,
{
    lemma_pixel_byte_decompose(tw, 0, 0, c);
    lemma_pixel_byte_decompose(tw, tw - 1, 0, c);
    lemma_pixel_byte_decompose(tw, 0, th - 1, c);
    lemma_pixel_byte_decompose(tw, tw - 1, th - 1, c);
}

/// Fill coverage: when the resized image overflows the canvas, every canvas
/// byte is sourced from the (center-cropped) resized image, never padding.
pub proof fn lemma_fill_covers(
    resized: Seq<u8>,
    nw: int,
    nh: int,
    tw: int,
    th: int,
    x: int,
    y: int,
    c: int,
)
    requires
        1 <= tw <= nw,
        1 <= th <= nh,
        nw > tw || nh > th,
        resized.len() == nw * nh * 3,
        0 <= x < tw,
        0 <= y < th,
        0 <= c < 3,
    ensures
        ({
            let sx = x + (nw - tw) / 2;
            let sy = y + (nh - th) / 2;
            &&& 0 <= sx < nw
            &&& 0 <= sy < nh
            &&& 0 <= pixel_byte(nw, sx, sy, c) < resized.len()
            &&& spec_composed_byte(resized, nw, nh, tw, th, pixel_byte(tw, x, y, c)) == resized[
            pixel_byte(nw, sx, sy, c)]
        }),
{
    lemma_pixel_byte_decompose(tw, x, y, c);
    let sx = x + (nw - tw) / 2;
    let sy = y + (nh - th) / 2;
    assert(sx < nw && sy < nh && 0 <= pixel_byte(nw, sx, sy, c) < nw * nh * 3)
        by (nonlinear_arith)
        requires
            0 <= x < tw <= nw,
            0 <= y < th <= nh,
            0 <= c < 3,
            sx == x + (nw - tw) / 2,
            sy == y + (nh - th) / 2,
    ;
}

} // verus!
