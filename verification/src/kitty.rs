//! Kitty graphics protocol renderer.
//!
//! An alternative to cell rendering for photographic content: each frame is
//! PNG-encoded, base64-encoded, and framed in a kitty graphics escape
//! sequence. Only the two encodings are trusted; the framing around their
//! named results is verified byte for byte.

use crate::display::spec_digits;
use vstd::prelude::*;

verus! {

/// The PNG encoding of a `w x h` RGB image. A function of the pixel data
/// and dimensions alone.
pub uninterp spec fn png_of(pixels: Seq<u8>, w: int, h: int) -> Seq<u8>;

/// The base64 encoding (standard alphabet, padded) of a byte string.
pub uninterp spec fn b64_of(data: Seq<u8>) -> Seq<u8>;

/// Relies on the image crate's PNG encoder: `ImageBuffer::from_raw` accepts
/// a buffer of exactly `w * h * 3` bytes, and `write_to` emits the PNG
/// stream, a function of the pixels and dimensions. Dimensions are kept
/// within the PNG format's 31-bit limit.
#[verifier::external_body]
fn png_encode_rgb(pixels: &Vec<u8>, w: u32, h: u32) -> (r: Vec<u8>)
    requires
        pixels@.len() == w * h * 3,
        1 <= w <= 0x7FFF_FFFF,
        1 <= h <= 0x7FFF_FFFF,
    ensures
        r@ == png_of(pixels@, w as int, h as int),
{
    let img: image::ImageBuffer<image::Rgb<u8>, Vec<u8>> =
        image::ImageBuffer::from_raw(w, h, pixels.clone()).unwrap();
    let mut png_buffer: Vec<u8> = Vec::new();
    img.write_to(&mut std::io::Cursor::new(&mut png_buffer), image::ImageFormat::Png).unwrap();
    png_buffer
}

/// Relies on base64's `encode` (standard alphabet, padded): four output
/// characters for every three input bytes, rounded up.
#[verifier::external_body]
fn base64_encode(data: &Vec<u8>) -> (r: Vec<u8>)
    ensures
        r@ == b64_of(data@),
        r@.len() == (data@.len() + 2) / 3 * 4,
{
    base64::encode(data).into_bytes()
}

/// Append the decimal digits of `n` (no leading zeros).
fn write_dec(buf: &mut Vec<u8>, n: usize)
    ensures
        final(buf)@ == old(buf)@ + spec_digits(n as int),
    decreases n,
{
    if n < 10 {
        buf.push(48 + n as u8);
        proof {
            assert(buf@ =~= old(buf)@ + spec_digits(n as int));
        }
    } else {
        write_dec(buf, n / 10);
        buf.push(48 + (n % 10) as u8);
        proof {
            assert(buf@ =~= old(buf)@ + spec_digits(n as int));
        }
    }
}

/// The column count the frame is displayed over: the terminal width capped
/// by a tenth of the pixel width.
pub open spec fn spec_kitty_cols(term_width: u16, width: u32) -> int {
    let t = width as int / 10;
    if term_width as int <= t {
        term_width as int
    } else {
        t
    }
}

/// The row count the frame is displayed over: the terminal height capped
/// by a twentieth of the pixel height (reduced to the escape field's 16
/// bits).
pub open spec fn spec_kitty_rows(term_height: u16, height: u32) -> int {
    let t = height as int / 20;
    if term_height as int <= t {
        term_height as int
    } else {
        t
    }
}

/// The complete escape sequence of one kitty frame:
/// `ESC _ G a=T,f=100,s={png size},c={cols},r={rows};{base64 png} ESC \`.
pub open spec fn spec_kitty_frame(
    pixels: Seq<u8>,
    width: int,
    height: int,
    term_width: u16,
    term_height: u16,
) -> Seq<u8> {
    let png = png_of(pixels, width, height);
    seq![27u8, 95u8, 71u8, 97u8, 61u8, 84u8, 44u8, 102u8, 61u8, 49u8, 48u8, 48u8, 44u8, 115u8, 61u8]
        + spec_digits(png.len() as int) + seq![44u8, 99u8, 61u8] + spec_digits(
        spec_kitty_cols(term_width, width as u32),
    ) + seq![44u8, 114u8, 61u8] + spec_digits(spec_kitty_rows(term_height, height as u32)) + seq![
        59u8,
    ] + b64_of(png) + seq![27u8, 92u8]
}

/// The escape sequence that deletes all kitty graphics: `ESC _ G a=d ESC \`.
pub open spec fn spec_kitty_clear() -> Seq<u8> {
    seq![27u8, 95u8, 71u8, 97u8, 61u8, 100u8, 27u8, 92u8]
}

/// Frames PNG images in kitty graphics escape sequences.
pub struct KittyRenderer {
    /// Terminal width in character cells.
    pub term_width: u16,
    /// Terminal height in character cells.
    pub term_height: u16,
}

impl KittyRenderer {
    pub fn new(term_width: u16, term_height: u16) -> (r: KittyRenderer)
        ensures
            r.term_width == term_width,
            r.term_height == term_height,
    {
        KittyRenderer { term_width, term_height }
    }

    /// The escape sequence that displays one RGB frame.
    #[verifier::rlimit(100)]
    #[verifier::spinoff_prover]
    pub fn render_frame(&self, pixel_data: &Vec<u8>, width: u32, height: u32) -> (out: Vec<u8>)
        requires
            pixel_data@.len() == width * height * 3,
            1 <= width <= 0x7FFF_FFFF,
            1 <= height <= 0x7FFF_FFFF,
        ensures
            out@ == spec_kitty_frame(
                pixel_data@,
                width as int,
                height as int,
                self.term_width,
                self.term_height,
            ),
    {
        let png = png_encode_rgb(pixel_data, width, height);
        let b64 = base64_encode(&png);
        let cols: u16 = {
            let t = width / 10;
            if (self.term_width as u32) <= t {
                self.term_width
            } else {
                t as u16
            }
        };
        let rows: u16 = {
            let t = height / 20;
            if (self.term_height as u32) <= t {
                self.term_height
            } else {
                t as u16
            }
        };
        let mut out: Vec<u8> = Vec::new();
        out.push(27);
        out.push(95);
        out.push(71);
        out.push(97);
        out.push(61);
        out.push(84);
        out.push(44);
        out.push(102);
        out.push(61);
        out.push(49);
        out.push(48);
        out.push(48);
        out.push(44);
        out.push(115);
        out.push(61);
        write_dec(&mut out, png.len());
        out.push(44);
        out.push(99);
        out.push(61);
        write_dec(&mut out, cols as usize);
        out.push(44);
        out.push(114);
        out.push(61);
        write_dec(&mut out, rows as usize);
        out.push(59);
        let mut i: usize = 0;
        let ghost before_payload = out@;
        while i < b64.len()
            invariant
                i <= b64@.len(),
                out@ == before_payload + b64@.subrange(0, i as int),
            decreases b64@.len() - i,
        {
            out.push(b64[i]);
            proof {
                assert(out@ =~= before_payload + b64@.subrange(0, i as int + 1));
            }
            i = i + 1;
        }
        out.push(27);
        out.push(92);
        proof {
            assert(cols as int == spec_kitty_cols(self.term_width, width));
            assert(rows as int == spec_kitty_rows(self.term_height, height));
            assert(b64@.subrange(0, b64@.len() as int) =~= b64@);
            assert(out@ =~= spec_kitty_frame(
                pixel_data@,
                width as int,
                height as int,
                self.term_width,
                self.term_height,
            ));
        }
        out
    }

    /// The escape sequence that clears all kitty graphics.
    pub fn clear(&self) -> (out: Vec<u8>)
        ensures
            out@ == spec_kitty_clear(),
    {
        let mut out: Vec<u8> = Vec::new();
        out.push(27);
        out.push(95);
        out.push(71);
        out.push(97);
        out.push(61);
        out.push(100);
        out.push(27);
        out.push(92);
        proof {
            assert(out@ =~= spec_kitty_clear());
        }
        out
    }
}

} // verus!
