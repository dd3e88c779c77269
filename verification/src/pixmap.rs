//! The raster image and its textual rendering: the plain pixel-map
//! format, a header followed by one `r g b` line per pixel in insertion
//! order. The contract pins every byte of the output.

use vstd::prelude::*;

use crate::color::Color;
use crate::fx::{div_raw, Fx};

verus! {

/// The decimal digits of a nonnegative number, most significant first.
pub open spec fn dec_digits(n: int) -> Seq<u8>
    decreases n,
{
    if n < 10 {
        seq![(48 + n) as u8]
    } else {
        dec_digits(n / 10) + seq![(48 + n % 10) as u8]
    }
}

/// One pixel's line: the three channels separated by spaces, then a
/// newline.
pub open spec fn color_line(c: Color) -> Seq<u8> {
    dec_digits(c.r as int) + seq![32u8] + dec_digits(c.g as int) + seq![32u8] + dec_digits(
        c.b as int,
    ) + seq![10u8]
}

/// The pixels' lines from index `i` on, in order.
pub open spec fn pixel_lines(pixels: Seq<Color>, i: nat) -> Seq<u8>
    decreases pixels.len() - i,
{
    if i >= pixels.len() {
        Seq::empty()
    } else {
        color_line(pixels[i as int]) + pixel_lines(pixels, i + 1)
    }
}

/// The whole textual image: `P3`, the dimensions, the channel ceiling,
/// then every pixel line.
pub open spec fn p3_bytes(width: u16, height: u16, pixels: Seq<Color>) -> Seq<u8> {
    seq![80u8, 51u8, 10u8] + dec_digits(width as int) + seq![32u8] + dec_digits(height as int)
        + seq![10u8] + dec_digits(255) + seq![10u8] + pixel_lines(pixels, 0)
}

/// A raster image: its dimensions and its pixels, stored in the order
/// they are emitted.
pub struct PixMap {
    pub pixels: Vec<Color>,
    pub width: u16,
    pub height: u16,
}

impl PixMap {
    /// An empty image of the given dimensions.
    pub fn new(w: u16, h: u16) -> (r: PixMap)
        ensures
            r.width == w,
            r.height == h,
            r.pixels@.len() == 0,
    {
        PixMap { width: w, height: h, pixels: Vec::new() }
    }

    /// The width in pixels.
    pub fn width(&self) -> (r: u16)
        ensures
            r == self.width,
    {
        self.width
    }

    /// The height in pixels.
    pub fn height(&self) -> (r: u16)
        ensures
            r == self.height,
    {
        self.height
    }

    /// The width-to-height ratio.
    pub fn aspect(&self) -> (r: Fx)
        ensures
            r.raw == div_raw(self.width as int, self.height as int),
    {
        Fx::from_ratio(self.width as i64, self.height as i64)
    }

    /// Append one pixel.
    pub fn push(&mut self, pixel: Color)
        ensures
            final(self).pixels@ == old(self).pixels@.push(pixel),
            final(self).width == old(self).width,
            final(self).height == old(self).height,
    {
        self.pixels.push(pixel)
    }

    /// Render the image as the textual pixel-map bytes.
    pub fn render_p3(&self) -> (r: Vec<u8>)
        ensures
            r@ == p3_bytes(self.width, self.height, self.pixels@),
    {
        let mut out: Vec<u8> = Vec::new();
        out.push(80);
        out.push(51);
        out.push(10);
        proof {
            assert(out@ =~= seq![80u8, 51u8, 10u8]);
        }
        push_dec(&mut out, self.width);
        out.push(32);
        push_dec(&mut out, self.height);
        out.push(10);
        push_dec(&mut out, 255);
        out.push(10);
        let ghost header = out@;
        proof {
            assert(header =~= seq![80u8, 51u8, 10u8] + dec_digits(self.width as int) + seq![32u8]
                + dec_digits(self.height as int) + seq![10u8] + dec_digits(255) + seq![10u8]);
        }
        let mut i: usize = 0;
        while i < self.pixels.len()
            invariant
                i <= self.pixels@.len(),
                out@ == header + pixel_lines_prefix(self.pixels@, i as nat),
                header + pixel_lines_prefix(self.pixels@, i as nat) + pixel_lines(
                    self.pixels@,
                    i as nat,
                ) == header + pixel_lines(self.pixels@, 0),
            decreases self.pixels@.len() - i,
        {
            let c = self.pixels[i];
            push_dec(&mut out, c.r as u16);
            out.push(32);
            push_dec(&mut out, c.g as u16);
            out.push(32);
            push_dec(&mut out, c.b as u16);
            out.push(10);
            proof {
                lemma_pixel_lines_step(self.pixels@, i as nat);
                assert(out@ =~= header + pixel_lines_prefix(self.pixels@, i as nat) + color_line(
                    self.pixels@[i as int],
                ));
                assert(header + pixel_lines_prefix(self.pixels@, i as nat) + color_line(
                    self.pixels@[i as int],
                ) =~= header + pixel_lines_prefix(self.pixels@, (i + 1) as nat));
                assert(header + pixel_lines_prefix(self.pixels@, (i + 1) as nat) + pixel_lines(
                    self.pixels@,
                    (i + 1) as nat,
                ) =~= header + pixel_lines_prefix(self.pixels@, i as nat) + pixel_lines(
                    self.pixels@,
                    i as nat,
                ));
            }
            i = i + 1;
        }
        proof {
            assert(pixel_lines(self.pixels@, i as nat) =~= Seq::<u8>::empty());
            assert(out@ =~= header + pixel_lines(self.pixels@, 0));
            assert(out@ =~= p3_bytes(self.width, self.height, self.pixels@));
        }
        out
    }
}

/// The pixels' lines before index `i`, in order.
pub open spec fn pixel_lines_prefix(pixels: Seq<Color>, i: nat) -> Seq<u8>
    decreases i,
{
    if i == 0 || i > pixels.len() {
        Seq::empty()
    } else {
        pixel_lines_prefix(pixels, (i - 1) as nat) + color_line(pixels[i - 1])
    }
}

/// Emitting one more line moves it from the tail to the prefix.
proof fn lemma_pixel_lines_step(pixels: Seq<Color>, i: nat)
    requires
        i < pixels.len(),
    ensures
        pixel_lines_prefix(pixels, i + 1) == pixel_lines_prefix(pixels, i) + color_line(
            pixels[i as int],
        ),
        pixel_lines(pixels, i) == color_line(pixels[i as int]) + pixel_lines(pixels, i + 1),
{
}

/// Append the decimal digits of `n`.
fn push_dec(out: &mut Vec<u8>, n: u16)
    ensures
        final(out)@ == old(out)@ + dec_digits(n as int),
    decreases n,
{
    if n >= 10 {
        push_dec(out, n / 10);
        out.push(48 + (n % 10) as u8);
        proof {
            assert(out@ =~= old(out)@ + dec_digits(n as int));
        }
    } else {
        out.push(48 + n as u8);
        proof {
            assert(out@ =~= old(out)@ + dec_digits(n as int));
        }
    }
}

} // verus!
