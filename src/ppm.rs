//! The plain-text (P3) pixmap encoding and the row-major render driver.
use vstd::prelude::*;
use crate::config::ImageConfig;
use crate::decimal::{decimal_text, write_decimal};

verus! {

/// ASCII space, between the numbers of a line.
pub const SPACE: u8 = 32;

/// ASCII line feed, at the end of every line.
pub const NEWLINE: u8 = 10;

/// The largest channel value, written in the header.
pub const MAX_CHANNEL: u32 = 255;

/// One pixel as three channel values in `0..=255`.
#[derive(Clone, Copy, Debug, PartialEq, Eq, Structural)]
pub struct Rgb {
    pub r: u8,
    pub g: u8,
    pub b: u8,
}

/// The line of one pixel: `"R G B\n"`.
pub open spec fn pixel_text(c: Rgb) -> Seq<u8> {
    decimal_text(c.r as nat) + seq![SPACE] + decimal_text(c.g as nat) + seq![SPACE]
        + decimal_text(c.b as nat) + seq![NEWLINE]
}

/// The lines of the pixels of `s`, in order.
pub open spec fn pixels_text(s: Seq<Rgb>) -> Seq<u8>
    decreases s.len(),
{
    if s.len() == 0 {
        Seq::empty()
    } else {
        pixels_text(s.drop_last()) + pixel_text(s.last())
    }
}

/// The three header lines: `"P3\n<width> <height>\n255\n"`.
pub open spec fn header_text(width: nat, height: nat) -> Seq<u8> {
    seq![80u8, 51u8, NEWLINE] + decimal_text(width) + seq![SPACE] + decimal_text(height)
        + seq![NEWLINE] + decimal_text(MAX_CHANNEL as nat) + seq![NEWLINE]
}

/// A whole image: the header, then one line per pixel.
pub open spec fn ppm_text(width: nat, height: nat, pixels: Seq<Rgb>) -> Seq<u8> {
    header_text(width, height) + pixels_text(pixels)
}

/// Column and row of the pixel at position `k` of a row-major image
/// `width` pixels wide.
pub open spec fn pixel_coords(width: nat, k: int) -> (u32, u32) {
    ((k % width as int) as u32, (k / width as int) as u32)
}

/// `pixels` holds, in row-major order (top row first, left to right), a
/// color that `shade` may return for each pixel of a `width` by `height`
/// image.
pub open spec fn shaded_row_major<F: Fn(u32, u32) -> Rgb>(
    width: nat,
    height: nat,
    shade: F,
    pixels: Seq<Rgb>,
) -> bool {
    &&& pixels.len() == width * height
    &&& forall|k: int|
        0 <= k < pixels.len() ==> call_ensures(shade, pixel_coords(width, k), #[trigger] pixels[k])
}

/// Appends the header lines for a `width` by `height` image.
pub fn write_header(out: &mut Vec<u8>, width: u32, height: u32)
    ensures
        final(out)@ == old(out)@ + header_text(width as nat, height as nat),
{
    out.push(80u8);
    out.push(51u8);
    out.push(NEWLINE);
    write_decimal(out, width);
    out.push(SPACE);
    write_decimal(out, height);
    out.push(NEWLINE);
    write_decimal(out, MAX_CHANNEL);
    out.push(NEWLINE);
    proof {
        assert(old(out)@ + header_text(width as nat, height as nat) =~= out@);
    }
}

/// Appends the line of one pixel.
pub fn write_color(out: &mut Vec<u8>, color: Rgb)
    ensures
        final(out)@ == old(out)@ + pixel_text(color),
{
    write_decimal(out, color.r as u32);
    out.push(SPACE);
    write_decimal(out, color.g as u32);
    out.push(SPACE);
    write_decimal(out, color.b as u32);
    out.push(NEWLINE);
    proof {
        assert(old(out)@ + pixel_text(color) =~= out@);
    }
}

/// Renders the image: the header, then `shade(i, j)` for each row `j` from
/// the top and each column `i` from the left, one line per pixel.
pub fn render<F: Fn(u32, u32) -> Rgb>(config: &ImageConfig, shade: F) -> (r: Vec<u8>)
    requires
        config.wf(),
        forall|i: u32, j: u32|
            i < config.image_width && j < config.image_height ==> #[trigger] shade.requires((i, j)),
    ensures
        exists|pixels: Seq<Rgb>|
            shaded_row_major(
                config.image_width as nat,
                config.image_height as nat,
                shade,
                pixels,
            ) && r@ == ppm_text(config.image_width as nat, config.image_height as nat, pixels),
{
    let width = config.image_width;
    let height = config.image_height;
    let mut out: Vec<u8> = Vec::new();
    write_header(&mut out, width, height);
    let ghost mut pixels: Seq<Rgb> = Seq::empty();
    proof {
        assert(out@ =~= ppm_text(width as nat, height as nat, pixels));
    }
    let mut j: u32 = 0;
    while j < height
        invariant
            width == config.image_width,
            height == config.image_height,
            width > 0,
            j <= height,
            forall|i: u32, j: u32|
                i < width && j < height ==> #[trigger] shade.requires((i, j)),
            pixels.len() == j * width,
            out@ == ppm_text(width as nat, height as nat, pixels),
            forall|k: int|
                0 <= k < pixels.len() ==> call_ensures(
                    shade,
                    pixel_coords(width as nat, k),
                    #[trigger] pixels[k],
                ),
        decreases height - j,
    {
        let mut i: u32 = 0;
        while i < width
            invariant
                width == config.image_width,
                height == config.image_height,
                width > 0,
                i <= width,
                j < height,
                forall|i: u32, j: u32|
                    i < width && j < height ==> #[trigger] shade.requires((i, j)),
                pixels.len() == j * width + i,
                out@ == ppm_text(width as nat, height as nat, pixels),
                forall|k: int|
                    0 <= k < pixels.len() ==> call_ensures(
                        shade,
                        pixel_coords(width as nat, k),
                        #[trigger] pixels[k],
                    ),
            decreases width - i,
        {
            let color = shade(i, j);
            write_color(&mut out, color);
            proof {
                let k = j * width + i;
                vstd::arithmetic::div_mod::lemma_fundamental_div_mod_converse(
                    k, width as int, j as int, i as int);
                assert(pixel_coords(width as nat, k) == (i, j));
                let prev = pixels;
                pixels = pixels.push(color);
                assert(pixels.drop_last() =~= prev);
            }
            i += 1;
        }
        proof {
            vstd::arithmetic::mul::lemma_mul_is_distributive_add_other_way(
                width as int, j as int, 1);
        }
        j += 1;
    }
    proof {
        vstd::arithmetic::mul::lemma_mul_is_commutative(j as int, width as int);
        assert(shaded_row_major(width as nat, height as nat, shade, pixels));
    }
    out
}

} // verus!
