//! Facts about the shape of an encoded image: its lines, where the first
//! pixel stands, and that a render depends on nothing but its inputs.
use vstd::prelude::*;
use crate::decimal::decimal_text;
use crate::ppm::{
    header_text, pixel_coords, pixel_text, pixels_text, ppm_text, shaded_row_major, Rgb, NEWLINE,
};

verus! {

/// Number of line feeds in `s`, that is, of complete lines.
pub open spec fn newline_count(s: Seq<u8>) -> nat
    decreases s.len(),
{
    if s.len() == 0 {
        0
    } else {
        newline_count(s.drop_last()) + if s.last() == NEWLINE {
            1nat
        } else {
            0nat
        }
    }
}

/// Line feeds add up over concatenation.
pub proof fn lemma_newline_count_concat(a: Seq<u8>, b: Seq<u8>)
    ensures
        newline_count(a + b) == newline_count(a) + newline_count(b),
    decreases b.len(),
{
    if b.len() > 0 {
        assert((a + b).drop_last() =~= a + b.drop_last());
        lemma_newline_count_concat(a, b.drop_last());
    } else {
        assert(a + b =~= a);
    }
}

/// A decimal text holds no line feed.
pub proof fn lemma_decimal_one_piece(n: nat)
    ensures
        newline_count(decimal_text(n)) == 0,
    decreases n,
{
    if n < 10 {
        assert(decimal_text(n).drop_last() =~= Seq::<u8>::empty());
        reveal_with_fuel(newline_count, 2);
    } else {
        lemma_decimal_one_piece(n / 10);
        assert(decimal_text(n).drop_last() =~= decimal_text(n / 10));
    }
}

/// A single-byte sequence holds a line feed exactly when it is one.
proof fn lemma_newline_count_single(x: u8)
    ensures
        newline_count(seq![x]) == if x == NEWLINE {
            1nat
        } else {
            0nat
        },
{
    assert(seq![x].drop_last() =~= Seq::<u8>::empty());
    reveal_with_fuel(newline_count, 2);
}

/// The text of one pixel is exactly one line.
pub proof fn lemma_pixel_one_line(c: Rgb)
    ensures
        newline_count(pixel_text(c)) == 1,
{
    let r = decimal_text(c.r as nat);
    let g = decimal_text(c.g as nat);
    let b = decimal_text(c.b as nat);
    let sp = seq![crate::ppm::SPACE];
    let nl = seq![NEWLINE];
    lemma_decimal_one_piece(c.r as nat);
    lemma_decimal_one_piece(c.g as nat);
    lemma_decimal_one_piece(c.b as nat);
    lemma_newline_count_single(crate::ppm::SPACE);
    lemma_newline_count_single(NEWLINE);
    lemma_newline_count_concat(r, sp);
    lemma_newline_count_concat(r + sp, g);
    lemma_newline_count_concat(r + sp + g, sp);
    lemma_newline_count_concat(r + sp + g + sp, b);
    lemma_newline_count_concat(r + sp + g + sp + b, nl);
}

/// The header is exactly three lines.
pub proof fn lemma_header_three_lines(width: nat, height: nat)
    ensures
        newline_count(header_text(width, height)) == 3,
{
    let magic = seq![80u8, 51u8, NEWLINE];
    let w = decimal_text(width);
    let h = decimal_text(height);
    let m = decimal_text(crate::ppm::MAX_CHANNEL as nat);
    let sp = seq![crate::ppm::SPACE];
    let nl = seq![NEWLINE];
    assert(magic.drop_last().drop_last().drop_last() =~= Seq::<u8>::empty());
    assert(newline_count(magic) == 1) by {
        reveal_with_fuel(newline_count, 4);
    }
    lemma_decimal_one_piece(width);
    lemma_decimal_one_piece(height);
    lemma_decimal_one_piece(crate::ppm::MAX_CHANNEL as nat);
    lemma_newline_count_single(crate::ppm::SPACE);
    lemma_newline_count_single(NEWLINE);
    lemma_newline_count_concat(magic, w);
    lemma_newline_count_concat(magic + w, sp);
    lemma_newline_count_concat(magic + w + sp, h);
    lemma_newline_count_concat(magic + w + sp + h, nl);
    lemma_newline_count_concat(magic + w + sp + h + nl, m);
    lemma_newline_count_concat(magic + w + sp + h + nl + m, nl);
}

/// The pixel lines of `s` are as many as its pixels.
pub proof fn lemma_pixels_lines(s: Seq<Rgb>)
    ensures
        newline_count(pixels_text(s)) == s.len(),
    decreases s.len(),
{
    if s.len() > 0 {
        lemma_pixels_lines(s.drop_last());
        lemma_pixel_one_line(s.last());
        lemma_newline_count_concat(pixels_text(s.drop_last()), pixel_text(s.last()));
    }
}

/// The pixel lines of two runs of pixels, one after the other.
pub proof fn lemma_pixels_text_concat(a: Seq<Rgb>, b: Seq<Rgb>)
    ensures
        pixels_text(a + b) == pixels_text(a) + pixels_text(b),
    decreases b.len(),
{
    if b.len() > 0 {
        assert((a + b).drop_last() =~= a + b.drop_last());
        lemma_pixels_text_concat(a, b.drop_last());
        assert(pixels_text(a + b) =~= pixels_text(a) + pixels_text(b));
    } else {
        assert(a + b =~= a);
        assert(pixels_text(a) + pixels_text(b) =~= pixels_text(a));
    }
}

/// The layout of a rendered image: the header's three lines, then one line
/// per pixel, `width * height` in all; the first of them is the line of the
/// color that the shader gave for column 0 of row 0.
pub proof fn lemma_render_layout<F: Fn(u32, u32) -> Rgb>(
    width: nat,
    height: nat,
    shade: F,
    pixels: Seq<Rgb>,
)
    requires
        width > 0,
        height > 0,
        shaded_row_major(width, height, shade, pixels),
    ensures
        newline_count(ppm_text(width, height, pixels)) == 3 + width * height,
        newline_count(pixels_text(pixels)) == width * height,
        call_ensures(shade, (0u32, 0u32), pixels[0]),
        ppm_text(width, height, pixels) == header_text(width, height) + pixel_text(pixels[0])
            + pixels_text(pixels.subrange(1, pixels.len() as int)),
{
    lemma_header_three_lines(width, height);
    lemma_pixels_lines(pixels);
    lemma_newline_count_concat(header_text(width, height), pixels_text(pixels));
    assert(width * height > 0) by (nonlinear_arith)
        requires
            width > 0,
            height > 0,
    ;
    assert(pixel_coords(width, 0) == (0u32, 0u32));
    assert(call_ensures(shade, pixel_coords(width, 0), pixels[0]));
    let first = seq![pixels[0]];
    let rest = pixels.subrange(1, pixels.len() as int);
    assert(first + rest =~= pixels);
    lemma_pixels_text_concat(first, rest);
    assert(first.drop_last() =~= Seq::<Rgb>::empty());
    assert(pixels_text(first) =~= pixel_text(pixels[0])) by {
        reveal_with_fuel(pixels_text, 2);
    }
    assert(ppm_text(width, height, pixels) =~= header_text(width, height) + pixel_text(pixels[0])
        + pixels_text(rest));
}

/// With a shader that gives one color for each pixel, two renders of one
/// configuration give the same bytes.
pub proof fn lemma_render_deterministic<F: Fn(u32, u32) -> Rgb>(
    width: nat,
    height: nat,
    shade: F,
    first: Seq<Rgb>,
    second: Seq<Rgb>,
)
    requires
        forall|args: (u32, u32), x: Rgb, y: Rgb|
            call_ensures(shade, args, x) && call_ensures(shade, args, y) ==> x == y,
        shaded_row_major(width, height, shade, first),
        shaded_row_major(width, height, shade, second),
    ensures
        first == second,
        ppm_text(width, height, first) == ppm_text(width, height, second),
{
    assert forall|k: int| 0 <= k < first.len() implies first[k] == second[k] by {
        assert(call_ensures(shade, pixel_coords(width, k), first[k]));
        assert(call_ensures(shade, pixel_coords(width, k), second[k]));
    }
    assert(first =~= second);
}

} // verus!
