//! The image as text in the plain pixel-map format: the format's mark,
//! the size, the largest channel value, and one line of three numbers for
//! each pixel.

use vstd::prelude::*;
use crate::render::Pixel;

verus! {

/// The byte of the decimal digit `d`.
pub open spec fn digit(d: nat) -> u8 {
    (48 + d) as u8
}

/// The decimal digits of `n` as bytes, without leading zeros.
pub open spec fn decimal(n: nat) -> Seq<u8>
    decreases n,
{
    if n < 10 {
        seq![digit(n)]
    } else {
        decimal(n / 10).push(digit(n % 10))
    }
}

/// The line of a pixel: its three channels in decimal, a space between
/// them and a line feed at the end.
pub open spec fn pixel_line(p: Pixel) -> Seq<u8> {
    decimal(p.r as nat).push(32) + decimal(p.g as nat).push(32) + decimal(p.b as nat).push(10)
}

/// The lines of the pixels, in their order.
pub open spec fn pixel_lines(pixels: Seq<Pixel>) -> Seq<u8>
    decreases pixels.len(),
{
    if pixels.len() == 0 {
        Seq::empty()
    } else {
        pixel_lines(pixels.drop_last()) + pixel_line(pixels.last())
    }
}

/// The three lines that come before the pixels: the mark of the plain
/// pixel-map format, the width and the height, and 255, the largest
/// value of a channel.
pub open spec fn header(width: u32, height: u32) -> Seq<u8> {
    seq![80u8, 51, 10] + decimal(width as nat).push(32) + decimal(height as nat).push(10)
        + seq![50u8, 53, 53, 10]
}

/// The whole text: the header and the lines of the pixels.
pub open spec fn ppm_text(width: u32, height: u32, pixels: Seq<Pixel>) -> Seq<u8> {
    header(width, height) + pixel_lines(pixels)
}

/// How many line feeds `text` holds.
pub open spec fn line_count(text: Seq<u8>) -> nat
    decreases text.len(),
{
    if text.len() == 0 {
        0
    } else {
        line_count(text.drop_last()) + if text.last() == 10u8 {
            1nat
        } else {
            0nat
        }
    }
}

/// The line feeds of two texts put together are those of the one and
/// those of the other.
pub proof fn lemma_line_count_add(a: Seq<u8>, b: Seq<u8>)
    ensures
        line_count(a + b) == line_count(a) + line_count(b),
    decreases b.len(),
{
    if b.len() == 0 {
        assert(a + b =~= a);
    } else {
        lemma_line_count_add(a, b.drop_last());
        assert((a + b).drop_last() =~= a + b.drop_last());
    }
}

/// A text with `c` at its end has one more line feed than without it
/// where `c` is a line feed, and as many where it is not.
pub proof fn lemma_line_count_push(a: Seq<u8>, c: u8)
    ensures
        line_count(a.push(c)) == line_count(a) + if c == 10u8 {
            1nat
        } else {
            0nat
        },
{
    assert(a.push(c).drop_last() =~= a);
}

/// A number in decimal holds no line feed.
pub proof fn lemma_decimal_one_line(n: nat)
    ensures
        line_count(decimal(n)) == 0,
    decreases n,
{
    if n < 10 {
        lemma_line_count_push(Seq::empty(), digit(n));
        assert(seq![digit(n)] =~= Seq::<u8>::empty().push(digit(n)));
    } else {
        lemma_decimal_one_line(n / 10);
        lemma_line_count_push(decimal(n / 10), digit(n % 10));
    }
}

/// The line of a pixel is one line.
pub proof fn lemma_pixel_line_is_one_line(p: Pixel)
    ensures
        line_count(pixel_line(p)) == 1,
{
    let r = decimal(p.r as nat);
    let g = decimal(p.g as nat);
    let b = decimal(p.b as nat);
    lemma_decimal_one_line(p.r as nat);
    lemma_decimal_one_line(p.g as nat);
    lemma_decimal_one_line(p.b as nat);
    lemma_line_count_push(r, 32);
    lemma_line_count_push(g, 32);
    lemma_line_count_push(b, 10);
    lemma_line_count_add(r.push(32), g.push(32));
    lemma_line_count_add(r.push(32) + g.push(32), b.push(10));
}

/// The text of an image has three lines and one more for each pixel.
pub proof fn lemma_ppm_line_count(width: u32, height: u32, pixels: Seq<Pixel>)
    ensures
        line_count(ppm_text(width, height, pixels)) == 3 + pixels.len(),
    decreases pixels.len(),
{
    if pixels.len() == 0 {
        let w = decimal(width as nat);
        let h = decimal(height as nat);
        let magic = seq![80u8, 51, 10];
        let top = seq![50u8, 53, 53, 10];
        lemma_decimal_one_line(width as nat);
        lemma_decimal_one_line(height as nat);
        lemma_line_count_push(w, 32);
        lemma_line_count_push(h, 10);
        assert(magic =~= Seq::<u8>::empty().push(80).push(51).push(10));
        lemma_line_count_push(Seq::empty(), 80);
        lemma_line_count_push(Seq::<u8>::empty().push(80), 51);
        lemma_line_count_push(Seq::<u8>::empty().push(80).push(51), 10);
        assert(top =~= Seq::<u8>::empty().push(50).push(53).push(53).push(10));
        lemma_line_count_push(Seq::empty(), 50);
        lemma_line_count_push(Seq::<u8>::empty().push(50), 53);
        lemma_line_count_push(Seq::<u8>::empty().push(50).push(53), 53);
        lemma_line_count_push(Seq::<u8>::empty().push(50).push(53).push(53), 10);
        lemma_line_count_add(magic, w.push(32));
        lemma_line_count_add(magic + w.push(32), h.push(10));
        lemma_line_count_add(magic + w.push(32) + h.push(10), top);
        assert(ppm_text(width, height, pixels) =~= header(width, height));
    } else {
        lemma_ppm_line_count(width, height, pixels.drop_last());
        lemma_pixel_line_is_one_line(pixels.last());
        lemma_line_count_add(
            header(width, height) + pixel_lines(pixels.drop_last()),
            pixel_line(pixels.last()),
        );
        assert(ppm_text(width, height, pixels) =~= ppm_text(width, height, pixels.drop_last())
            + pixel_line(pixels.last()));
    }
}

/// Writes the decimal digits of `n` at the end of `out`.
pub fn push_decimal(out: &mut Vec<u8>, n: u32)
    ensures
        final(out)@ == old(out)@ + decimal(n as nat),
    decreases n,
{
    if n >= 10 {
        push_decimal(out, n / 10);
    }
    let d: u8 = (n % 10) as u8;
    out.push(48 + d);
    assert(final(out)@ =~= old(out)@ + decimal(n as nat));
}

/// Writes the line of the pixel `p` at the end of `out`.
pub fn push_pixel_line(out: &mut Vec<u8>, p: Pixel)
    ensures
        final(out)@ == old(out)@ + pixel_line(p),
{
    push_decimal(out, p.r as u32);
    out.push(32);
    push_decimal(out, p.g as u32);
    out.push(32);
    push_decimal(out, p.b as u32);
    out.push(10);
    assert(final(out)@ =~= old(out)@ + pixel_line(p));
}

/// The text of an image of `width` by `height` pixels: three lines of
/// header and one line for each pixel.
pub fn ppm(width: u32, height: u32, pixels: &Vec<Pixel>) -> (out: Vec<u8>)
    ensures
        out@ == ppm_text(width, height, pixels@),
        line_count(out@) == 3 + pixels@.len(),
{
    proof {
        lemma_ppm_line_count(width, height, pixels@);
    }
    let mut out: Vec<u8> = Vec::new();
    out.push(80);
    out.push(51);
    out.push(10);
    push_decimal(&mut out, width);
    out.push(32);
    push_decimal(&mut out, height);
    out.push(10);
    out.push(50);
    out.push(53);
    out.push(53);
    out.push(10);
    assert(out@ =~= header(width, height));
    let mut i: usize = 0;
    while i < pixels.len()
        invariant
            i <= pixels.len(),
            out@ == header(width, height) + pixel_lines(pixels@.take(i as int)),
        decreases pixels.len() - i,
    {
        assert(pixels@.take(i + 1).drop_last() == pixels@.take(i as int));
        push_pixel_line(&mut out, pixels[i]);
        assert(out@ =~= header(width, height) + pixel_lines(pixels@.take(i + 1)));
        i = i + 1;
    }
    assert(pixels@.take(i as int) == pixels@);
    out
}

} // verus!
