//! The raster: the order of its scanlines, and its text form.

use vstd::prelude::*;

verus! {

/// A pixel: red, green and blue, each from 0 to 255.
pub type Pixel = (i32, i32, i32);

/// The decimal digits of `n`, most significant first, as ASCII bytes.
pub open spec fn digits(n: nat) -> Seq<u8>
    decreases n,
{
    if n < 10 {
        seq![(48 + n) as u8]
    } else {
        digits(n / 10).push((48 + n % 10) as u8)
    }
}

/// The decimal text of `n`, with a minus sign where `n` is negative.
pub open spec fn decimal(n: int) -> Seq<u8> {
    if n < 0 {
        seq![45u8] + digits((-n) as nat)
    } else {
        digits(n as nat)
    }
}

/// The header of an image of `width` by `height` pixels: the line that names the
/// plain pixmap format (the letter P and the digit 3), the line with the two
/// sizes, and the line `255`.
pub open spec fn header_text(width: i32, height: i32) -> Seq<u8> {
    seq![80u8, 51u8, 10u8] + decimal(width as int) + seq![32u8] + decimal(height as int) + seq![
        10u8,
        50u8,
        53u8,
        53u8,
        10u8,
    ]
}

/// The line of a pixel: its three values, one space between them.
pub open spec fn pixel_text(p: Pixel) -> Seq<u8> {
    decimal(p.0 as int) + seq![32u8] + decimal(p.1 as int) + seq![32u8] + decimal(p.2 as int)
        + seq![10u8]
}

/// The lines of the first `n` of `pixels`.
pub open spec fn pixels_text(pixels: Seq<Pixel>, n: int) -> Seq<u8>
    decreases n,
{
    if n <= 0 {
        Seq::empty()
    } else {
        pixels_text(pixels, n - 1) + pixel_text(pixels[n - 1])
    }
}

/// The first `n` of `rows`, one after the other.
pub open spec fn joined(rows: Seq<Vec<Pixel>>, n: int) -> Seq<Pixel>
    decreases n,
{
    if n <= 0 {
        Seq::empty()
    } else {
        joined(rows, n - 1) + rows[n - 1]@
    }
}

/// The scanline that is rendered for line `line` of an image of `image_height`
/// lines: lines run from top to bottom, scanlines from bottom to top.
pub fn scanline(line: usize, image_height: usize) -> (j: usize)
    requires
        line < image_height,
    ensures
        j == image_height - 1 - line,
{
    image_height - 1 - line
}

/// The pixels of an image from its rows, in row order.
pub fn assemble(rows: &Vec<Vec<Pixel>>) -> (out: Vec<Pixel>)
    ensures
        out@ == joined(rows@, rows@.len() as int),
{
    let mut out: Vec<Pixel> = Vec::new();
    let mut r: usize = 0;
    while r < rows.len()
        invariant
            0 <= r <= rows.len(),
            out@ == joined(rows@, r as int),
        decreases rows.len() - r,
    {
        let row = &rows[r];
        let mut i: usize = 0;
        while i < row.len()
            invariant
                0 <= i <= row.len(),
                r < rows.len(),
                row == &rows@[r as int],
                out@ == joined(rows@, r as int) + row@.take(i as int),
            decreases row.len() - i,
        {
            out.push(row[i]);
            assert(row@.take(i + 1) =~= row@.take(i as int).push(row@[i as int]));
            assert(out@ =~= joined(rows@, r as int) + row@.take(i + 1));
            i += 1;
        }
        assert(row@.take(row@.len() as int) =~= row@);
        r += 1;
    }
    out
}

/// Appends the decimal digits of `n`.
fn push_digits(out: &mut Vec<u8>, n: u64)
    ensures
        final(out)@ == old(out)@ + digits(n as nat),
    decreases n,
{
    if n >= 10 {
        push_digits(out, n / 10);
    }
    out.push((48 + n % 10) as u8);
    assert(out@ =~= old(out)@ + digits(n as nat));
}

/// Appends the decimal text of `n`.
fn push_decimal(out: &mut Vec<u8>, n: i32)
    ensures
        final(out)@ == old(out)@ + decimal(n as int),
{
    if n < 0 {
        out.push(45u8);
        let m: u64 = (-(n as i64)) as u64;
        push_digits(out, m);
        assert(out@ =~= old(out)@ + decimal(n as int));
    } else {
        push_digits(out, n as u64);
    }
}

/// The header of the text form of an image of `width` by `height` pixels.
pub fn ppm_header(width: i32, height: i32) -> (out: Vec<u8>)
    ensures
        out@ == header_text(width, height),
{
    let mut out: Vec<u8> = Vec::new();
    out.push(80u8);
    out.push(51u8);
    out.push(10u8);
    assert(out@ =~= seq![80u8, 51u8, 10u8]);
    push_decimal(&mut out, width);
    out.push(32u8);
    push_decimal(&mut out, height);
    out.push(10u8);
    out.push(50u8);
    out.push(53u8);
    out.push(53u8);
    out.push(10u8);
    assert(out@ =~= header_text(width, height));
    out
}

/// Appends the line of one pixel.
pub fn push_pixel(out: &mut Vec<u8>, pixel: &Pixel)
    ensures
        final(out)@ == old(out)@ + pixel_text(*pixel),
{
    push_decimal(out, pixel.0);
    out.push(32u8);
    push_decimal(out, pixel.1);
    out.push(32u8);
    push_decimal(out, pixel.2);
    out.push(10u8);
    assert(out@ =~= old(out)@ + pixel_text(*pixel));
}

/// The text form of an image: the header, then one line for each pixel, in the
/// order of `pixels`.
pub fn ppm(width: i32, height: i32, pixels: &Vec<Pixel>) -> (out: Vec<u8>)
    ensures
        out@ == header_text(width, height) + pixels_text(pixels@, pixels@.len() as int),
{
    let mut out = ppm_header(width, height);
    let mut i: usize = 0;
    assert(out@ =~= header_text(width, height) + pixels_text(pixels@, 0));
    while i < pixels.len()
        invariant
            0 <= i <= pixels.len(),
            out@ == header_text(width, height) + pixels_text(pixels@, i as int),
        decreases pixels.len() - i,
    {
        push_pixel(&mut out, &pixels[i]);
        assert(out@ =~= header_text(width, height) + pixels_text(pixels@, i + 1));
        i += 1;
    }
    out
}

/// The rows of an image hold, joined, the pixel of row `r` and column `i` at
/// `r * width + i`, where every row has `width` pixels.
pub proof fn lemma_joined_index(rows: Seq<Vec<Pixel>>, width: int, n: int, r: int, i: int)
    requires
        0 <= r < n <= rows.len(),
        0 <= i < width,
        forall|k: int| 0 <= k < n ==> (#[trigger] rows[k])@.len() == width,
    ensures
        joined(rows, n).len() == n * width,
        joined(rows, n)[r * width + i] == rows[r]@[i],
    decreases n,
{
    lemma_joined_len(rows, width, n - 1);
    assert((n - 1) * width + width == n * width) by (nonlinear_arith);
    if r < n - 1 {
        lemma_joined_index(rows, width, n - 1, r, i);
        assert(r * width + i < (n - 1) * width) by (nonlinear_arith)
            requires
                0 <= r < n - 1,
                0 <= i < width,
        ;
    } else {
        assert(r * width + i - (n - 1) * width == i) by (nonlinear_arith)
            requires
                r == n - 1,
        ;
    }
}

/// Joined rows of `width` pixels each have `n * width` pixels.
pub proof fn lemma_joined_len(rows: Seq<Vec<Pixel>>, width: int, n: int)
    requires
        0 <= n <= rows.len(),
        forall|k: int| 0 <= k < n ==> (#[trigger] rows[k])@.len() == width,
    ensures
        joined(rows, n).len() == n * width,
    decreases n,
{
    if n > 0 {
        lemma_joined_len(rows, width, n - 1);
        assert((n - 1) * width + width == n * width) by (nonlinear_arith);
        assert(rows[n - 1]@.len() == width);
        assert(joined(rows, n).len() == joined(rows, n - 1).len() + width);
    } else {
        assert(joined(rows, n).len() == 0);
        assert(n * width == 0) by (nonlinear_arith)
            requires
                n == 0,
        ;
    }
}

} // verus!
