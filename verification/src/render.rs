//! The unit of work of the renderer: one row of pixels, each the encoded sum of
//! its samples.

use crate::color::{color_allows, get_color};
use crate::image::Pixel;
use crate::material::black;
use crate::scalar::Scalar;
use crate::vec3::{Color, Vec3};
use vstd::prelude::*;

verus! {

/// Carries the two values that a step of the accumulation depends on: the sum so
/// far and the next sample.
pub open spec fn term(sum: Color, sample: Color) -> bool {
    true
}

/// Whether `total` may be the sum of `n` samples of the pixel in column `i` of
/// scanline `j`: black for no sample, else what `plus` makes of the sum of the
/// samples before and one more sample.
pub open spec fn sum_allows<S: Fn(usize, usize) -> Color, A: Fn(&Color, &Color) -> Color>(
    i: usize,
    j: usize,
    n: int,
    sample: S,
    plus: A,
    total: Color,
) -> bool
    decreases n,
{
    if n <= 0 {
        total == black()
    } else {
        exists|sum: Color, one: Color|
            #![trigger term(sum, one)]
            {
                &&& term(sum, one)
                &&& sum_allows(i, j, n - 1, sample, plus, sum)
                &&& sample.ensures((i, j), one)
                &&& plus.ensures((&sum, &one), total)
            }
    }
}

/// Whether `pixel` may be the pixel in column `i` of scanline `j`: the encoding of
/// a sum of `samples_per_pixel` samples.
pub open spec fn pixel_allows<
    S: Fn(usize, usize) -> Color,
    A: Fn(&Color, &Color) -> Color,
    G: Fn(Scalar, i32) -> Scalar,
>(i: usize, j: usize, samples_per_pixel: i32, sample: S, plus: A, gamma: G, pixel: Pixel) -> bool {
    exists|total: Color| #[trigger]
        sum_allows(i, j, samples_per_pixel as int, sample, plus, total) && color_allows(
            total,
            samples_per_pixel,
            gamma,
            pixel,
        )
}

/// The pixel in column `i` of scanline `j`: `samples_per_pixel` samples are taken
/// and added up, and the sum is encoded. `sample` takes one sample of a pixel,
/// `plus` adds two colours, and `gamma` corrects a channel of the sum.
pub fn render_pixel<
    S: Fn(usize, usize) -> Color,
    A: Fn(&Color, &Color) -> Color,
    G: Fn(Scalar, i32) -> Scalar,
>(i: usize, j: usize, samples_per_pixel: i32, sample: &S, plus: &A, gamma: &G) -> (pixel: Pixel)
    requires
        forall|x: usize, y: usize| sample.requires((x, y)),
        forall|a: &Color, b: &Color| plus.requires((a, b)),
        forall|c: Scalar, n: i32| gamma.requires((c, n)),
    ensures
        pixel_allows(i, j, samples_per_pixel, *sample, *plus, *gamma, pixel),
        0 <= pixel.0 <= 255,
        0 <= pixel.1 <= 255,
        0 <= pixel.2 <= 255,
{
    let mut pixel_color = Vec3::default();
    let mut n: i32 = 0;
    while n < samples_per_pixel
        invariant
            0 <= n,
            n <= samples_per_pixel || n == 0,
            forall|x: usize, y: usize| sample.requires((x, y)),
            forall|a: &Color, b: &Color| plus.requires((a, b)),
            sum_allows(i, j, n as int, *sample, *plus, pixel_color),
        decreases samples_per_pixel - n,
    {
        let one = sample(i, j);
        let total = plus(&pixel_color, &one);
        assert(term(pixel_color, one));
        pixel_color = total;
        n += 1;
    }
    assert(sum_allows(i, j, samples_per_pixel as int, *sample, *plus, pixel_color)) by {
        if samples_per_pixel < 0 {
            assert(sum_allows(i, j, 0, *sample, *plus, pixel_color));
        }
    }
    get_color(pixel_color, samples_per_pixel, gamma)
}

/// The pixels of scanline `j`, from the first column to the last.
pub fn render_row<
    S: Fn(usize, usize) -> Color,
    A: Fn(&Color, &Color) -> Color,
    G: Fn(Scalar, i32) -> Scalar,
>(j: usize, image_width: usize, samples_per_pixel: i32, sample: &S, plus: &A, gamma: &G) -> (row: Vec<Pixel>)
    requires
        forall|x: usize, y: usize| sample.requires((x, y)),
        forall|a: &Color, b: &Color| plus.requires((a, b)),
        forall|c: Scalar, n: i32| gamma.requires((c, n)),
    ensures
        row@.len() == image_width,
        forall|i: int|
            0 <= i < image_width ==> pixel_allows(
                i as usize,
                j,
                samples_per_pixel,
                *sample,
                *plus,
                *gamma,
                #[trigger] row@[i],
            ),
{
    let mut row: Vec<Pixel> = Vec::new();
    let mut i: usize = 0;
    while i < image_width
        invariant
            0 <= i <= image_width,
            row@.len() == i,
            forall|x: usize, y: usize| sample.requires((x, y)),
            forall|a: &Color, b: &Color| plus.requires((a, b)),
            forall|c: Scalar, n: i32| gamma.requires((c, n)),
            forall|k: int|
                0 <= k < i ==> pixel_allows(
                    k as usize,
                    j,
                    samples_per_pixel,
                    *sample,
                    *plus,
                    *gamma,
                    #[trigger] row@[k],
                ),
        decreases image_width - i,
    {
        let pixel = render_pixel(i, j, samples_per_pixel, sample, plus, gamma);
        row.push(pixel);
        i += 1;
    }
    row
}

} // verus!
