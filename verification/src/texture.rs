//! Surface colours: the contract of a texture, and the textures whose value is a
//! choice or a lookup.

use crate::perlin::Perlin;
use crate::scalar::Scalar;
use crate::vec3::{Color, Vec3};
use vstd::prelude::*;

verus! {

/// A colour for every place on a surface.
///
/// An implementation says by `value_allows` which colours `value` may return. One
/// that says nothing allows every colour, and nothing is then known of it.
pub trait Texture {
    /// Whether `c` is a colour that `value` may return at surface coordinates
    /// `(u, v)` and point `p`.
    open spec fn value_allows(&self, u: Scalar, v: Scalar, p: Vec3, c: Vec3) -> bool {
        true
    }

    fn value(&self, u: Scalar, v: Scalar, p: &Vec3) -> (c: Vec3)
        ensures
            self.value_allows(u, v, *p, c),
    ;
}

/// One colour everywhere.
#[derive(Clone, Copy, Debug)]
pub struct SolidColor {
    pub color: Vec3,
}

impl SolidColor {
    pub fn new(r: Scalar, g: Scalar, b: Scalar) -> (t: SolidColor)
        ensures
            t.color == Vec3(r, g, b),
    {
        SolidColor { color: Vec3::new(r, g, b) }
    }

    pub fn from_color(c: Color) -> (t: SolidColor)
        ensures
            t.color == c,
    {
        SolidColor { color: Vec3::new(c.x(), c.y(), c.z()) }
    }
}

impl Texture for SolidColor {
    open spec fn value_allows(&self, u: Scalar, v: Scalar, p: Vec3, c: Vec3) -> bool {
        c == self.color
    }

    fn value(&self, u: Scalar, v: Scalar, p: &Vec3) -> (c: Vec3) {
        self.color
    }
}

/// Two textures in a checker pattern.
pub struct CheckerTexture<T: Texture, U: Texture> {
    pub odd: T,
    pub even: U,
}

impl<T: Texture, U: Texture> CheckerTexture<T, U> {
    pub fn new(odd: T, even: U) -> (t: CheckerTexture<T, U>)
        ensures
            t.odd == odd,
            t.even == even,
    {
        CheckerTexture { odd, even }
    }

    /// The colour at a place, given `sines`, the product of the sines of the point's
    /// scaled coordinates: that of `odd` where the product is negative, else that of
    /// `even`.
    pub fn value(&self, sines: Scalar, u: Scalar, v: Scalar, p: &Vec3) -> (c: Vec3)
        ensures
            if sines.less(Scalar { bits: 0 }) {
                self.odd.value_allows(u, v, *p, c)
            } else {
                self.even.value_allows(u, v, *p, c)
            },
    {
        if sines.lt(Scalar::zero()) {
            self.odd.value(u, v, p)
        } else {
            self.even.value(u, v, p)
        }
    }
}

/// Marble-like noise.
pub struct NoiseTexture {
    pub noise: Perlin,
    pub scale: Scalar,
}

impl NoiseTexture {
    pub fn new(noise: Perlin, scale: Scalar) -> (t: NoiseTexture)
        ensures
            t.noise == noise,
            t.scale == scale,
    {
        NoiseTexture { noise, scale }
    }
}

/// An image of `nx` by `ny` pixels, three bytes each, row after row.
pub struct ImageTexture {
    pub data: Vec<u8>,
    pub nx: u32,
    pub ny: u32,
}

impl ImageTexture {
    /// Whether the image is not empty and `data` holds all of its pixels.
    pub open spec fn valid(&self) -> bool {
        &&& self.nx > 0
        &&& self.ny > 0
        &&& self.data@.len() >= 3 * self.nx * self.ny
    }

    /// The column or row nearest to `i` among `0 .. n - 1`.
    pub open spec fn clamped_index(i: int, n: int) -> int {
        if i > n - 1 {
            n - 1
        } else {
            i
        }
    }

    /// Where the pixel of column `i` and row `j` starts in `data`, after both were
    /// clamped to the image.
    pub open spec fn offset(&self, i: int, j: int) -> int {
        3 * Self::clamped_index(i, self.nx as int) + 3 * self.nx * Self::clamped_index(
            j,
            self.ny as int,
        )
    }

    pub fn new(data: Vec<u8>, nx: u32, ny: u32) -> (t: ImageTexture)
        ensures
            t.data == data,
            t.nx == nx,
            t.ny == ny,
    {
        ImageTexture { data, nx, ny }
    }

    /// The three bytes of the pixel in column `i` and row `j`; a column or row
    /// beyond the image counts as the last one.
    pub fn texel(&self, i: usize, j: usize) -> (rgb: (u8, u8, u8))
        requires
            self.valid(),
        ensures
            rgb.0 == self.data@[self.offset(i as int, j as int)],
            rgb.1 == self.data@[self.offset(i as int, j as int) + 1],
            rgb.2 == self.data@[self.offset(i as int, j as int) + 2],
            0 <= self.offset(i as int, j as int),
            self.offset(i as int, j as int) + 2 < self.data@.len(),
    {
        let nx = self.nx as usize;
        let ny = self.ny as usize;
        let mut i = i;
        let mut j = j;
        if i > nx - 1 {
            i = nx - 1
        }
        if j > ny - 1 {
            j = ny - 1
        }
        assert(3 * i + 3 * nx * j + 2 < 3 * nx * ny) by (nonlinear_arith)
            requires
                0 <= i < nx,
                0 <= j < ny,
        ;
        assert(3 * nx * j <= 3 * nx * ny && 3 * nx <= 3 * nx * ny) by (nonlinear_arith)
            requires
                0 <= j < ny,
                0 <= nx,
        ;
        assert(self.data@.len() <= usize::MAX) by {
            assert(self.data.len() == self.data@.len());
        }
        let idx = 3 * i + 3 * nx * j;
        (self.data[idx], self.data[idx + 1], self.data[idx + 2])
    }
}

} // verus!
