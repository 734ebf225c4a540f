//! Triples of scalars: points, directions and colours.

use crate::scalar::Scalar;
use vstd::prelude::*;

verus! {

/// Bit pattern of `1e-8`, below which a component counts as zero.
pub const NEAR_ZERO_BITS: u64 = 0x3e45_798e_e230_8c3a;

/// A triple of scalars.
#[derive(Clone, Copy, Debug)]
pub struct Vec3(pub Scalar, pub Scalar, pub Scalar);

/// A position in space.
pub type Point3 = Vec3;

/// Red, green and blue.
pub type Color = Vec3;

impl Vec3 {
    /// Component `i`, counted from 0.
    pub open spec fn component(self, i: int) -> Scalar {
        if i == 0 {
            self.0
        } else if i == 1 {
            self.1
        } else {
            self.2
        }
    }

    /// The triple with component `i` replaced by `s`.
    pub open spec fn with_component(self, i: int, s: Scalar) -> Vec3 {
        if i == 0 {
            Vec3(s, self.1, self.2)
        } else if i == 1 {
            Vec3(self.0, s, self.2)
        } else {
            Vec3(self.0, self.1, s)
        }
    }

    /// The triple with every sign flipped.
    pub open spec fn negated(self) -> Vec3 {
        Vec3(self.0.negated(), self.1.negated(), self.2.negated())
    }

    /// Whether every component is smaller than `1e-8` in absolute value.
    pub open spec fn tiny(self) -> bool {
        let s = Scalar { bits: NEAR_ZERO_BITS };
        self.0.absolute().less(s) && self.1.absolute().less(s) && self.2.absolute().less(s)
    }

    pub fn new(x: Scalar, y: Scalar, z: Scalar) -> (v: Vec3)
        ensures
            v == Vec3(x, y, z),
    {
        Vec3(x, y, z)
    }

    pub fn x(&self) -> (s: Scalar)
        ensures
            s == self.0,
    {
        self.0
    }

    pub fn y(&self) -> (s: Scalar)
        ensures
            s == self.1,
    {
        self.1
    }

    pub fn z(&self) -> (s: Scalar)
        ensures
            s == self.2,
    {
        self.2
    }

    /// Component `i`.
    pub fn get(&self, i: usize) -> (s: Scalar)
        requires
            i < 3,
        ensures
            s == self.component(i as int),
    {
        if i == 0 {
            self.0
        } else if i == 1 {
            self.1
        } else {
            self.2
        }
    }

    /// Replaces component `i` by `s`.
    pub fn set(&mut self, i: usize, s: Scalar)
        requires
            i < 3,
        ensures
            *final(self) == old(self).with_component(i as int, s),
    {
        if i == 0 {
            self.0 = s;
        } else if i == 1 {
            self.1 = s;
        } else {
            self.2 = s;
        }
    }

    /// Overwrites `self` with `v`.
    pub fn assign(&mut self, v: &Vec3)
        ensures
            *final(self) == *v,
    {
        self.0 = v.0;
        self.1 = v.1;
        self.2 = v.2;
    }

    /// Whether the vector is close to zero in all dimensions.
    pub fn near_zero(&self) -> (r: bool)
        ensures
            r == self.tiny(),
    {
        let s = Scalar { bits: NEAR_ZERO_BITS };
        self.0.abs().lt(s) && self.1.abs().lt(s) && self.2.abs().lt(s)
    }

    /// The opposite vector.
    pub fn neg(&self) -> (v: Vec3)
        ensures
            v == self.negated(),
    {
        Vec3(self.0.neg(), self.1.neg(), self.2.neg())
    }
}

impl Default for Vec3 {
    fn default() -> (v: Vec3)
        ensures
            v == Vec3(Scalar { bits: 0 }, Scalar { bits: 0 }, Scalar { bits: 0 }),
    {
        Vec3(Scalar::zero(), Scalar::zero(), Scalar::zero())
    }
}

} // verus!
