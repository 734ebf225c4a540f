//! Orthonormal bases around a normal.

use crate::scalar::Scalar;
use crate::vec3::Vec3;
use vstd::prelude::*;

verus! {

/// Bit pattern of `0.9`: a unit normal whose first component is larger in absolute
/// value counts as too close to the first axis.
pub const NEAR_AXIS_BITS: u64 = 0x3fec_cccc_cccc_cccd;

/// Three axes `u`, `v`, `w` of a local frame.
#[derive(Clone, Copy, Debug)]
pub struct ONB {
    pub axis: [Vec3; 3],
}

/// The axis that is crossed with the unit normal `w` to start the frame: the second
/// axis of space where `w` is close to the first one, else the first.
pub open spec fn helper_of(w: Vec3) -> Vec3 {
    if (Scalar { bits: NEAR_AXIS_BITS }).less(w.0.absolute()) {
        Vec3(Scalar { bits: 0 }, Scalar { bits: 0x3ff0_0000_0000_0000 }, Scalar { bits: 0 })
    } else {
        Vec3(Scalar { bits: 0x3ff0_0000_0000_0000 }, Scalar { bits: 0 }, Scalar { bits: 0 })
    }
}

/// Carries the four vectors that building a frame computes: the unit normal, the
/// product that gives the second axis, the second axis and the first.
pub open spec fn frame(w: Vec3, raw: Vec3, v: Vec3, u: Vec3) -> bool {
    true
}

/// Whether `onb` is a frame that `build_from_w` may return for the normal `n`.
///
/// The third axis is what `unit` makes of `n`; the second is what `unit` makes of
/// the cross product of the third with the helper axis; the first is the cross
/// product of the third with the second.
pub open spec fn frame_allows<U: Fn(&Vec3) -> Vec3, C: Fn(&Vec3, &Vec3) -> Vec3>(
    n: Vec3,
    unit: U,
    cross: C,
    onb: ONB,
) -> bool {
    exists|w: Vec3, raw: Vec3, v: Vec3, u: Vec3|
        #![trigger frame(w, raw, v, u)]
        {
            &&& frame(w, raw, v, u)
            &&& unit.ensures((&n,), w)
            &&& cross.ensures((&w, &helper_of(w)), raw)
            &&& unit.ensures((&raw,), v)
            &&& cross.ensures((&w, &v), u)
            &&& onb.axis@ == seq![u, v, w]
        }
}

impl ONB {
    /// The frame around the normal `n`. `unit` scales a vector to length 1, and
    /// `cross` is the cross product.
    pub fn build_from_w<U: Fn(&Vec3) -> Vec3, C: Fn(&Vec3, &Vec3) -> Vec3>(n: &Vec3, unit: &U, cross: &C) -> (onb:
        ONB)
        requires
            forall|a: &Vec3| unit.requires((a,)),
            forall|a: &Vec3, b: &Vec3| cross.requires((a, b)),
        ensures
            frame_allows(*n, *unit, *cross, onb),
    {
        let w = unit(n);
        let a = ONB::helper_axis(&w);
        let raw = cross(&w, &a);
        let v = unit(&raw);
        let u = cross(&w, &v);
        assert(frame(w, raw, v, u));
        ONB::from_axes(u, v, w)
    }

    /// The frame with the given axes.
    pub fn from_axes(u: Vec3, v: Vec3, w: Vec3) -> (onb: ONB)
        ensures
            onb.axis@ == seq![u, v, w],
    {
        let onb = ONB { axis: [u, v, w] };
        assert(onb.axis@ =~= seq![u, v, w]);
        onb
    }

    /// The axis to cross the unit normal `w` with.
    pub fn helper_axis(w: &Vec3) -> (a: Vec3)
        ensures
            a == helper_of(*w),
    {
        if w.x().abs().gt(Scalar { bits: NEAR_AXIS_BITS }) {
            Vec3::new(Scalar::zero(), Scalar::one(), Scalar::zero())
        } else {
            Vec3::new(Scalar::one(), Scalar::zero(), Scalar::zero())
        }
    }

    pub fn u(&self) -> (a: Vec3)
        ensures
            a == self.axis@[0],
    {
        self.axis[0]
    }

    pub fn v(&self) -> (a: Vec3)
        ensures
            a == self.axis@[1],
    {
        self.axis[1]
    }

    pub fn w(&self) -> (a: Vec3)
        ensures
            a == self.axis@[2],
    {
        self.axis[2]
    }
}

} // verus!
