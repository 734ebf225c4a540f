//! Axis-aligned rectangles: which axes a rectangle spans, whether a crossing of its
//! plane falls on it, and the box around it.

use crate::aabb::AABB;
use crate::hittable::{faces_front, facing_normal, pdf_value_of, HitRecord, T_MIN_BITS};
use crate::scalar::Scalar;
use crate::vec3::{Point3, Vec3};
use vstd::prelude::*;

verus! {

/// The coordinate plane that a rectangle is parallel to.
#[derive(Clone, Copy, Debug, PartialEq, Eq, Structural)]
pub enum Plane {
    YZ,
    ZX,
    XY,
}

/// The axes of a plane as `(k, a, b)`: the axis on which the plane is fixed, then
/// the two axes that it spans, in the order of the rectangle's extents.
pub open spec fn axes_of(plane: Plane) -> (int, int, int) {
    match plane {
        Plane::YZ => (0, 1, 2),
        Plane::ZX => (1, 2, 0),
        Plane::XY => (2, 0, 1),
    }
}

/// The axes of a plane as `(k, a, b)`.
pub fn get_axis(plane: &Plane) -> (axes: (usize, usize, usize))
    ensures
        axes.0 == axes_of(*plane).0,
        axes.1 == axes_of(*plane).1,
        axes.2 == axes_of(*plane).2,
{
    match plane {
        Plane::YZ => (0, 1, 2),
        Plane::ZX => (1, 2, 0),
        Plane::XY => (2, 0, 1),
    }
}

/// The three axes of a plane are the three axes of space, each once.
pub proof fn lemma_axes_are_a_permutation(plane: Plane)
    ensures
        0 <= axes_of(plane).0 < 3,
        0 <= axes_of(plane).1 < 3,
        0 <= axes_of(plane).2 < 3,
        axes_of(plane).0 != axes_of(plane).1,
        axes_of(plane).1 != axes_of(plane).2,
        axes_of(plane).0 != axes_of(plane).2,
        axes_of(plane).1 == (axes_of(plane).0 + 1) % 3,
        axes_of(plane).2 == (axes_of(plane).0 + 2) % 3,
{
}

/// The rectangle `[a0, a1] x [b0, b1]` in the plane where the fixed axis has the
/// value `k`, with the handle of its material.
#[derive(Clone, Copy, Debug)]
pub struct AARect {
    pub plane: Plane,
    pub a0: Scalar,
    pub a1: Scalar,
    pub b0: Scalar,
    pub b1: Scalar,
    pub k: Scalar,
    pub material: usize,
}

/// Where a ray crosses the plane of a rectangle.
///
/// `t` is the ray parameter of the crossing, `p` the point, `a` and `b` the point's
/// coordinates on the two axes that the plane spans, `u` and `v` the same
/// coordinates scaled to the rectangle's extents, and `facing` the dot product of
/// the ray's direction with the rectangle's outward normal.
#[derive(Clone, Copy, Debug)]
pub struct PlaneCrossing {
    pub t: Scalar,
    pub a: Scalar,
    pub b: Scalar,
    pub u: Scalar,
    pub v: Scalar,
    pub p: Point3,
    pub facing: Scalar,
}

impl AARect {
    /// The unit vector along the fixed axis.
    pub open spec fn normal(self) -> Vec3 {
        Vec3(Scalar { bits: 0 }, Scalar { bits: 0 }, Scalar { bits: 0 }).with_component(
            axes_of(self.plane).0,
            Scalar { bits: 0x3ff0_0000_0000_0000 },
        )
    }

    /// Whether a crossing at ray parameter `t` and plane coordinates `(a, b)` is a
    /// hit: `t` lies in the query's span and the point within the rectangle's
    /// extents, ends included. A crossing with a NaN for `t`, `a` or `b` is none.
    pub open spec fn accepts(self, t_min: Scalar, t_max: Scalar, t: Scalar, a: Scalar, b: Scalar) -> bool {
        &&& t_min.at_most(t) && t.at_most(t_max)
        &&& self.a0.at_most(a) && a.at_most(self.a1)
        &&& self.b0.at_most(b) && b.at_most(self.b1)
    }

    /// The box with the rectangle's extents on the two spanned axes, reaching from
    /// `k_below` to `k_above` on the fixed axis.
    pub open spec fn slab_box(self, k_below: Scalar, k_above: Scalar) -> AABB {
        let (k, a, b) = axes_of(self.plane);
        let zero = Vec3(Scalar { bits: 0 }, Scalar { bits: 0 }, Scalar { bits: 0 });
        AABB {
            min: zero.with_component(a, self.a0).with_component(b, self.b0).with_component(
                k,
                k_below,
            ),
            max: zero.with_component(a, self.a1).with_component(b, self.b1).with_component(
                k,
                k_above,
            ),
        }
    }

    pub fn new(
        plane: Plane,
        a0: Scalar,
        a1: Scalar,
        b0: Scalar,
        b1: Scalar,
        k: Scalar,
        material: usize,
    ) -> (rect: AARect)
        ensures
            rect == (AARect { plane, a0, a1, b0, b1, k, material }),
    {
        AARect { plane, a0, a1, b0, b1, k, material }
    }

    /// The unit vector along the fixed axis: the rectangle's outward normal.
    pub fn outward_normal(&self) -> (n: Vec3)
        ensures
            n == self.normal(),
    {
        match self.plane {
            Plane::YZ => Vec3::new(Scalar::one(), Scalar::zero(), Scalar::zero()),
            Plane::ZX => Vec3::new(Scalar::zero(), Scalar::one(), Scalar::zero()),
            Plane::XY => Vec3::new(Scalar::zero(), Scalar::zero(), Scalar::one()),
        }
    }

    /// The hit that a crossing of the rectangle's plane amounts to, between `t_min`
    /// and `t_max`: the record of the crossing where it lies in that span and on
    /// the rectangle, else none. A ray that runs in the plane has no crossing that
    /// is a number, and does not hit.
    pub fn hit(&self, t_min: Scalar, t_max: Scalar, crossing: &PlaneCrossing) -> (out: Option<HitRecord>)
        ensures
            out is Some <==> self.accepts(t_min, t_max, crossing.t, crossing.a, crossing.b),
            out matches Some(rec) ==> rec == (HitRecord {
                p: crossing.p,
                normal: facing_normal(crossing.facing, self.normal()),
                material: self.material,
                t: crossing.t,
                u: crossing.u,
                v: crossing.v,
                front_face: faces_front(crossing.facing),
            }),
    {
        let t = crossing.t;
        if !(t.ge(t_min) && t.le(t_max)) {
            return None;
        }
        let a = crossing.a;
        let b = crossing.b;
        if !(a.ge(self.a0) && a.le(self.a1) && b.ge(self.b0) && b.le(self.b1)) {
            None
        } else {
            Some(
                HitRecord::new(
                    crossing.p,
                    self.material,
                    t,
                    crossing.u,
                    crossing.v,
                    crossing.facing,
                    self.outward_normal(),
                ),
            )
        }
    }

    /// The hit that `pdf_value` asks for: that of the crossing from `0.001` up to
    /// the largest finite number.
    pub open spec fn seen(self, crossing: PlaneCrossing) -> Option<HitRecord> {
        if self.accepts(
            Scalar { bits: T_MIN_BITS },
            Scalar { bits: 0x7fef_ffff_ffff_ffff },
            crossing.t,
            crossing.a,
            crossing.b,
        ) {
            Some(
                HitRecord {
                    p: crossing.p,
                    normal: facing_normal(crossing.facing, self.normal()),
                    material: self.material,
                    t: crossing.t,
                    u: crossing.u,
                    v: crossing.v,
                    front_face: faces_front(crossing.facing),
                },
            )
        } else {
            None
        }
    }

    /// The density with which directions toward the rectangle are drawn, at the
    /// direction of a ray with the given crossing of the rectangle's plane: zero
    /// where the ray misses the rectangle, else what `density` computes from the
    /// hit.
    pub fn pdf_value<F: Fn(&HitRecord) -> Scalar>(&self, crossing: &PlaneCrossing, density: &F) -> (out:
        Scalar)
        requires
            forall|rec: &HitRecord| density.requires((rec,)),
        ensures
            match self.seen(*crossing) {
                Some(rec) => density.ensures((&rec,), out),
                None => out == (Scalar { bits: 0 }),
            },
    {
        let hit = self.hit(Scalar { bits: T_MIN_BITS }, Scalar::max_finite(), crossing);
        pdf_value_of(&hit, density)
    }

    /// The box around the rectangle, given the two values `k_below` and `k_above`
    /// between which it is to reach on the fixed axis (the rectangle has no
    /// thickness of its own there).
    pub fn bounding_box(&self, k_below: Scalar, k_above: Scalar) -> (out: Option<AABB>)
        ensures
            out == Some(self.slab_box(k_below, k_above)),
    {
        let (k_axis, a_axis, b_axis) = get_axis(&self.plane);
        let mut min = Vec3::default();
        let mut max = Vec3::default();
        min.set(a_axis, self.a0);
        min.set(b_axis, self.b0);
        min.set(k_axis, k_below);
        max.set(a_axis, self.a1);
        max.set(b_axis, self.b1);
        max.set(k_axis, k_above);
        Some(AABB { min, max })
    }
}

/// A hit lies in the span of the query and on the rectangle, and none of the three
/// numbers that decide it is a NaN.
pub proof fn lemma_accepted_crossing_is_a_number(
    rect: AARect,
    t_min: Scalar,
    t_max: Scalar,
    t: Scalar,
    a: Scalar,
    b: Scalar,
)
    requires
        rect.accepts(t_min, t_max, t, a, b),
    ensures
        !t.nan(),
        !a.nan(),
        !b.nan(),
        !t.less(t_min) && !t_max.less(t),
        !a.less(rect.a0) && !rect.a1.less(a),
        !b.less(rect.b0) && !rect.b1.less(b),
{
}

} // verus!
