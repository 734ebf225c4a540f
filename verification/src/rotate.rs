//! A primitive turned about a principal axis.

use crate::aabb::{enclosing, hull, AABB};
use crate::hittable::{HitRecord, Hittable};
use crate::ray::Ray;
use crate::scalar::Scalar;
use crate::vec3::Vec3;
use vstd::prelude::*;

verus! {

/// The axis of a rotation.
#[derive(Clone, Copy, Debug, PartialEq, Eq, Structural)]
pub enum Axis {
    X,
    Y,
    Z,
}

/// The primitive `hitable`, turned about `axis` by the angle whose sine and cosine
/// are `sin_theta` and `cos_theta`. `bounds` is the box around the turned
/// primitive, computed once when the wrapper is made.
pub struct Rotate<H: Hittable> {
    pub hitable: H,
    pub axis: Axis,
    pub sin_theta: Scalar,
    pub cos_theta: Scalar,
    pub bounds: Option<AABB>,
}

/// Carries the three values that a rotated query depends on: the origin and the
/// direction of the ray in the primitive's own space, and the answer of the
/// wrapped primitive.
pub open spec fn turned(origin: Vec3, direction: Vec3, inner: Option<HitRecord>) -> bool {
    true
}

/// Whether `points` are the images under `turn` of the `n` first of `corners`.
pub open spec fn images<F: Fn(&Vec3) -> Vec3>(turn: F, corners: Seq<Vec3>, points: Seq<Vec3>, n: int) -> bool {
    &&& points.len() == n
    &&& forall|i: int| 0 <= i < n ==> turn.ensures((&corners[i],), #[trigger] points[i])
}

impl<H: Hittable> Rotate<H> {
    /// Wraps `hitable`. `turn` rotates a point from the primitive's own space into
    /// the scene.
    ///
    /// The box of the wrapper is the smallest box around the eight turned corners
    /// of the box that `hitable` has for the time from 0 to 1; it has none where
    /// `hitable` has none.
    pub fn new<F: Fn(&Vec3) -> Vec3>(
        axis: Axis,
        hitable: H,
        sin_theta: Scalar,
        cos_theta: Scalar,
        turn: &F,
    ) -> (r: Rotate<H>)
        requires
            forall|p: &Vec3| turn.requires((p,)),
        ensures
            r.hitable == hitable,
            r.axis == axis,
            r.sin_theta == sin_theta,
            r.cos_theta == cos_theta,
            r.bounds is None ==> hitable.box_allows(
                Scalar { bits: 0 },
                Scalar { bits: 0x3ff0_0000_0000_0000 },
                None,
            ),
            r.bounds matches Some(b) ==> exists|inner: AABB, points: Seq<Vec3>|
                {
                    &&& #[trigger] images(*turn, inner.corner_list(), points, 8)
                    &&& hitable.box_allows(
                        Scalar { bits: 0 },
                        Scalar { bits: 0x3ff0_0000_0000_0000 },
                        Some(inner),
                    )
                    &&& b == hull(points, 8)
                },
    {
        let bounds = match hitable.bounding_box(Scalar::zero(), Scalar::one()) {
            Some(inner) => {
                let corners = inner.corners();
                let mut points: Vec<Vec3> = Vec::with_capacity(8);
                let mut i: usize = 0;
                while i < 8
                    invariant
                        0 <= i <= 8,
                        corners@.len() == 8,
                        forall|p: &Vec3| turn.requires((p,)),
                        images(*turn, corners@, points@, i as int),
                    decreases 8 - i,
                {
                    let p = turn(&corners[i]);
                    points.push(p);
                    i += 1;
                }
                let b = enclosing(&points);
                assert(images(*turn, inner.corner_list(), points@, 8));
                Some(b)
            },
            None => None,
        };
        Rotate { hitable, axis, sin_theta, cos_theta, bounds }
    }

    /// The nearest intersection with the turned primitive. `turn_back` rotates a
    /// vector from the scene into the primitive's own space, `turn` rotates one
    /// from there into the scene.
    ///
    /// The wrapped primitive is asked about the ray whose origin and direction are
    /// the given ray's, turned back. Of its record, the point and the normal are
    /// turned into the scene; everything else stays as it is.
    pub fn hit<B: Fn(&Vec3) -> Vec3, F: Fn(&Vec3) -> Vec3>(
        &self,
        ray: &Ray,
        t_min: Scalar,
        t_max: Scalar,
        turn_back: &B,
        turn: &F,
    ) -> (out: Option<HitRecord>)
        requires
            forall|p: &Vec3| turn_back.requires((p,)),
            forall|p: &Vec3| turn.requires((p,)),
        ensures
            exists|origin: Vec3, direction: Vec3, inner: Option<HitRecord>|
                {
                    &&& #[trigger] turned(origin, direction, inner)
                    &&& turn_back.ensures((&ray.orig,), origin)
                    &&& turn_back.ensures((&ray.dir,), direction)
                    &&& self.hitable.hit_allows(
                        Ray { orig: origin, dir: direction, time: ray.time },
                        t_min,
                        t_max,
                        inner,
                    )
                    &&& match inner {
                        None => out is None,
                        Some(h) => out matches Some(o) && turn.ensures((&h.p,), o.p) && turn.ensures(
                            (&h.normal,),
                            o.normal,
                        ) && o == (HitRecord { p: o.p, normal: o.normal, ..h }),
                    }
                },
    {
        let origin = turn_back(ray.origin());
        let direction = turn_back(ray.direction());
        let turned_ray = Ray::new(origin, direction, ray.time());
        let inner = self.hitable.hit(&turned_ray, t_min, t_max);
        assert(turned(origin, direction, inner));
        match inner {
            Some(h) => {
                let p = turn(&h.p);
                let normal = turn(&h.normal);
                Some(
                    HitRecord {
                        p,
                        normal,
                        material: h.material,
                        t: h.t,
                        u: h.u,
                        v: h.v,
                        front_face: h.front_face,
                    },
                )
            },
            None => None,
        }
    }

    /// The box that was computed when the wrapper was made.
    pub fn bounding_box(&self, _t0: Scalar, _t1: Scalar) -> (out: Option<AABB>)
        ensures
            out == self.bounds,
    {
        self.bounds
    }
}

} // verus!
