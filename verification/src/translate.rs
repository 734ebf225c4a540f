//! A primitive moved by an offset.

use crate::aabb::AABB;
use crate::hittable::{HitRecord, Hittable};
use crate::ray::Ray;
use crate::scalar::Scalar;
use crate::vec3::Vec3;
use vstd::prelude::*;

verus! {

/// The primitive `hitable`, moved by `offset`.
pub struct Translate<H: Hittable> {
    pub hitable: H,
    pub offset: Vec3,
}

/// Carries the two values that a translated query depends on: the origin of the
/// moved ray and the answer of the wrapped primitive.
pub open spec fn moved(origin: Vec3, inner: Option<HitRecord>) -> bool {
    true
}

/// Carries the two corners of a moved box.
pub open spec fn moved_box(min: Vec3, max: Vec3) -> bool {
    true
}

impl<H: Hittable> Translate<H> {
    pub fn new(hitable: H, offset: Vec3) -> (t: Translate<H>)
        ensures
            t.hitable == hitable,
            t.offset == offset,
    {
        Translate { hitable, offset }
    }

    /// The nearest intersection with the moved primitive. `minus` and `plus`
    /// subtract and add vectors.
    ///
    /// The wrapped primitive is asked about the ray whose origin is the given
    /// ray's less the offset, with the same direction and time. Of its record, the
    /// point is replaced by the point plus the offset; the normal and everything
    /// else stay as they are.
    pub fn hit<M: Fn(&Vec3, &Vec3) -> Vec3, P: Fn(&Vec3, &Vec3) -> Vec3>(
        &self,
        ray: &Ray,
        t_min: Scalar,
        t_max: Scalar,
        minus: &M,
        plus: &P,
    ) -> (out: Option<HitRecord>)
        requires
            forall|a: &Vec3, b: &Vec3| minus.requires((a, b)),
            forall|a: &Vec3, b: &Vec3| plus.requires((a, b)),
        ensures
            exists|origin: Vec3, inner: Option<HitRecord>|
                {
                    &&& #[trigger] moved(origin, inner)
                    &&& minus.ensures((&ray.orig, &self.offset), origin)
                    &&& self.hitable.hit_allows(
                        Ray { orig: origin, dir: ray.dir, time: ray.time },
                        t_min,
                        t_max,
                        inner,
                    )
                    &&& match inner {
                        None => out is None,
                        Some(h) => out matches Some(o) && plus.ensures((&h.p, &self.offset), o.p)
                            && o == (HitRecord { p: o.p, ..h }),
                    }
                },
    {
        let origin = minus(ray.origin(), &self.offset);
        let moved_ray = Ray::new(origin, *ray.direction(), ray.time());
        let inner = self.hitable.hit(&moved_ray, t_min, t_max);
        assert(moved(origin, inner));
        match inner {
            Some(h) => {
                let p = plus(&h.p, &self.offset);
                Some(
                    HitRecord {
                        p,
                        normal: h.normal,
                        material: h.material,
                        t: h.t,
                        u: h.u,
                        v: h.v,
                        front_face: h.front_face,
                    },
                )
            },
            None => None,
        }
    }

    /// The box of the wrapped primitive, both corners plus the offset.
    pub fn bounding_box<P: Fn(&Vec3, &Vec3) -> Vec3>(&self, t0: Scalar, t1: Scalar, plus: &P) -> (out: Option<
        AABB,
    >)
        requires
            forall|a: &Vec3, b: &Vec3| plus.requires((a, b)),
        ensures
            out is None ==> self.hitable.box_allows(t0, t1, None),
            out matches Some(b) ==> exists|min: Vec3, max: Vec3|
                {
                    &&& #[trigger] moved_box(min, max)
                    &&& self.hitable.box_allows(t0, t1, Some(AABB { min, max }))
                    &&& plus.ensures((&min, &self.offset), b.min)
                    &&& plus.ensures((&max, &self.offset), b.max)
                },
    {
        match self.hitable.bounding_box(t0, t1) {
            Some(b) => {
                assert(moved_box(b.min, b.max));
                let min = plus(&b.min, &self.offset);
                let max = plus(&b.max, &self.offset);
                Some(AABB { min, max })
            },
            None => None,
        }
    }
}

} // verus!
