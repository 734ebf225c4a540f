//! What a ray can hit: the record of a hit, the contract of a primitive, and the
//! wrapper that turns a surface inside out.

use crate::aabb::AABB;
use crate::ray::Ray;
use crate::scalar::Scalar;
use crate::vec3::{Point3, Vec3};
use vstd::prelude::*;

verus! {

/// What is known of the place where a ray met a surface.
///
/// `normal` always points against the incoming ray; `front_face` tells whether
/// that is the surface's own outward normal. `material` is the handle of the
/// surface's material in the table of materials that the scene keeps.
#[derive(Clone, Copy, Debug)]
pub struct HitRecord {
    pub p: Point3,
    pub normal: Vec3,
    pub material: usize,
    pub t: Scalar,
    pub u: Scalar,
    pub v: Scalar,
    pub front_face: bool,
}

/// Bit pattern of `0.001`: a ray does not hit what is nearer than this, so that a
/// ray that leaves a surface does not hit that surface.
pub const T_MIN_BITS: u64 = 0x3f50_624d_d2f1_a9fc;

/// The density of sampling toward a primitive, at a direction in which a ray
/// either hits it or misses it: zero on a miss, else what `density` computes for
/// the hit.
pub fn pdf_value_of<F: Fn(&HitRecord) -> Scalar>(hit: &Option<HitRecord>, density: &F) -> (out: Scalar)
    requires
        forall|rec: &HitRecord| density.requires((rec,)),
    ensures
        match *hit {
            Some(rec) => density.ensures((&rec,), out),
            None => out == (Scalar { bits: 0 }),
        },
{
    match hit {
        Some(rec) => density(rec),
        None => Scalar::zero(),
    }
}

/// Whether a ray meets a surface from outside, given `facing`, the dot product of
/// the ray's direction with the outward normal.
pub open spec fn faces_front(facing: Scalar) -> bool {
    facing.less(Scalar { bits: 0 })
}

/// The normal that points against the ray.
pub open spec fn facing_normal(facing: Scalar, outward_normal: Vec3) -> Vec3 {
    if faces_front(facing) {
        outward_normal
    } else {
        outward_normal.negated()
    }
}

/// Tells the side from which a ray meets a surface and the normal that points
/// against it. `facing` is the dot product of the ray's direction with
/// `outward_normal`.
pub fn calc_face_normal(facing: Scalar, outward_normal: Vec3) -> (out: (bool, Vec3))
    ensures
        out.0 == faces_front(facing),
        out.1 == facing_normal(facing, outward_normal),
{
    let front_face = facing.lt(Scalar::zero());
    let normal = if front_face {
        outward_normal
    } else {
        outward_normal.neg()
    };
    (front_face, normal)
}

impl HitRecord {
    /// The record with the side swapped and everything else kept.
    pub open spec fn flipped(self) -> HitRecord {
        HitRecord { front_face: !self.front_face, ..self }
    }

    /// The record of a hit at `p`, at ray parameter `t` and surface coordinates
    /// `(u, v)`, of a ray whose direction has the dot product `facing` with the
    /// surface's `outward_normal`.
    pub fn new(
        p: Point3,
        material: usize,
        t: Scalar,
        u: Scalar,
        v: Scalar,
        facing: Scalar,
        outward_normal: Vec3,
    ) -> (rec: HitRecord)
        ensures
            rec == (HitRecord {
                p,
                normal: facing_normal(facing, outward_normal),
                material,
                t,
                u,
                v,
                front_face: faces_front(facing),
            }),
    {
        let (front_face, normal) = calc_face_normal(facing, outward_normal);
        HitRecord { p, normal, material, t, u, v, front_face }
    }
}

/// An optional record with the side swapped.
pub open spec fn flipped_hit(out: Option<HitRecord>) -> Option<HitRecord> {
    match out {
        Some(rec) => Some(rec.flipped()),
        None => None,
    }
}

/// Something a ray can hit.
///
/// An implementation says by four specification functions what its methods may
/// return. One that says nothing allows every answer, and nothing is then known of
/// it. A primitive that draws random numbers (a participating medium) allows
/// several answers to one query, an exact one allows one. Whatever this crate
/// proves of a composite, it proves from these alone.
pub trait Hittable {
    /// Whether `out` is an answer that `hit` may give to this query.
    open spec fn hit_allows(&self, r: Ray, t_min: Scalar, t_max: Scalar, out: Option<HitRecord>) -> bool {
        true
    }

    /// Whether `out` is what `bounding_box` may return for the time from `t0` to
    /// `t1`.
    open spec fn box_allows(&self, t0: Scalar, t1: Scalar, out: Option<AABB>) -> bool {
        true
    }

    /// Whether `out` is a density that `pdf_value` may return for the direction `v`
    /// from `o`.
    open spec fn pdf_allows(&self, o: Vec3, v: Vec3, out: Scalar) -> bool {
        true
    }

    /// Whether `out` is a direction that `random` may draw from `o`.
    open spec fn random_allows(&self, o: Vec3, out: Vec3) -> bool {
        true
    }

    /// The nearest intersection with `r` between `t_min` and `t_max`, if any.
    fn hit(&self, r: &Ray, t_min: Scalar, t_max: Scalar) -> (out: Option<HitRecord>)
        ensures
            self.hit_allows(*r, t_min, t_max, out),
    ;

    /// The box that holds the primitive during the time from `t0` to `t1`, if it
    /// has one.
    fn bounding_box(&self, t0: Scalar, t1: Scalar) -> (out: Option<AABB>)
        ensures
            self.box_allows(t0, t1, out),
    ;

    /// The density with which directions toward this primitive are drawn from `o`,
    /// at direction `v`.
    fn pdf_value(&self, o: &Vec3, v: &Vec3) -> (out: Scalar)
        ensures
            self.pdf_allows(*o, *v, out),
    ;

    /// A direction toward this primitive, drawn at random from `o`.
    fn random(&self, o: &Vec3) -> (out: Vec3)
        ensures
            self.random_allows(*o, out),
    ;
}

/// A record, if it lies at or below `t_max`.
pub open spec fn within(s: Option<HitRecord>, t_max: Scalar) -> Option<HitRecord> {
    match s {
        Some(rec) => if rec.t.at_most(t_max) {
            s
        } else {
            None
        },
        None => None,
    }
}

/// Whether `h` answers queries on `r` from `t_min` on exactly: it has one nearest
/// crossing `s` (or none), and answers with it whenever it lies within the upper
/// bound, and with nothing otherwise.
pub open spec fn exact<H: Hittable>(h: H, r: Ray, t_min: Scalar, s: Option<HitRecord>) -> bool {
    &&& s matches Some(rec) ==> !rec.t.nan()
    &&& forall|t_max: Scalar, out: Option<HitRecord>|
        !t_max.nan() && #[trigger] h.hit_allows(r, t_min, t_max, out) ==> out == within(s, t_max)
}

/// A primitive seen from its other side: every hit reports the opposite face.
pub struct FlipNormals<H: Hittable> {
    pub hittable: H,
}

impl<H: Hittable> FlipNormals<H> {
    pub fn new(hitable: H) -> (f: FlipNormals<H>)
        ensures
            f.hittable == hitable,
    {
        FlipNormals { hittable: hitable }
    }
}

impl<H: Hittable> Hittable for FlipNormals<H> {
    /// The wrapper answers with a record exactly when the wrapped primitive may
    /// answer with the same record seen from the other side.
    open spec fn hit_allows(&self, r: Ray, t_min: Scalar, t_max: Scalar, out: Option<HitRecord>) -> bool {
        self.hittable.hit_allows(r, t_min, t_max, flipped_hit(out))
    }

    open spec fn box_allows(&self, t0: Scalar, t1: Scalar, out: Option<AABB>) -> bool {
        self.hittable.box_allows(t0, t1, out)
    }

    /// The wrapper is no light: its density is zero everywhere.
    open spec fn pdf_allows(&self, o: Vec3, v: Vec3, out: Scalar) -> bool {
        out == (Scalar { bits: 0 })
    }

    /// The wrapper is no light: it draws the first axis.
    open spec fn random_allows(&self, o: Vec3, out: Vec3) -> bool {
        out == Vec3(Scalar { bits: 0x3ff0_0000_0000_0000 }, Scalar { bits: 0 }, Scalar { bits: 0 })
    }

    fn hit(&self, r: &Ray, t_min: Scalar, t_max: Scalar) -> (out: Option<HitRecord>) {
        match self.hittable.hit(r, t_min, t_max) {
            Some(rec) => {
                let flipped = HitRecord {
                    p: rec.p,
                    normal: rec.normal,
                    material: rec.material,
                    t: rec.t,
                    u: rec.u,
                    v: rec.v,
                    front_face: !rec.front_face,
                };
                assert(flipped.flipped() == rec);
                Some(flipped)
            },
            None => None,
        }
    }

    fn bounding_box(&self, t0: Scalar, t1: Scalar) -> (out: Option<AABB>) {
        self.hittable.bounding_box(t0, t1)
    }

    fn pdf_value(&self, o: &Vec3, v: &Vec3) -> (out: Scalar) {
        Scalar::zero()
    }

    fn random(&self, o: &Vec3) -> (out: Vec3) {
        Vec3::new(Scalar::one(), Scalar::zero(), Scalar::zero())
    }
}

/// Turning an exact primitive inside out leaves it exact: its crossing is the
/// wrapped primitive's, seen from the other side.
pub proof fn lemma_flip_keeps_exact<H: Hittable>(
    flip: FlipNormals<H>,
    r: Ray,
    t_min: Scalar,
    s: Option<HitRecord>,
)
    requires
        exact(flip.hittable, r, t_min, s),
    ensures
        exact(flip, r, t_min, flipped_hit(s)),
{
    assert forall|t_max: Scalar, out: Option<HitRecord>|
        !t_max.nan() && #[trigger] flip.hit_allows(r, t_min, t_max, out) implies out == within(
        flipped_hit(s),
        t_max,
    ) by {
        assert(flip.hittable.hit_allows(r, t_min, t_max, flipped_hit(out)));
        assert(flipped_hit(out) == within(s, t_max));
        lemma_flip_involution(out);
    }
}

/// Flipping twice gives the record back.
pub proof fn lemma_flip_involution(out: Option<HitRecord>)
    ensures
        flipped_hit(flipped_hit(out)) == out,
        flipped_hit(out) is Some <==> out is Some,
        out matches Some(rec) ==> flipped_hit(out).unwrap().t == rec.t,
{
}

} // verus!
