//! Spheres, at rest and moving: which root of the intersection equation counts.

use crate::aabb::{merged, surrounding_box, AABB};
use crate::hittable::{faces_front, facing_normal, pdf_value_of, HitRecord, T_MIN_BITS};
use crate::scalar::Scalar;
use crate::vec3::{Point3, Vec3};
use vstd::prelude::*;

verus! {

/// A sphere with the handle of its material.
#[derive(Clone, Copy, Debug)]
pub struct Sphere {
    pub center: Vec3,
    pub radius: Scalar,
    pub material: usize,
}

/// A sphere whose centre moves in a straight line from `center0` at `time0` to
/// `center1` at `time1`.
#[derive(Clone, Copy, Debug)]
pub struct MovingSphere {
    pub center0: Vec3,
    pub center1: Vec3,
    pub time0: Scalar,
    pub time1: Scalar,
    pub radius: Scalar,
    pub material: usize,
}

/// The solutions of `|O + tD - C|^2 = r^2` for a ray and a sphere: the
/// discriminant of the quadratic, and, where it is not negative, the smaller and
/// the larger root.
#[derive(Clone, Copy, Debug)]
pub struct Roots {
    pub discriminant: Scalar,
    pub near: Scalar,
    pub far: Scalar,
}

/// The surface of a sphere where a ray meets it: the point, the outward normal
/// there, the surface coordinates, and `facing`, the dot product of the ray's
/// direction with the outward normal.
#[derive(Clone, Copy, Debug)]
pub struct SurfacePoint {
    pub p: Point3,
    pub outward_normal: Vec3,
    pub u: Scalar,
    pub v: Scalar,
    pub facing: Scalar,
}

/// The record of a hit at ray parameter `t` on the surface point `at`.
pub open spec fn record_of(at: SurfacePoint, t: Scalar, material: usize) -> HitRecord {
    HitRecord {
        p: at.p,
        normal: facing_normal(at.facing, at.outward_normal),
        material,
        t,
        u: at.u,
        v: at.v,
        front_face: faces_front(at.facing),
    }
}

/// Whether `out` is the hit of a sphere with the given roots: nothing where no
/// root counts, else the record of the surface point that `surface` computed for
/// the chosen root.
pub open spec fn hit_of<S: Fn(Scalar) -> SurfacePoint>(
    roots: Roots,
    t_min: Scalar,
    t_max: Scalar,
    material: usize,
    surface: S,
    out: Option<HitRecord>,
) -> bool {
    match chosen_root(roots, t_min, t_max) {
        None => out is None,
        Some(t) => exists|at: SurfacePoint| #[trigger]
            surface.ensures((t,), at) && out == Some(record_of(at, t, material)),
    }
}

/// The hit of a sphere with the given roots and material.
fn resolve<S: Fn(Scalar) -> SurfacePoint>(
    roots: &Roots,
    t_min: Scalar,
    t_max: Scalar,
    material: usize,
    surface: &S,
) -> (out: Option<HitRecord>)
    requires
        forall|t: Scalar| surface.requires((t,)),
    ensures
        hit_of(*roots, t_min, t_max, material, *surface, out),
{
    match select_root(roots, t_min, t_max) {
        Some(t) => {
            let at = surface(t);
            Some(HitRecord::new(at.p, material, t, at.u, at.v, at.facing, at.outward_normal))
        },
        None => None,
    }
}

/// Whether `root` lies in the span from `t_min` to `t_max`, ends included. A NaN
/// lies in no span.
pub open spec fn in_span(root: Scalar, t_min: Scalar, t_max: Scalar) -> bool {
    t_min.at_most(root) && root.at_most(t_max)
}

/// The root at which the ray hits, between `t_min` and `t_max`: none unless the
/// discriminant is a number that is not negative; else the smaller root if it lies
/// in the span, else the larger one if that does, else none.
pub open spec fn chosen_root(roots: Roots, t_min: Scalar, t_max: Scalar) -> Option<Scalar> {
    if !(Scalar { bits: 0 }).at_most(roots.discriminant) {
        None
    } else if in_span(roots.near, t_min, t_max) {
        Some(roots.near)
    } else if in_span(roots.far, t_min, t_max) {
        Some(roots.far)
    } else {
        None
    }
}

/// The root at which a ray with the given solutions hits between `t_min` and
/// `t_max`.
pub fn select_root(roots: &Roots, t_min: Scalar, t_max: Scalar) -> (out: Option<Scalar>)
    ensures
        out == chosen_root(*roots, t_min, t_max),
{
    if !roots.discriminant.ge(Scalar::zero()) {
        return None;
    }
    let mut root = roots.near;
    if !(root.ge(t_min) && root.le(t_max)) {
        root = roots.far;
        if !(root.ge(t_min) && root.le(t_max)) {
            return None;
        }
    }
    Some(root)
}

impl Sphere {
    pub fn new(center: Vec3, radius: Scalar, material: usize) -> (s: Sphere)
        ensures
            s == (Sphere { center, radius, material }),
    {
        Sphere { center, radius, material }
    }

    /// The nearest intersection between `t_min` and `t_max`, given the solutions
    /// `roots` of the intersection equation for the ray. `surface` computes the
    /// surface point at a ray parameter.
    pub fn hit<S: Fn(Scalar) -> SurfacePoint>(
        &self,
        roots: &Roots,
        t_min: Scalar,
        t_max: Scalar,
        surface: &S,
    ) -> (out: Option<HitRecord>)
        requires
            forall|t: Scalar| surface.requires((t,)),
        ensures
            hit_of(*roots, t_min, t_max, self.material, *surface, out),
    {
        resolve(roots, t_min, t_max, self.material, surface)
    }
}

impl Sphere {
    /// The density with which directions toward the sphere are drawn, at the
    /// direction of a ray with the given roots: zero where the ray misses the
    /// sphere between `0.001` and the largest finite number, else what `density`
    /// computes.
    pub fn pdf_value<S: Fn(Scalar) -> SurfacePoint, F: Fn(&HitRecord) -> Scalar>(
        &self,
        roots: &Roots,
        surface: &S,
        density: &F,
    ) -> (out: Scalar)
        requires
            forall|t: Scalar| surface.requires((t,)),
            forall|rec: &HitRecord| density.requires((rec,)),
        ensures
            chosen_root(
                *roots,
                Scalar { bits: T_MIN_BITS },
                Scalar { bits: 0x7fef_ffff_ffff_ffff },
            ) is None ==> out == (Scalar { bits: 0 }),
            chosen_root(
                *roots,
                Scalar { bits: T_MIN_BITS },
                Scalar { bits: 0x7fef_ffff_ffff_ffff },
            ) is Some ==> exists|rec: HitRecord|
                hit_of(
                    *roots,
                    Scalar { bits: T_MIN_BITS },
                    Scalar { bits: 0x7fef_ffff_ffff_ffff },
                    self.material,
                    *surface,
                    Some(rec),
                ) && #[trigger] density.ensures((&rec,), out),
    {
        let hit = self.hit(roots, Scalar { bits: T_MIN_BITS }, Scalar::max_finite(), surface);
        pdf_value_of(&hit, density)
    }
}

impl MovingSphere {
    pub fn new(
        center0: Vec3,
        center1: Vec3,
        time0: Scalar,
        time1: Scalar,
        radius: Scalar,
        material: usize,
    ) -> (s: MovingSphere)
        ensures
            s == (MovingSphere { center0, center1, time0, time1, radius, material }),
    {
        MovingSphere { center0, center1, time0, time1, radius, material }
    }

    /// The nearest intersection between `t_min` and `t_max`, given the solutions
    /// `roots` of the intersection equation for the ray and the sphere where it is
    /// at the ray's time. `surface` computes the surface point at a ray parameter.
    pub fn hit<S: Fn(Scalar) -> SurfacePoint>(
        &self,
        roots: &Roots,
        t_min: Scalar,
        t_max: Scalar,
        surface: &S,
    ) -> (out: Option<HitRecord>)
        requires
            forall|t: Scalar| surface.requires((t,)),
        ensures
            hit_of(*roots, t_min, t_max, self.material, *surface, out),
    {
        resolve(roots, t_min, t_max, self.material, surface)
    }

    /// The box around the sphere over a span of time, given the boxes around it at
    /// the start and at the end of the span.
    pub fn bounding_box(&self, at_start: &AABB, at_end: &AABB) -> (out: Option<AABB>)
        ensures
            out == Some(merged(*at_start, *at_end)),
    {
        Some(surrounding_box(at_start, at_end))
    }
}

/// The chosen root is a number in the span, and no root in the span is passed
/// over for a farther one: the chosen root is `near` where that lies in the span,
/// and `far` only where `near` does not.
pub proof fn lemma_chosen_root_is_nearest(roots: Roots, t_min: Scalar, t_max: Scalar)
    ensures
        chosen_root(roots, t_min, t_max) matches Some(t) ==> !t.nan() && in_span(t, t_min, t_max)
            && (t == roots.near || t == roots.far),
        chosen_root(roots, t_min, t_max) is None && (Scalar { bits: 0 }).at_most(roots.discriminant)
            ==> !in_span(roots.near, t_min, t_max) && !in_span(roots.far, t_min, t_max),
        chosen_root(roots, t_min, t_max) == Some(roots.far) && roots.far != roots.near
            ==> !in_span(roots.near, t_min, t_max),
        roots.discriminant.nan() || roots.discriminant.less(Scalar { bits: 0 }) ==> chosen_root(
            roots,
            t_min,
            t_max,
        ) is None,
{
}

} // verus!
