//! Participating media of constant density: where a ray is inside the boundary,
//! and whether it scatters before it leaves.

use crate::aabb::{Span, AABB};
use crate::hittable::{HitRecord, Hittable};
use crate::ray::Ray;
use crate::scalar::Scalar;
use crate::vec3::{Point3, Vec3};
use vstd::prelude::*;

verus! {

/// A volume of constant density inside the surface `boundary`.
///
/// `neg_inv_density` is `-1 / density`; `phase_function` is the handle of the
/// isotropic material by which the medium scatters.
pub struct ConstantMedium<H: Hittable> {
    pub boundary: H,
    pub neg_inv_density: Scalar,
    pub phase_function: usize,
}

/// The free flight of a ray through a medium: the distance `hit_distance` that
/// was drawn for it, the length `distance_inside_boundary` of its way through
/// the medium, and the ray parameter `t` and the point `p` at which the flight
/// ends.
#[derive(Clone, Copy, Debug)]
pub struct Flight {
    pub hit_distance: Scalar,
    pub distance_inside_boundary: Scalar,
    pub t: Scalar,
    pub p: Point3,
}

/// Carries the four values that a query of a medium depends on: the boundary's
/// answer at the entry, the ray parameter just beyond it, the boundary's answer
/// at the exit, and the flight.
pub open spec fn passage(
    entry: Option<HitRecord>,
    after: Scalar,
    exit: Option<HitRecord>,
    flight: Flight,
) -> bool {
    true
}

/// The hit that a flight amounts to: a scattering where the flight ends before the
/// ray leaves the medium, else nothing.
pub open spec fn landing(flight: Flight, phase_function: usize) -> Option<HitRecord> {
    if flight.hit_distance.less(flight.distance_inside_boundary) {
        Some(scattering(flight.p, flight.t, phase_function))
    } else {
        None
    }
}

/// The part of the span from `entry` to `exit` that lies between `t_min` and
/// `t_max`: none if nothing of positive length is left.
pub open spec fn clipped(entry: Scalar, exit: Scalar, t_min: Scalar, t_max: Scalar) -> Option<Span> {
    let lo = if entry.less(t_min) {
        t_min
    } else {
        entry
    };
    let hi = if t_max.less(exit) {
        t_max
    } else {
        exit
    };
    if lo.less(hi) {
        Some(Span { lo, hi })
    } else {
        None
    }
}

/// The record of a scattering inside a medium: the normal is arbitrary and the
/// side is the front.
pub open spec fn scattering(p: Point3, t: Scalar, phase_function: usize) -> HitRecord {
    HitRecord {
        p,
        normal: Vec3(Scalar { bits: 0x3ff0_0000_0000_0000 }, Scalar { bits: 0 }, Scalar { bits: 0 }),
        material: phase_function,
        t,
        u: Scalar { bits: 0 },
        v: Scalar { bits: 0 },
        front_face: true,
    }
}

impl<H: Hittable> ConstantMedium<H> {
    pub fn new(boundary: H, neg_inv_density: Scalar, phase_function: usize) -> (m: ConstantMedium<H>)
        ensures
            m.boundary == boundary,
            m.neg_inv_density == neg_inv_density,
            m.phase_function == phase_function,
    {
        ConstantMedium { boundary, neg_inv_density, phase_function }
    }

    /// Where the ray enters the boundary: the boundary's answer on the whole line
    /// of the ray.
    pub fn entry(&self, ray: &Ray) -> (out: Option<HitRecord>)
        ensures
            self.boundary.hit_allows(
                *ray,
                Scalar { bits: 0xffef_ffff_ffff_ffff },
                Scalar { bits: 0x7fef_ffff_ffff_ffff },
                out,
            ),
    {
        self.boundary.hit(ray, Scalar::max_finite().neg(), Scalar::max_finite())
    }

    /// Where the ray leaves the boundary: the boundary's answer from `after` on,
    /// a ray parameter just beyond the entry.
    pub fn exit(&self, ray: &Ray, after: Scalar) -> (out: Option<HitRecord>)
        ensures
            self.boundary.hit_allows(*ray, after, Scalar { bits: 0x7fef_ffff_ffff_ffff }, out),
    {
        self.boundary.hit(ray, after, Scalar::max_finite())
    }

    /// The part of the ray inside the boundary that lies between `t_min` and
    /// `t_max`.
    pub fn clip(&self, entry: Scalar, exit: Scalar, t_min: Scalar, t_max: Scalar) -> (out: Option<Span>)
        ensures
            out == clipped(entry, exit, t_min, t_max),
    {
        let lo = if entry.lt(t_min) {
            t_min
        } else {
            entry
        };
        let hi = if exit.gt(t_max) {
            t_max
        } else {
            exit
        };
        if lo.lt(hi) {
            Some(Span { lo, hi })
        } else {
            None
        }
    }

    /// The hit inside the medium, if the ray scatters before it leaves:
    /// `hit_distance` is the free-flight distance that was drawn,
    /// `distance_inside_boundary` the length of the ray's way through the medium,
    /// and `t` and `p` the ray parameter and the point at which the flight ends.
    pub fn scatter_within(
        &self,
        hit_distance: Scalar,
        distance_inside_boundary: Scalar,
        t: Scalar,
        p: Point3,
    ) -> (out: Option<HitRecord>)
        ensures
            out == (if hit_distance.less(distance_inside_boundary) {
                Some(scattering(p, t, self.phase_function))
            } else {
                None
            }),
    {
        if hit_distance.lt(distance_inside_boundary) {
            Some(
                HitRecord {
                    p,
                    normal: Vec3::new(Scalar::one(), Scalar::zero(), Scalar::zero()),
                    material: self.phase_function,
                    t,
                    u: Scalar::zero(),
                    v: Scalar::zero(),
                    front_face: true,
                },
            )
        } else {
            None
        }
    }

    /// Whether `out` is an answer that `hit` may give.
    ///
    /// The boundary is asked where the ray enters it, on the whole line of the ray,
    /// and then where it leaves it, from just beyond the entry on; `nudge` computes
    /// that ray parameter. Where either answer is nothing, or nothing of positive
    /// length is left of the way between the two once it is clipped to the query,
    /// the ray does not hit. Else `flight` draws the free flight through the clipped
    /// span, and the ray hits where the flight ends, if that is inside the medium.
    pub open spec fn hit_allows<N: Fn(Scalar) -> Scalar, S: Fn(&Ray, &Span) -> Flight>(
        &self,
        ray: Ray,
        t_min: Scalar,
        t_max: Scalar,
        nudge: N,
        flight: S,
        out: Option<HitRecord>,
    ) -> bool {
        exists|e: Option<HitRecord>, after: Scalar, x: Option<HitRecord>, fl: Flight|
            #![trigger passage(e, after, x, fl)]
            {
                &&& passage(e, after, x, fl)
                &&& self.boundary.hit_allows(
                    ray,
                    Scalar { bits: 0xffef_ffff_ffff_ffff },
                    Scalar { bits: 0x7fef_ffff_ffff_ffff },
                    e,
                )
                &&& match e {
                    None => out is None,
                    Some(h1) => {
                        &&& nudge.ensures((h1.t,), after)
                        &&& self.boundary.hit_allows(
                            ray,
                            after,
                            Scalar { bits: 0x7fef_ffff_ffff_ffff },
                            x,
                        )
                        &&& match x {
                            None => out is None,
                            Some(h2) => match clipped(h1.t, h2.t, t_min, t_max) {
                                None => out is None,
                                Some(span) => flight.ensures((&ray, &span), fl) && out == landing(
                                    fl,
                                    self.phase_function,
                                ),
                            },
                        }
                    },
                }
            }
    }

    /// The hit of a ray in the medium between `t_min` and `t_max`, if it scatters
    /// there. `nudge` computes a ray parameter just beyond a given one; `flight`
    /// draws the free flight of the ray through a span.
    pub fn hit<N: Fn(Scalar) -> Scalar, S: Fn(&Ray, &Span) -> Flight>(
        &self,
        ray: &Ray,
        t_min: Scalar,
        t_max: Scalar,
        nudge: &N,
        flight: &S,
    ) -> (out: Option<HitRecord>)
        requires
            forall|t: Scalar| nudge.requires((t,)),
            forall|r: &Ray, span: &Span| flight.requires((r, span)),
        ensures
            self.hit_allows(*ray, t_min, t_max, *nudge, *flight, out),
    {
        let ghost none = Flight {
            hit_distance: Scalar { bits: 0 },
            distance_inside_boundary: Scalar { bits: 0 },
            t: Scalar { bits: 0 },
            p: Vec3(Scalar { bits: 0 }, Scalar { bits: 0 }, Scalar { bits: 0 }),
        };
        let e = self.entry(ray);
        let hit1 = match e {
            Some(h) => h,
            None => {
                assert(passage(e, Scalar { bits: 0 }, None, none));
                return None;
            },
        };
        let after = nudge(hit1.t);
        let x = self.exit(ray, after);
        let hit2 = match x {
            Some(h) => h,
            None => {
                assert(passage(e, after, x, none));
                return None;
            },
        };
        let span = match self.clip(hit1.t, hit2.t, t_min, t_max) {
            Some(span) => span,
            None => {
                assert(passage(e, after, x, none));
                return None;
            },
        };
        let fl = flight(ray, &span);
        assert(passage(e, after, x, fl));
        self.scatter_within(fl.hit_distance, fl.distance_inside_boundary, fl.t, fl.p)
    }

    /// The box of the boundary.
    pub fn bounding_box(&self, t0: Scalar, t1: Scalar) -> (out: Option<AABB>)
        ensures
            self.boundary.box_allows(t0, t1, out),
    {
        self.boundary.bounding_box(t0, t1)
    }
}

/// A clipped span has positive length and lies within both the way through the
/// boundary and the query's span.
pub proof fn lemma_clipped_inside(entry: Scalar, exit: Scalar, t_min: Scalar, t_max: Scalar)
    ensures
        clipped(entry, exit, t_min, t_max) matches Some(span) ==> {
            &&& span.lo.less(span.hi)
            &&& !span.lo.less(t_min)
            &&& !t_max.less(span.hi)
            &&& !span.lo.less(entry)
            &&& !exit.less(span.hi)
        },
{
}

} // verus!
