//! Rays: an origin, a direction and the time at which the ray travels.

use crate::scalar::Scalar;
use crate::vec3::{Point3, Vec3};
use vstd::prelude::*;

verus! {

/// A half-line through the scene, fixed once it is made.
#[derive(Clone, Copy, Debug)]
pub struct Ray {
    pub orig: Point3,
    pub dir: Vec3,
    pub time: Scalar,
}

impl Ray {
    pub fn new(orig: Point3, dir: Vec3, time: Scalar) -> (r: Ray)
        ensures
            r == (Ray { orig, dir, time }),
    {
        Ray { orig, dir, time }
    }

    pub fn origin(&self) -> (o: &Vec3)
        ensures
            *o == self.orig,
    {
        &self.orig
    }

    pub fn direction(&self) -> (d: &Vec3)
        ensures
            *d == self.dir,
    {
        &self.dir
    }

    pub fn time(&self) -> (t: Scalar)
        ensures
            t == self.time,
    {
        self.time
    }
}

impl Default for Ray {
    fn default() -> (r: Ray)
        ensures
            r.orig == Vec3(Scalar { bits: 0 }, Scalar { bits: 0 }, Scalar { bits: 0 }),
            r.dir == Vec3(Scalar { bits: 0 }, Scalar { bits: 0 }, Scalar { bits: 0 }),
            r.time == (Scalar { bits: 0 }),
    {
        Ray { orig: Vec3::default(), dir: Vec3::default(), time: Scalar::zero() }
    }
}

} // verus!
