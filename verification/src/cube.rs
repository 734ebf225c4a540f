//! Boxes built from six rectangles, three of them seen from their other side.

use crate::aabb::AABB;
use crate::aarect::{AARect, Plane, PlaneCrossing};
use crate::hittable::{flipped_hit, HitRecord};
use crate::hittable_list::last_hit;
use crate::scalar::Scalar;
use crate::vec3::Vec3;
use vstd::prelude::*;

verus! {

/// One face of a box: a rectangle, and whether it is seen from its other side so
/// that its outward normal points out of the box.
#[derive(Clone, Copy, Debug)]
pub struct Side {
    pub rect: AARect,
    pub flipped: bool,
}

/// An axis-aligned box between the corners `p_min` and `p_max`.
pub struct Cube {
    pub p_min: Vec3,
    pub p_max: Vec3,
    pub sides: Vec<Side>,
}

/// The six faces of the box between `p_min` and `p_max`: for each of the planes XY,
/// ZX and YZ first the face at the larger value of the fixed axis, then, flipped,
/// the face at the smaller one.
pub open spec fn faces(p_min: Vec3, p_max: Vec3, material: usize) -> Seq<Side> {
    seq![
        Side {
            rect: AARect {
                plane: Plane::XY,
                a0: p_min.0,
                a1: p_max.0,
                b0: p_min.1,
                b1: p_max.1,
                k: p_max.2,
                material,
            },
            flipped: false,
        },
        Side {
            rect: AARect {
                plane: Plane::XY,
                a0: p_min.0,
                a1: p_max.0,
                b0: p_min.1,
                b1: p_max.1,
                k: p_min.2,
                material,
            },
            flipped: true,
        },
        Side {
            rect: AARect {
                plane: Plane::ZX,
                a0: p_min.2,
                a1: p_max.2,
                b0: p_min.0,
                b1: p_max.0,
                k: p_max.1,
                material,
            },
            flipped: false,
        },
        Side {
            rect: AARect {
                plane: Plane::ZX,
                a0: p_min.2,
                a1: p_max.2,
                b0: p_min.0,
                b1: p_max.0,
                k: p_min.1,
                material,
            },
            flipped: true,
        },
        Side {
            rect: AARect {
                plane: Plane::YZ,
                a0: p_min.1,
                a1: p_max.1,
                b0: p_min.2,
                b1: p_max.2,
                k: p_max.0,
                material,
            },
            flipped: false,
        },
        Side {
            rect: AARect {
                plane: Plane::YZ,
                a0: p_min.1,
                a1: p_max.1,
                b0: p_min.2,
                b1: p_max.2,
                k: p_min.0,
                material,
            },
            flipped: true,
        },
    ]
}

impl Side {
    /// The answer of the face to a crossing of its plane: that of its rectangle,
    /// seen from the other side where the face is flipped.
    pub open spec fn answer(self, t_min: Scalar, t_max: Scalar, crossing: PlaneCrossing) -> Option<HitRecord> {
        let plain = if self.rect.accepts(t_min, t_max, crossing.t, crossing.a, crossing.b) {
            Some(
                HitRecord {
                    p: crossing.p,
                    normal: crate::hittable::facing_normal(crossing.facing, self.rect.normal()),
                    material: self.rect.material,
                    t: crossing.t,
                    u: crossing.u,
                    v: crossing.v,
                    front_face: crate::hittable::faces_front(crossing.facing),
                },
            )
        } else {
            None
        };
        if self.flipped {
            flipped_hit(plain)
        } else {
            plain
        }
    }

    /// The hit that a crossing of the face's plane amounts to.
    pub fn hit(&self, t_min: Scalar, t_max: Scalar, crossing: &PlaneCrossing) -> (out: Option<HitRecord>)
        ensures
            out == self.answer(t_min, t_max, *crossing),
    {
        match self.rect.hit(t_min, t_max, crossing) {
            Some(rec) => {
                if self.flipped {
                    Some(
                        HitRecord {
                            p: rec.p,
                            normal: rec.normal,
                            material: rec.material,
                            t: rec.t,
                            u: rec.u,
                            v: rec.v,
                            front_face: !rec.front_face,
                        },
                    )
                } else {
                    Some(rec)
                }
            },
            None => None,
        }
    }
}

/// The answers of the first `n` faces in a scan with a shrinking upper bound: each
/// face answers the query whose upper bound is the nearest record before it.
pub open spec fn side_answers(
    sides: Seq<Side>,
    crossings: Seq<PlaneCrossing>,
    t_min: Scalar,
    t_max: Scalar,
    n: int,
) -> Seq<Option<HitRecord>>
    decreases n,
{
    if n <= 0 {
        Seq::empty()
    } else {
        let before = side_answers(sides, crossings, t_min, t_max, n - 1);
        let bound = match last_hit(before, n - 1) {
            Some(rec) => rec.t,
            None => t_max,
        };
        before.push(sides[n - 1].answer(t_min, bound, crossings[n - 1]))
    }
}

impl Cube {
    /// Whether the box has its six faces.
    pub open spec fn valid(&self) -> bool {
        self.sides@.len() == 6
    }

    /// The box between `p_min` and `p_max`, all of whose faces have the material
    /// `material`.
    pub fn new(p_min: Vec3, p_max: Vec3, material: usize) -> (cube: Cube)
        ensures
            cube.p_min == p_min,
            cube.p_max == p_max,
            cube.sides@ == faces(p_min, p_max, material),
            cube.valid(),
    {
        let mut sides: Vec<Side> = Vec::new();
        sides.push(
            Side {
                rect: AARect::new(
                    Plane::XY,
                    p_min.x(),
                    p_max.x(),
                    p_min.y(),
                    p_max.y(),
                    p_max.z(),
                    material,
                ),
                flipped: false,
            },
        );
        sides.push(
            Side {
                rect: AARect::new(
                    Plane::XY,
                    p_min.x(),
                    p_max.x(),
                    p_min.y(),
                    p_max.y(),
                    p_min.z(),
                    material,
                ),
                flipped: true,
            },
        );
        sides.push(
            Side {
                rect: AARect::new(
                    Plane::ZX,
                    p_min.z(),
                    p_max.z(),
                    p_min.x(),
                    p_max.x(),
                    p_max.y(),
                    material,
                ),
                flipped: false,
            },
        );
        sides.push(
            Side {
                rect: AARect::new(
                    Plane::ZX,
                    p_min.z(),
                    p_max.z(),
                    p_min.x(),
                    p_max.x(),
                    p_min.y(),
                    material,
                ),
                flipped: true,
            },
        );
        sides.push(
            Side {
                rect: AARect::new(
                    Plane::YZ,
                    p_min.y(),
                    p_max.y(),
                    p_min.z(),
                    p_max.z(),
                    p_max.x(),
                    material,
                ),
                flipped: false,
            },
        );
        sides.push(
            Side {
                rect: AARect::new(
                    Plane::YZ,
                    p_min.y(),
                    p_max.y(),
                    p_min.z(),
                    p_max.z(),
                    p_min.x(),
                    material,
                ),
                flipped: true,
            },
        );
        assert(sides@ =~= faces(p_min, p_max, material));
        Cube { p_min, p_max, sides }
    }

    /// The nearest hit among the six faces, given where the ray crosses the plane
    /// of each: the faces are scanned in order, each below the nearest record
    /// found so far, and the last record wins.
    pub fn hit(&self, t_min: Scalar, t_max: Scalar, crossings: &[PlaneCrossing; 6]) -> (out: Option<HitRecord>)
        requires
            self.valid(),
        ensures
            out == last_hit(side_answers(self.sides@, crossings@, t_min, t_max, 6), 6),
    {
        let mut closest_so_far = t_max;
        let mut rec_opt: Option<HitRecord> = None;
        let mut i: usize = 0;
        while i < 6
            invariant
                0 <= i <= 6,
                self.sides@.len() == 6,
                rec_opt == last_hit(side_answers(self.sides@, crossings@, t_min, t_max, i as int), i as int),
                closest_so_far == (match rec_opt {
                    Some(rec) => rec.t,
                    None => t_max,
                }),
                side_answers(self.sides@, crossings@, t_min, t_max, i as int).len() == i,
            decreases 6 - i,
        {
            let answer = self.sides[i].hit(t_min, closest_so_far, &crossings[i]);
            proof {
                let before = side_answers(self.sides@, crossings@, t_min, t_max, i as int);
                let grown = side_answers(self.sides@, crossings@, t_min, t_max, i + 1);
                assert(grown == before.push(answer));
                crate::hittable_list::lemma_last_hit_prefix(before, grown, i as int);
            }
            if let Some(rec) = answer {
                closest_so_far = rec.t;
                rec_opt = Some(rec);
            }
            i += 1;
        }
        rec_opt
    }

    /// The box's own corners.
    pub fn bounding_box(&self, _t0: Scalar, _t1: Scalar) -> (out: Option<AABB>)
        ensures
            out == Some(AABB { min: self.p_min, max: self.p_max }),
    {
        Some(AABB { min: self.p_min, max: self.p_max })
    }
}

} // verus!
