//! Axis-aligned bounding boxes: merging, enclosing, and the slab test's decisions.

use crate::scalar::Scalar;
use crate::vec3::Vec3;
use vstd::prelude::*;

verus! {

/// An axis-aligned box, given by its smallest and its largest corner.
#[derive(Clone, Copy, Debug)]
pub struct AABB {
    pub min: Vec3,
    pub max: Vec3,
}

/// Where a ray meets the two planes that bound a box along one axis.
///
/// `t0` is the ray parameter at the plane through the box's smallest corner, `t1`
/// the one at the plane through its largest corner, and `inv_d` the reciprocal of
/// the ray direction's component on that axis.
#[derive(Clone, Copy, Debug)]
pub struct Slab {
    pub t0: Scalar,
    pub t1: Scalar,
    pub inv_d: Scalar,
}

/// An interval of ray parameters.
#[derive(Clone, Copy, Debug)]
pub struct Span {
    pub lo: Scalar,
    pub hi: Scalar,
}

impl Slab {
    /// The ray parameter at which the ray enters the slab.
    pub open spec fn entry(self) -> Scalar {
        if self.inv_d.less(Scalar { bits: 0 }) {
            self.t1
        } else {
            self.t0
        }
    }

    /// The ray parameter at which the ray leaves the slab.
    pub open spec fn exit(self) -> Scalar {
        if self.inv_d.less(Scalar { bits: 0 }) {
            self.t0
        } else {
            self.t1
        }
    }

    /// The span cut down to the part inside the slab: the entry replaces the lower
    /// end where it is larger, the exit the upper end where it is smaller.
    pub open spec fn cut(self, span: Span) -> Span {
        Span {
            lo: if span.lo.less(self.entry()) {
                self.entry()
            } else {
                span.lo
            },
            hi: if self.exit().less(span.hi) {
                self.exit()
            } else {
                span.hi
            },
        }
    }

    /// Cuts `span` down to the part inside the slab.
    pub fn narrow(&self, span: Span) -> (out: Span)
        ensures
            out == self.cut(span),
    {
        let reversed = self.inv_d.lt(Scalar::zero());
        let entry = if reversed {
            self.t1
        } else {
            self.t0
        };
        let exit = if reversed {
            self.t0
        } else {
            self.t1
        };
        Span {
            lo: if span.lo.lt(entry) {
                entry
            } else {
                span.lo
            },
            hi: if exit.lt(span.hi) {
                exit
            } else {
                span.hi
            },
        }
    }
}

impl Span {
    /// Whether the span holds no ray parameter: its upper end lies below its lower
    /// end. A span whose two ends are one number holds that number.
    pub open spec fn empty(self) -> bool {
        self.hi.less(self.lo)
    }
}

/// Whether a ray with the given slabs passes through the box somewhere in the span
/// from `t_min` to `t_max`: cutting the span by the three slabs in turn never
/// leaves it empty.
pub open spec fn slabs_cross(slabs: [Slab; 3], t_min: Scalar, t_max: Scalar) -> bool {
    let s0 = slabs[0].cut(Span { lo: t_min, hi: t_max });
    let s1 = slabs[1].cut(s0);
    let s2 = slabs[2].cut(s1);
    !s0.empty() && !s1.empty() && !s2.empty()
}

impl AABB {
    /// Whether the box has numbers for corners and `min` is nowhere above `max`.
    pub open spec fn valid(self) -> bool {
        &&& self.min.0.at_most(self.max.0)
        &&& self.min.1.at_most(self.max.1)
        &&& self.min.2.at_most(self.max.2)
    }

    /// Whether `p` lies in the box, its faces included.
    pub open spec fn holds(self, p: Vec3) -> bool {
        &&& self.min.0.at_most(p.0) && p.0.at_most(self.max.0)
        &&& self.min.1.at_most(p.1) && p.1.at_most(self.max.1)
        &&& self.min.2.at_most(p.2) && p.2.at_most(self.max.2)
    }

    /// Whether all of `other` lies in the box.
    pub open spec fn encloses(self, other: AABB) -> bool {
        &&& self.min.0.at_most(other.min.0) && other.max.0.at_most(self.max.0)
        &&& self.min.1.at_most(other.min.1) && other.max.1.at_most(self.max.1)
        &&& self.min.2.at_most(other.min.2) && other.max.2.at_most(self.max.2)
    }

    /// The corner with the largest coordinate on each axis whose index is 1, and
    /// the smallest on each axis whose index is 0.
    pub open spec fn corner(self, i: int, j: int, k: int) -> Vec3 {
        Vec3(
            if i == 1 {
                self.max.0
            } else {
                self.min.0
            },
            if j == 1 {
                self.max.1
            } else {
                self.min.1
            },
            if k == 1 {
                self.max.2
            } else {
                self.min.2
            },
        )
    }

    /// The eight corners, the one with index `4 * i + 2 * j + k` being
    /// `corner(i, j, k)`.
    pub open spec fn corner_list(self) -> Seq<Vec3> {
        seq![
            self.corner(0, 0, 0),
            self.corner(0, 0, 1),
            self.corner(0, 1, 0),
            self.corner(0, 1, 1),
            self.corner(1, 0, 0),
            self.corner(1, 0, 1),
            self.corner(1, 1, 0),
            self.corner(1, 1, 1),
        ]
    }

    /// The box grown just enough to hold `p`.
    pub open spec fn stretched(self, p: Vec3) -> AABB {
        AABB {
            min: Vec3(self.min.0.lower(p.0), self.min.1.lower(p.1), self.min.2.lower(p.2)),
            max: Vec3(self.max.0.upper(p.0), self.max.1.upper(p.1), self.max.2.upper(p.2)),
        }
    }

    pub fn new(min: Vec3, max: Vec3) -> (b: AABB)
        ensures
            b == (AABB { min, max }),
    {
        AABB { min, max }
    }

    pub fn min(&self) -> (v: Vec3)
        ensures
            v == self.min,
    {
        self.min
    }

    pub fn max(&self) -> (v: Vec3)
        ensures
            v == self.max,
    {
        self.max
    }

    /// Decides the slab test: whether a ray whose slabs against this box are
    /// `slabs` passes through the box between `t_min` and `t_max`.
    pub fn hit(&self, slabs: &[Slab; 3], t_min: Scalar, t_max: Scalar) -> (r: bool)
        ensures
            r == slabs_cross(*slabs, t_min, t_max),
    {
        let s0 = slabs[0].narrow(Span { lo: t_min, hi: t_max });
        if s0.hi.lt(s0.lo) {
            return false;
        }
        let s1 = slabs[1].narrow(s0);
        if s1.hi.lt(s1.lo) {
            return false;
        }
        let s2 = slabs[2].narrow(s1);
        !s2.hi.lt(s2.lo)
    }

    /// The eight corners of the box: corner `4 * i + 2 * j + k` has the largest
    /// first coordinate where `i` is 1 and the smallest where it is 0, and likewise
    /// the second for `j` and the third for `k`.
    pub fn corners(&self) -> (out: Vec<Vec3>)
        ensures
            out@ == self.corner_list(),
            out@.len() == 8,
            forall|i: int, j: int, k: int|
                0 <= i < 2 && 0 <= j < 2 && 0 <= k < 2 ==> #[trigger] out@[4 * i + 2 * j + k]
                    == self.corner(i, j, k),
    {
        let lo = self.min;
        let hi = self.max;
        let mut out: Vec<Vec3> = Vec::with_capacity(8);
        out.push(Vec3(lo.0, lo.1, lo.2));
        out.push(Vec3(lo.0, lo.1, hi.2));
        out.push(Vec3(lo.0, hi.1, lo.2));
        out.push(Vec3(lo.0, hi.1, hi.2));
        out.push(Vec3(hi.0, lo.1, lo.2));
        out.push(Vec3(hi.0, lo.1, hi.2));
        out.push(Vec3(hi.0, hi.1, lo.2));
        out.push(Vec3(hi.0, hi.1, hi.2));
        assert(out@ =~= self.corner_list());
        assert forall|i: int, j: int, k: int|
            0 <= i < 2 && 0 <= j < 2 && 0 <= k < 2 implies #[trigger] out@[4 * i + 2 * j + k]
            == self.corner(i, j, k) by {
            if i == 0 {
                if j == 0 {
                    if k == 0 {
                    } else {
                    }
                } else {
                    if k == 0 {
                    } else {
                    }
                }
            } else {
                if j == 0 {
                    if k == 0 {
                    } else {
                    }
                } else {
                    if k == 0 {
                    } else {
                    }
                }
            }
        }
        out
    }

    /// The box grown just enough to hold `p`.
    pub fn stretch(&self, p: &Vec3) -> (b: AABB)
        ensures
            b == self.stretched(*p),
    {
        AABB {
            min: Vec3(self.min.0.min(p.0), self.min.1.min(p.1), self.min.2.min(p.2)),
            max: Vec3(self.max.0.max(p.0), self.max.1.max(p.1), self.max.2.max(p.2)),
        }
    }
}

/// The smallest box that holds both `a` and `b`: per axis the smaller of the two
/// minima and the larger of the two maxima.
pub open spec fn merged(a: AABB, b: AABB) -> AABB {
    AABB {
        min: Vec3(a.min.0.lower(b.min.0), a.min.1.lower(b.min.1), a.min.2.lower(b.min.2)),
        max: Vec3(a.max.0.upper(b.max.0), a.max.1.upper(b.max.1), a.max.2.upper(b.max.2)),
    }
}

/// The smallest box that holds both `box0` and `box1`.
pub fn surrounding_box(box0: &AABB, box1: &AABB) -> (out: AABB)
    ensures
        out == merged(*box0, *box1),
{
    AABB {
        min: Vec3(
            box0.min.0.min(box1.min.0),
            box0.min.1.min(box1.min.1),
            box0.min.2.min(box1.min.2),
        ),
        max: Vec3(
            box0.max.0.max(box1.max.0),
            box0.max.1.max(box1.max.1),
            box0.max.2.max(box1.max.2),
        ),
    }
}

/// The box that holds exactly the first `n` of `points`, starting from the box that
/// is the first point alone.
pub open spec fn hull(points: Seq<Vec3>, n: int) -> AABB
    decreases n,
{
    if n <= 1 {
        AABB { min: points[0], max: points[0] }
    } else {
        hull(points, n - 1).stretched(points[n - 1])
    }
}

/// The smallest box that holds every one of `points`.
pub fn enclosing(points: &Vec<Vec3>) -> (out: AABB)
    requires
        points.len() > 0,
    ensures
        out == hull(points@, points.len() as int),
{
    let mut out = AABB { min: points[0], max: points[0] };
    let mut i: usize = 1;
    while i < points.len()
        invariant
            1 <= i <= points.len(),
            out == hull(points@, i as int),
        decreases points.len() - i,
    {
        out = out.stretch(&points[i]);
        i += 1;
    }
    out
}

/// A ray that crosses a box within a span crosses it within every wider span.
pub proof fn lemma_slabs_cross_widens(
    slabs: [Slab; 3],
    t_min: Scalar,
    t_max: Scalar,
    wider_min: Scalar,
    wider_max: Scalar,
)
    requires
        slabs_cross(slabs, t_min, t_max),
        wider_min.at_most(t_min),
        t_max.at_most(wider_max),
        forall|a: int|
            0 <= a < 3 ==> !(#[trigger] slabs[a]).t0.nan() && !slabs[a].t1.nan(),
    ensures
        slabs_cross(slabs, wider_min, wider_max),
{
    let s0 = slabs[0].cut(Span { lo: t_min, hi: t_max });
    let s1 = slabs[1].cut(s0);
    let w0 = slabs[0].cut(Span { lo: wider_min, hi: wider_max });
    let w1 = slabs[1].cut(w0);
    assert(!slabs[0].t0.nan() && !slabs[1].t0.nan() && !slabs[2].t0.nan());
    assert(w0.lo.at_most(s0.lo) && s0.hi.at_most(w0.hi));
    assert(w1.lo.at_most(s1.lo) && s1.hi.at_most(w1.hi));
}

/// Merging is commutative: the order of the two boxes does not matter.
pub proof fn lemma_merge_commutative(a: AABB, b: AABB)
    requires
        a.valid(),
        b.valid(),
    ensures
        merged(a, b) == merged(b, a),
{
}

/// Merging is associative: boxes can be merged in any grouping.
pub proof fn lemma_merge_associative(a: AABB, b: AABB, c: AABB)
    requires
        a.valid(),
        b.valid(),
        c.valid(),
    ensures
        merged(merged(a, b), c) == merged(a, merged(b, c)),
{
}

/// Merging a box with itself changes nothing.
pub proof fn lemma_merge_idempotent(a: AABB)
    requires
        a.valid(),
    ensures
        merged(a, a) == a,
{
}

/// The merge of two valid boxes is valid, holds both, and is the smallest such box:
/// every box that holds both holds the merge.
pub proof fn lemma_merge_least_upper_bound(a: AABB, b: AABB, c: AABB)
    requires
        a.valid(),
        b.valid(),
    ensures
        merged(a, b).valid(),
        merged(a, b).encloses(a),
        merged(a, b).encloses(b),
        c.encloses(a) && c.encloses(b) ==> c.encloses(merged(a, b)),
{
}

/// Enclosure is transitive, and a point of an enclosed box is a point of the
/// enclosing one.
pub proof fn lemma_encloses_transitive(a: AABB, b: AABB, c: AABB, p: Vec3)
    ensures
        a.encloses(b) && b.encloses(c) ==> a.encloses(c),
        a.encloses(b) && b.holds(p) ==> a.holds(p),
{
}

/// The hull of points without a NaN among their coordinates is a valid box that
/// holds each of them.
pub proof fn lemma_hull_holds(points: Seq<Vec3>, n: int, i: int)
    requires
        0 <= i < n <= points.len(),
        forall|j: int|
            0 <= j < n ==> !(#[trigger] points[j]).0.nan() && !points[j].1.nan()
                && !points[j].2.nan(),
    ensures
        hull(points, n).valid(),
        hull(points, n).holds(points[i]),
    decreases n,
{
    if n > 1 {
        if i < n - 1 {
            lemma_hull_holds(points, n - 1, i);
        } else {
            lemma_hull_holds(points, n - 1, 0);
        }
    }
}

} // verus!
