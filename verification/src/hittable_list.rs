//! A list of primitives, scanned one after the other with a shrinking upper bound.

use crate::aabb::{merged, surrounding_box, AABB};
use crate::hittable::{exact, within, HitRecord, Hittable};
use crate::ray::Ray;
use crate::scalar::Scalar;
use crate::vec3::Vec3;
use rand::seq::SliceRandom;
use vstd::prelude::*;

verus! {

/// The last record among the first `n` of `outs`.
pub open spec fn last_hit(outs: Seq<Option<HitRecord>>, n: int) -> Option<HitRecord>
    decreases n,
{
    if n <= 0 {
        None
    } else if outs[n - 1] is Some {
        outs[n - 1]
    } else {
        last_hit(outs, n - 1)
    }
}

/// The upper bound of a scan after `n` answers: the ray parameter of the last
/// record among them, or `t_max` while there is none.
pub open spec fn bound_after(outs: Seq<Option<HitRecord>>, t_max: Scalar, n: int) -> Scalar {
    match last_hit(outs, n) {
        Some(rec) => rec.t,
        None => t_max,
    }
}

/// The merge of the first `n` of `boxes`; none if `n` is 0 or one of them is none.
pub open spec fn merged_all(boxes: Seq<Option<AABB>>, n: int) -> Option<AABB>
    decreases n,
{
    if n <= 0 {
        None
    } else if n == 1 {
        boxes[0]
    } else {
        match (merged_all(boxes, n - 1), boxes[n - 1]) {
            (Some(acc), Some(b)) => Some(merged(acc, b)),
            _ => None,
        }
    }
}

/// Whether the crossing at position `i` of `s` is the nearest of the first `n`
/// crossings, and among equally near ones the last.
pub open spec fn nearest_at(s: Seq<Option<HitRecord>>, n: int, i: int) -> bool {
    &&& 0 <= i < n
    &&& s[i] is Some
    &&& forall|j: int|
        0 <= j < i ==> (#[trigger] s[j] matches Some(q) ==> s[i].unwrap().t.at_most(q.t))
    &&& forall|j: int|
        i < j < n ==> (#[trigger] s[j] matches Some(q) ==> s[i].unwrap().t.less(q.t))
}

/// Whether `out` is the nearest of the first `n` crossings of `s` within `t_max`
/// (among equally near ones the last), or nothing where none of them lies within
/// `t_max`.
pub open spec fn nearest_in(s: Seq<Option<HitRecord>>, n: int, t_max: Scalar, out: Option<HitRecord>) -> bool {
    match out {
        None => forall|i: int| 0 <= i < n ==> within(#[trigger] s[i], t_max) is None,
        Some(rec) => rec.t.at_most(t_max) && exists|i: int| #[trigger]
            nearest_at(s, n, i) && s[i] == out,
    }
}

/// Whether `out` is the nearest of the crossings `s` within `t_max`.
pub open spec fn nearest_of(s: Seq<Option<HitRecord>>, t_max: Scalar, out: Option<HitRecord>) -> bool {
    nearest_in(s, s.len() as int, t_max, out)
}

/// A list of primitives of one type.
pub struct HittableList<H: Hittable> {
    pub objects: Vec<H>,
}

/// `rand::seq::SliceRandom::choose` on the list's members, with the generator of
/// the calling thread: no member of an empty list, else one of the members.
#[verifier::external_body]
fn pick_member<H: Hittable>(objects: &Vec<H>) -> (out: Option<&H>)
    ensures
        objects.len() == 0 ==> out is None,
        objects.len() > 0 ==> out is Some && objects@.contains(*out.unwrap()),
{
    objects.choose(&mut rand::thread_rng())
}

impl<H: Hittable> HittableList<H> {
    /// Whether `outs` is a run of the scan: one answer per member, each allowed by
    /// its member for the query whose upper bound is the nearest record before it.
    pub open spec fn scanned(&self, r: Ray, t_min: Scalar, t_max: Scalar, outs: Seq<Option<HitRecord>>) -> bool {
        &&& outs.len() == self.objects@.len()
        &&& forall|i: int|
            0 <= i < outs.len() ==> self.objects@[i].hit_allows(
                r,
                t_min,
                bound_after(outs, t_max, i),
                #[trigger] outs[i],
            )
    }

    /// Whether `boxes` holds, for each member, a box that the member may return
    /// for the time from `t0` to `t1`.
    pub open spec fn boxed(&self, t0: Scalar, t1: Scalar, boxes: Seq<Option<AABB>>) -> bool {
        &&& boxes.len() == self.objects@.len()
        &&& forall|i: int|
            0 <= i < boxes.len() ==> self.objects@[i].box_allows(t0, t1, #[trigger] boxes[i])
    }

    pub fn new() -> (list: HittableList<H>)
        ensures
            list.objects@.len() == 0,
    {
        HittableList { objects: Vec::new() }
    }

    pub fn push(&mut self, object: H)
        ensures
            final(self).objects@ == old(self).objects@.push(object),
    {
        self.objects.push(object);
    }

    /// Appends a member: another name for `push`.
    pub fn add(&mut self, object: H)
        ensures
            final(self).objects@ == old(self).objects@.push(object),
    {
        self.objects.push(object);
    }

    /// Scans the members in order; each is asked for a hit below the nearest one
    /// found so far. The answer is the last record that a member gave.
    pub fn hit(&self, r: &Ray, t_min: Scalar, t_max: Scalar) -> (out: Option<HitRecord>)
        ensures
            exists|outs: Seq<Option<HitRecord>>| #[trigger]
                self.scanned(*r, t_min, t_max, outs) && out == last_hit(outs, outs.len() as int),
    {
        let mut closest_so_far = t_max;
        let mut rec_opt: Option<HitRecord> = None;
        let ghost mut outs: Seq<Option<HitRecord>> = Seq::empty();
        let mut i: usize = 0;
        while i < self.objects.len()
            invariant
                0 <= i <= self.objects.len(),
                outs.len() == i,
                forall|j: int|
                    0 <= j < i ==> self.objects@[j].hit_allows(
                        *r,
                        t_min,
                        bound_after(outs, t_max, j),
                        #[trigger] outs[j],
                    ),
                rec_opt == last_hit(outs, i as int),
                closest_so_far == bound_after(outs, t_max, i as int),
            decreases self.objects.len() - i,
        {
            let answer = self.objects[i].hit(r, t_min, closest_so_far);
            proof {
                let grown = outs.push(answer);
                assert forall|j: int| 0 <= j <= i implies last_hit(grown, j) == last_hit(outs, j) by {
                    lemma_last_hit_prefix(outs, grown, j);
                }
                assert forall|j: int| 0 <= j < i + 1 implies self.objects@[j].hit_allows(
                    *r,
                    t_min,
                    bound_after(grown, t_max, j),
                    #[trigger] grown[j],
                ) by {
                    if j < i {
                        assert(grown[j] == outs[j]);
                    }
                }
                outs = grown;
            }
            if let Some(rec) = answer {
                closest_so_far = rec.t;
                rec_opt = Some(rec);
            }
            i += 1;
        }
        assert(self.scanned(*r, t_min, t_max, outs));
        rec_opt
    }

    /// The box around all members; none for an empty list or where a member has
    /// none.
    pub fn bounding_box(&self, t0: Scalar, t1: Scalar) -> (out: Option<AABB>)
        ensures
            exists|boxes: Seq<Option<AABB>>| #[trigger]
                self.boxed(t0, t1, boxes) && out == merged_all(boxes, boxes.len() as int),
    {
        let mut acc: Option<AABB> = None;
        let ghost mut boxes: Seq<Option<AABB>> = Seq::empty();
        let mut i: usize = 0;
        while i < self.objects.len()
            invariant
                0 <= i <= self.objects.len(),
                boxes.len() == i,
                forall|j: int|
                    0 <= j < i ==> self.objects@[j].box_allows(t0, t1, #[trigger] boxes[j]),
                acc == merged_all(boxes, i as int),
            decreases self.objects.len() - i,
        {
            let b = self.objects[i].bounding_box(t0, t1);
            proof {
                let grown = boxes.push(b);
                lemma_merged_all_prefix(boxes, grown, i as int);
                assert forall|j: int| 0 <= j < i + 1 implies self.objects@[j].box_allows(
                    t0,
                    t1,
                    #[trigger] grown[j],
                ) by {
                    if j < i {
                        assert(grown[j] == boxes[j]);
                    }
                }
                boxes = grown;
            }
            acc = if i == 0 {
                b
            } else {
                match (acc, b) {
                    (Some(so_far), Some(bbox)) => Some(surrounding_box(&so_far, &bbox)),
                    _ => None,
                }
            };
            i += 1;
        }
        assert(self.boxed(t0, t1, boxes));
        acc
    }

    /// The densities of the members at direction `v` from `o`, in the members'
    /// order. The list's own density is their mean.
    pub fn pdf_values(&self, o: &Vec3, v: &Vec3) -> (out: Vec<Scalar>)
        ensures
            out@.len() == self.objects@.len(),
            forall|i: int|
                0 <= i < out@.len() ==> self.objects@[i].pdf_allows(*o, *v, #[trigger] out@[i]),
    {
        let mut out: Vec<Scalar> = Vec::new();
        let mut i: usize = 0;
        while i < self.objects.len()
            invariant
                0 <= i <= self.objects.len(),
                out@.len() == i,
                forall|j: int|
                    0 <= j < i ==> self.objects@[j].pdf_allows(*o, *v, #[trigger] out@[j]),
            decreases self.objects.len() - i,
        {
            out.push(self.objects[i].pdf_value(o, v));
            i += 1;
        }
        out
    }

    /// A direction drawn by one member, picked at random with equal chances.
    pub fn random(&self, o: &Vec3) -> (out: Vec3)
        requires
            self.objects@.len() > 0,
        ensures
            exists|i: int| 0 <= i < self.objects@.len() && #[trigger] self.objects@[i].random_allows(*o, out),
    {
        match pick_member(&self.objects) {
            Some(member) => {
                let out = member.random(o);
                proof {
                    let i = choose|i: int| 0 <= i < self.objects@.len() && self.objects@[i] == *member;
                    assert(self.objects@[i].random_allows(*o, out));
                }
                out
            },
            None => Vec3::new(Scalar::one(), Scalar::zero(), Scalar::zero()),
        }
    }
}

/// What lies before position `n` decides `last_hit` up to `n`.
pub proof fn lemma_last_hit_prefix(a: Seq<Option<HitRecord>>, b: Seq<Option<HitRecord>>, n: int)
    requires
        0 <= n <= a.len(),
        n <= b.len(),
        forall|j: int| 0 <= j < n ==> a[j] == b[j],
    ensures
        last_hit(a, n) == last_hit(b, n),
    decreases n,
{
    if n > 0 {
        lemma_last_hit_prefix(a, b, n - 1);
    }
}

/// A scan of exact members finds the nearest crossing: whatever run the scan made,
/// its answer is the nearest of the members' crossings within `t_max`.
pub proof fn lemma_scan_finds_nearest<H: Hittable>(
    list: HittableList<H>,
    r: Ray,
    t_min: Scalar,
    t_max: Scalar,
    s: Seq<Option<HitRecord>>,
    outs: Seq<Option<HitRecord>>,
)
    requires
        !t_max.nan(),
        s.len() == list.objects@.len(),
        forall|i: int| 0 <= i < s.len() ==> exact(list.objects@[i], r, t_min, #[trigger] s[i]),
        list.scanned(r, t_min, t_max, outs),
    ensures
        nearest_of(s, t_max, last_hit(outs, outs.len() as int)),
{
    lemma_scan_prefix_nearest(list, r, t_min, t_max, s, outs, s.len() as int);
}

/// The first `n` steps of a scan of exact members find the nearest of the first `n`
/// crossings.
proof fn lemma_scan_prefix_nearest<H: Hittable>(
    list: HittableList<H>,
    r: Ray,
    t_min: Scalar,
    t_max: Scalar,
    s: Seq<Option<HitRecord>>,
    outs: Seq<Option<HitRecord>>,
    n: int,
)
    requires
        !t_max.nan(),
        s.len() == list.objects@.len(),
        forall|i: int| 0 <= i < s.len() ==> exact(list.objects@[i], r, t_min, #[trigger] s[i]),
        list.scanned(r, t_min, t_max, outs),
        0 <= n <= s.len(),
    ensures
        nearest_in(s, n, t_max, last_hit(outs, n)),
    decreases n,
{
    if n > 0 {
        let m = n - 1;
        lemma_scan_prefix_nearest(list, r, t_min, t_max, s, outs, m);
        let cur = last_hit(outs, m);
        let bound = bound_after(outs, t_max, m);
        assert(exact(list.objects@[m], r, t_min, s[m]));
        assert(!bound.nan()) by {
            if let Some(rec) = cur {
                let i = choose|i: int| #[trigger] nearest_at(s, m, i) && s[i] == cur;
                assert(exact(list.objects@[i], r, t_min, s[i]));
            }
        }
        assert(list.objects@[m].hit_allows(r, t_min, bound, outs[m]));
        assert(outs[m] == within(s[m], bound));
        assert forall|j: int| 0 <= j < n && s[j] is Some implies !(#[trigger] s[j]).unwrap().t.nan() by {
            assert(exact(list.objects@[j], r, t_min, s[j]));
        }
        match outs[m] {
            None => {
                match cur {
                    None => {
                        assert forall|i: int| 0 <= i < n implies within(#[trigger] s[i], t_max) is None by {
                        }
                    },
                    Some(rec) => {
                        let i = choose|i: int| #[trigger] nearest_at(s, m, i) && s[i] == cur;
                        assert(nearest_at(s, n, i));
                    },
                }
            },
            Some(q) => {
                assert(s[m] == Some(q));
                match cur {
                    None => {
                        assert forall|j: int| 0 <= j < m implies (#[trigger] s[j] matches Some(p)
                            ==> q.t.at_most(p.t)) by {
                            assert(within(s[j], t_max) is None);
                        }
                        assert(nearest_at(s, n, m));
                    },
                    Some(rec) => {
                        let i = choose|i: int| #[trigger] nearest_at(s, m, i) && s[i] == cur;
                        assert forall|j: int| 0 <= j < m implies (#[trigger] s[j] matches Some(p)
                            ==> q.t.at_most(p.t)) by {
                            if j < i {
                            } else if j == i {
                            } else {
                            }
                        }
                        assert(nearest_at(s, n, m));
                    },
                }
            },
        }
    }
}

/// A list of exact members is exact as a whole: if `whole` is the nearest of the
/// members' crossings without an upper bound, a scan up to `t_max` answers with
/// `whole` where it lies within `t_max`, and with nothing otherwise.
pub proof fn lemma_scan_is_exact<H: Hittable>(
    list: HittableList<H>,
    r: Ray,
    t_min: Scalar,
    t_max: Scalar,
    s: Seq<Option<HitRecord>>,
    whole: Option<HitRecord>,
    outs: Seq<Option<HitRecord>>,
)
    requires
        !t_max.nan(),
        s.len() == list.objects@.len(),
        forall|i: int| 0 <= i < s.len() ==> exact(list.objects@[i], r, t_min, #[trigger] s[i]),
        nearest_of(s, Scalar { bits: crate::scalar::INFINITY_BITS }, whole),
        list.scanned(r, t_min, t_max, outs),
    ensures
        last_hit(outs, outs.len() as int) == within(whole, t_max),
        whole matches Some(rec) ==> !rec.t.nan(),
{
    let n = s.len() as int;
    let inf = Scalar { bits: crate::scalar::INFINITY_BITS };
    let out = last_hit(outs, outs.len() as int);
    lemma_scan_finds_nearest(list, r, t_min, t_max, s, outs);
    assert forall|j: int| 0 <= j < n && s[j] is Some implies !(#[trigger] s[j]).unwrap().t.nan() by {
        assert(exact(list.objects@[j], r, t_min, s[j]));
    }
    match whole {
        None => {
            assert forall|i: int| 0 <= i < n implies within(#[trigger] s[i], t_max) is None by {
                assert(within(s[i], inf) is None);
            }
        },
        Some(w) => {
            let i = choose|i: int| #[trigger] nearest_at(s, n, i) && s[i] == whole;
            if w.t.at_most(t_max) {
                assert(nearest_at(s, n, i) && s[i] == within(whole, t_max));
            } else {
                assert forall|j: int| 0 <= j < n implies within(#[trigger] s[j], t_max) is None by {
                    if j < i {
                    } else if j == i {
                    } else {
                    }
                }
            }
        },
    }
    assert(nearest_of(s, t_max, within(whole, t_max)));
    lemma_nearest_unique(s, t_max, out, within(whole, t_max));
}

/// Whether the nearest crossing is attained by one member only: no other member
/// has a crossing at the ray parameter of `nearest`, unless it is the same record.
pub open spec fn lone(s: Seq<Option<HitRecord>>, nearest: Option<HitRecord>) -> bool {
    match nearest {
        Some(x) => forall|j: int|
            0 <= j < s.len() ==> (#[trigger] s[j] matches Some(y) ==> (y.t.same(x.t) ==> s[j]
                == nearest)),
        None => true,
    }
}

/// The crossings `s` in the order `order`.
pub open spec fn rearranged(s: Seq<Option<HitRecord>>, order: Seq<usize>) -> Seq<Option<HitRecord>> {
    Seq::new(order.len(), |k: int| s[order[k] as int])
}

/// The nearest hit does not depend on the order of the members: where the nearest
/// crossing is attained by one member only, the nearest of the crossings and the
/// nearest of the same crossings in another order are the same record, or both
/// nothing.
pub proof fn lemma_scan_ignores_order(
    s: Seq<Option<HitRecord>>,
    order: Seq<usize>,
    t_max: Scalar,
    a: Option<HitRecord>,
    b: Option<HitRecord>,
)
    requires
        forall|k: int| 0 <= k < order.len() ==> #[trigger] order[k] < s.len(),
        forall|i: int| 0 <= i < s.len() ==> #[trigger] crate::bvh::names(order, i),
        nearest_of(s, t_max, a),
        nearest_of(rearranged(s, order), t_max, b),
        lone(s, a),
    ensures
        a == b,
{
    let c = rearranged(s, order);
    let n = s.len() as int;
    let m = c.len() as int;
    match a {
        Some(x) => {
            let i = choose|i: int| #[trigger] nearest_at(s, n, i) && s[i] == a;
            assert(crate::bvh::names(order, i));
            let ki = choose|ki: int| 0 <= ki < order.len() && #[trigger] order[ki] as int == i;
            assert(c[ki] == a);
            match b {
                Some(y) => {
                    let k = choose|k: int| #[trigger] nearest_at(c, m, k) && c[k] == b;
                    let at = order[k] as int;
                    assert(s[at] == b);
                    assert(y.t.at_most(x.t)) by {
                        if ki < k {
                        } else if ki == k {
                        } else {
                        }
                    }
                    assert(x.t.at_most(y.t)) by {
                        if at < i {
                        } else if at == i {
                        } else {
                        }
                    }
                    assert(s[at] == a);
                },
                None => {
                    assert(within(c[ki], t_max) is None);
                },
            }
        },
        None => {
            if let Some(y) = b {
                let k = choose|k: int| #[trigger] nearest_at(c, m, k) && c[k] == b;
                let at = order[k] as int;
                assert(s[at] == b);
                assert(within(s[at], t_max) is None);
            }
        },
    }
}

/// The nearest hit does not depend on how the members are grouped: if `wa` is the
/// nearest of the crossings `a` and `wb` the nearest of the crossings `b`, each
/// without an upper bound, then the nearest of the two within `t_max` is the
/// nearest, within `t_max`, of `a` followed by `b`.
pub proof fn lemma_scan_ignores_grouping(
    a: Seq<Option<HitRecord>>,
    b: Seq<Option<HitRecord>>,
    t_max: Scalar,
    wa: Option<HitRecord>,
    wb: Option<HitRecord>,
    out: Option<HitRecord>,
)
    requires
        forall|i: int| 0 <= i < a.len() ==> (#[trigger] a[i] matches Some(q) ==> !q.t.nan()),
        forall|i: int| 0 <= i < b.len() ==> (#[trigger] b[i] matches Some(q) ==> !q.t.nan()),
        nearest_of(a, Scalar { bits: crate::scalar::INFINITY_BITS }, wa),
        nearest_of(b, Scalar { bits: crate::scalar::INFINITY_BITS }, wb),
        nearest_of(seq![wa, wb], t_max, out),
    ensures
        nearest_of(a + b, t_max, out),
{
    let inf = Scalar { bits: crate::scalar::INFINITY_BITS };
    let ab = a + b;
    let n = ab.len() as int;
    let m = a.len() as int;
    let two = seq![wa, wb];
    assert forall|i: int| 0 <= i < n implies #[trigger] ab[i] == (if i < m {
        a[i]
    } else {
        b[i - m]
    }) by {}
    // what the nearest of each group says of every member of the group
    assert forall|i: int| 0 <= i < m implies (#[trigger] a[i] matches Some(q) ==> wa is Some
        && wa.unwrap().t.at_most(q.t)) by {
        if let Some(q) = a[i] {
            if wa is None {
                assert(within(a[i], inf) is None);
            } else {
                let at = choose|at: int| #[trigger] nearest_at(a, m, at) && a[at] == wa;
                if i < at {
                } else if i == at {
                } else {
                }
            }
        }
    }
    assert forall|i: int| 0 <= i < b.len() implies (#[trigger] b[i] matches Some(q) ==> wb is Some
        && wb.unwrap().t.at_most(q.t)) by {
        if let Some(q) = b[i] {
            if wb is None {
                assert(within(b[i], inf) is None);
            } else {
                let at = choose|at: int| #[trigger] nearest_at(b, b.len() as int, at) && b[at]
                    == wb;
                if i < at {
                } else if i == at {
                } else {
                }
            }
        }
    }
    assert(two[0] == wa && two[1] == wb);
    match out {
        None => {
            assert(within(two[0], t_max) is None);
            assert(within(two[1], t_max) is None);
            assert forall|i: int| 0 <= i < n implies within(#[trigger] ab[i], t_max) is None by {
                if i < m {
                    assert(ab[i] == a[i]);
                } else {
                    assert(ab[i] == b[i - m]);
                }
            }
        },
        Some(rec) => {
            let idx = choose|idx: int| #[trigger] nearest_at(two, 2, idx) && two[idx] == out;
            if idx == 0 {
                let i = choose|i: int| #[trigger] nearest_at(a, m, i) && a[i] == wa;
                assert(ab[i] == out);
                assert forall|j: int| i < j < n implies (#[trigger] ab[j] matches Some(q)
                    ==> rec.t.less(q.t)) by {
                    if j < m {
                        assert(ab[j] == a[j]);
                    } else {
                        assert(ab[j] == b[j - m]);
                        if ab[j] is Some {
                            assert(two[1] is Some);
                        }
                    }
                }
                assert forall|j: int| 0 <= j < i implies (#[trigger] ab[j] matches Some(q)
                    ==> rec.t.at_most(q.t)) by {
                    assert(ab[j] == a[j]);
                }
                assert(nearest_at(ab, n, i));
            } else {
                let j = choose|j: int| #[trigger] nearest_at(b, b.len() as int, j) && b[j] == wb;
                let at = m + j;
                assert(ab[at] == out);
                assert forall|k: int| 0 <= k < at implies (#[trigger] ab[k] matches Some(q)
                    ==> rec.t.at_most(q.t)) by {
                    if k < m {
                        assert(ab[k] == a[k]);
                        if ab[k] is Some {
                            assert(two[0] is Some);
                        }
                    } else {
                        assert(ab[k] == b[k - m]);
                    }
                }
                assert forall|k: int| at < k < n implies (#[trigger] ab[k] matches Some(q)
                    ==> rec.t.less(q.t)) by {
                    assert(ab[k] == b[k - m]);
                }
                assert(nearest_at(ab, n, at));
            }
        },
    }
}

/// The nearest crossing is unique up to its place: two answers that are both the
/// nearest of the same crossings within the same bound are the same record.
pub proof fn lemma_nearest_unique(
    s: Seq<Option<HitRecord>>,
    t_max: Scalar,
    a: Option<HitRecord>,
    b: Option<HitRecord>,
)
    requires
        nearest_of(s, t_max, a),
        nearest_of(s, t_max, b),
    ensures
        a == b,
{
    let n = s.len() as int;
    match (a, b) {
        (Some(x), Some(y)) => {
            let i = choose|i: int| #[trigger] nearest_at(s, n, i) && s[i] == a;
            let j = choose|j: int| #[trigger] nearest_at(s, n, j) && s[j] == b;
            if i < j {
                assert(s[j] is Some);
                assert(x.t.less(y.t));
                assert(y.t.at_most(x.t));
            } else if j < i {
                assert(s[i] is Some);
                assert(y.t.less(x.t));
                assert(x.t.at_most(y.t));
            }
        },
        (Some(x), None) => {
            let i = choose|i: int| #[trigger] nearest_at(s, n, i) && s[i] == a;
            assert(within(s[i], t_max) is None);
        },
        (None, Some(y)) => {
            let j = choose|j: int| #[trigger] nearest_at(s, n, j) && s[j] == b;
            assert(within(s[j], t_max) is None);
        },
        (None, None) => {},
    }
}

/// What lies before position `n` decides `merged_all` up to `n`.
pub proof fn lemma_merged_all_prefix(a: Seq<Option<AABB>>, b: Seq<Option<AABB>>, n: int)
    requires
        0 <= n <= a.len(),
        n <= b.len(),
        forall|j: int| 0 <= j < n ==> a[j] == b[j],
    ensures
        merged_all(a, n) == merged_all(b, n),
    decreases n,
{
    if n > 1 {
        lemma_merged_all_prefix(a, b, n - 1);
    }
}

} // verus!
