//! The bounding volume hierarchy: a binary tree over the boxes of a set of
//! primitives, built once by sorting and halving, and descended with a shrinking
//! upper bound.

use crate::aabb::{merged, slabs_cross, surrounding_box, Slab, AABB};
use crate::hittable::{exact, within, HitRecord, Hittable};
use crate::hittable_list::{last_hit, lone, nearest_at, HittableList};
use crate::ray::Ray;
use crate::scalar::Scalar;
use vstd::prelude::*;

verus! {

/// A node of the hierarchy. A leaf names one primitive by its position in the list
/// that the hierarchy was built from; a branch holds two subtrees and the box around
/// both.
pub enum Node {
    Leaf { index: usize },
    Branch { left: Box<Node>, right: Box<Node>, bounds: AABB },
}

/// Why a hierarchy could not be built.
#[derive(Clone, Copy, Debug, PartialEq, Eq, Structural)]
pub enum BuildError {
    /// There is no primitive to build it from.
    Empty,
    /// The primitive at `index` has no bounding box.
    Unbounded { index: usize },
}

/// A bounding volume hierarchy over the primitives `objects`.
pub struct BVH<H: Hittable> {
    pub objects: Vec<H>,
    pub boxes: Vec<AABB>,
    pub root: Node,
    pub time0: Scalar,
    pub time1: Scalar,
}

/// The position, in the total order, of the smallest corner of box `i` along `axis`.
pub open spec fn corner_key(boxes: Seq<AABB>, i: int, axis: int) -> int {
    boxes[i].min.component(axis).key()
}

/// Whether `order` lists primitives by rising smallest corner along `axis`.
pub open spec fn sorted_by_corner(order: Seq<usize>, boxes: Seq<AABB>, axis: int) -> bool {
    forall|p: int, q: int|
        0 <= p <= q < order.len() ==> corner_key(boxes, #[trigger] order[p] as int, axis)
            <= corner_key(boxes, #[trigger] order[q] as int, axis)
}

/// The positions `0, 1, .., n - 1`.
pub open spec fn positions(n: nat) -> Seq<usize> {
    Seq::new(n, |i: int| i as usize)
}

impl Node {
    /// The primitives under the node, from left to right.
    pub open spec fn leaves(self) -> Seq<usize>
        decreases self,
    {
        match self {
            Node::Leaf { index } => seq![index],
            Node::Branch { left, right, bounds } => left.leaves() + right.leaves(),
        }
    }

    /// The box of the node: a leaf's is that of its primitive.
    pub open spec fn bounds_in(self, boxes: Seq<AABB>) -> AABB {
        match self {
            Node::Leaf { index } => boxes[index as int],
            Node::Branch { left, right, bounds } => bounds,
        }
    }

    /// Whether the subtree is what building along `axis` yields: every leaf names a
    /// box; a branch's box is the merge of its children's; its left subtree holds
    /// half of its primitives, rounded down, and none of them has its smallest
    /// corner along `axis` after one of the right subtree; and the children are
    /// built along the next axis.
    pub open spec fn well_built(self, boxes: Seq<AABB>, axis: int) -> bool
        decreases self,
    {
        match self {
            Node::Leaf { index } => index < boxes.len(),
            Node::Branch { left, right, bounds } => {
                &&& left.well_built(boxes, (axis + 1) % 3)
                &&& right.well_built(boxes, (axis + 1) % 3)
                &&& bounds == merged(left.bounds_in(boxes), right.bounds_in(boxes))
                &&& left.leaves().len() == (left.leaves().len() + right.leaves().len()) / 2
                &&& forall|p: int, q: int|
                    0 <= p < left.leaves().len() && 0 <= q < right.leaves().len() ==> corner_key(
                        boxes,
                        #[trigger] left.leaves()[p] as int,
                        axis,
                    ) <= corner_key(boxes, #[trigger] right.leaves()[q] as int, axis)
            },
        }
    }

    fn bounds(&self, boxes: &Vec<AABB>) -> (out: AABB)
        requires
            self is Leaf ==> self->index < boxes.len(),
        ensures
            out == self.bounds_in(boxes@),
    {
        match self {
            Node::Leaf { index } => boxes[*index],
            Node::Branch { left, right, bounds } => *bounds,
        }
    }
}

/// Every subtree holds at least one primitive.
pub proof fn lemma_leaves_nonempty(node: Node)
    ensures
        node.leaves().len() >= 1,
    decreases node,
{
    match node {
        Node::Leaf { index } => {},
        Node::Branch { left, right, bounds } => {
            lemma_leaves_nonempty(*left);
        },
    }
}

/// The primitives of `items` by rising smallest corner along `axis`.
fn sort_by_corner(items: &Vec<usize>, boxes: &Vec<AABB>, axis: usize) -> (out: Vec<usize>)
    requires
        axis < 3,
        forall|k: int| 0 <= k < items.len() ==> #[trigger] items[k] < boxes.len(),
    ensures
        out@.to_multiset() == items@.to_multiset(),
        out@.len() == items@.len(),
        sorted_by_corner(out@, boxes@, axis as int),
        forall|k: int| 0 <= k < out.len() ==> #[trigger] out[k] < boxes.len(),
{
    let mut out: Vec<usize> = Vec::new();
    let mut i: usize = 0;
    assert(items@.take(0) =~= Seq::<usize>::empty());
    while i < items.len()
        invariant
            0 <= i <= items.len(),
            axis < 3,
            out@.len() == i,
            out@.to_multiset() == items@.take(i as int).to_multiset(),
            sorted_by_corner(out@, boxes@, axis as int),
            forall|k: int| 0 <= k < items.len() ==> #[trigger] items[k] < boxes.len(),
            forall|k: int| 0 <= k < out.len() ==> #[trigger] out[k] < boxes.len(),
        decreases items.len() - i,
    {
        let x = items[i];
        let key = boxes[x].min.get(axis);
        let mut p: usize = 0;
        while p < out.len() && !key.total_lt(boxes[out[p]].min.get(axis))
            invariant
                0 <= p <= out.len(),
                axis < 3,
                x < boxes.len(),
                key == boxes@[x as int].min.component(axis as int),
                forall|k: int| 0 <= k < out.len() ==> #[trigger] out[k] < boxes.len(),
                forall|k: int|
                    0 <= k < p ==> corner_key(boxes@, #[trigger] out@[k] as int, axis as int)
                        <= key.key(),
            decreases out.len() - p,
        {
            p += 1;
        }
        let ghost before = out@;
        out.insert(p, x);
        proof {
            assert(out@ == before.insert(p as int, x));
            assert(items@.take(i + 1) =~= items@.take(i as int).push(x));
            vstd::seq_lib::to_multiset_insert(before, p as int, x);
            vstd::seq_lib::to_multiset_build(items@.take(i as int), x);
            assert forall|a: int, b: int| 0 <= a <= b < out@.len() implies corner_key(
                boxes@,
                #[trigger] out@[a] as int,
                axis as int,
            ) <= corner_key(boxes@, #[trigger] out@[b] as int, axis as int) by {
                let a0 = if a < p { a } else { a - 1 };
                let b0 = if b < p { b } else { b - 1 };
                if a != p {
                    assert(out@[a] == before[a0]);
                }
                if b != p {
                    assert(out@[b] == before[b0]);
                }
                if a != p && b != p {
                    assert(a0 <= b0);
                }
            }
            assert forall|k: int| 0 <= k < out.len() implies #[trigger] out[k] < boxes.len() by {
                if k < p {
                    assert(out@[k] == before[k]);
                } else if k > p {
                    assert(out@[k] == before[k - 1]);
                }
            }
        }
        i += 1;
    }
    assert(items@.take(items.len() as int) =~= items@);
    out
}

/// The subtree over the primitives `items`, built along `axis`.
fn build(items: Vec<usize>, boxes: &Vec<AABB>, axis: usize) -> (node: Node)
    requires
        items.len() > 0,
        axis < 3,
        forall|k: int| 0 <= k < items.len() ==> #[trigger] items[k] < boxes.len(),
    ensures
        node.well_built(boxes@, axis as int),
        node.leaves().to_multiset() == items@.to_multiset(),
        node.leaves().len() == items@.len(),
    decreases items.len(),
{
    broadcast use vstd::seq_lib::lemma_multiset_commutative, vstd::seq_lib::to_multiset_contains;

    if items.len() == 1 {
        assert(seq![items[0]] =~= items@);
        Node::Leaf { index: items[0] }
    } else {
        let mut sorted = sort_by_corner(&items, boxes, axis);
        let mid = sorted.len() / 2;
        let ghost whole = sorted@;
        let upper = sorted.split_off(mid);
        let next = if axis == 2 {
            0
        } else {
            axis + 1
        };
        assert(whole =~= sorted@ + upper@);
        assert forall|k: int| 0 <= k < sorted.len() implies #[trigger] sorted[k] < boxes.len() by {
            assert(sorted@[k] == whole[k]);
        }
        assert forall|k: int| 0 <= k < upper.len() implies #[trigger] upper[k] < boxes.len() by {
            assert(upper@[k] == whole[mid + k]);
        }
        let ghost lower_seq = sorted@;
        let ghost upper_seq = upper@;
        let left = build(sorted, boxes, next);
        let right = build(upper, boxes, next);
        let bounds = surrounding_box(&left.bounds(boxes), &right.bounds(boxes));
        proof {
            assert forall|p: int, q: int|
                0 <= p < left.leaves().len() && 0 <= q < right.leaves().len() implies corner_key(
                boxes@,
                #[trigger] left.leaves()[p] as int,
                axis as int,
            ) <= corner_key(boxes@, #[trigger] right.leaves()[q] as int, axis as int) by {
                let a = left.leaves()[p];
                let b = right.leaves()[q];
                assert(left.leaves().contains(a));
                assert(right.leaves().contains(b));
                assert(lower_seq.to_multiset().count(a) > 0);
                assert(upper_seq.to_multiset().count(b) > 0);
                assert(lower_seq.contains(a));
                assert(upper_seq.contains(b));
                let pa = choose|k: int| 0 <= k < lower_seq.len() && lower_seq[k] == a;
                let qb = choose|k: int| 0 <= k < upper_seq.len() && upper_seq[k] == b;
                assert(whole[pa] == a);
                assert(whole[mid + qb] == b);
            }
        }
        Node::Branch { left: Box::new(left), right: Box::new(right), bounds }
    }
}

/// Carries the three values that a step of the descent depends on: the slabs
/// that the box of a branch yielded and the answers of its two subtrees.
pub open spec fn visit(slabs: [Slab; 3], l: Option<HitRecord>, rr: Option<HitRecord>) -> bool {
    true
}

/// Whether `out` is an answer that a descent from `node` may give.
///
/// A leaf answers as its primitive does. A branch first has the slabs of its box
/// computed by `f`; where the ray does not cross the box between `t_min` and
/// `t_max` it answers with nothing. Else the left subtree is asked, then the right
/// one below the left one's record, and the right one's record wins over the
/// left one's.
pub open spec fn descent_allows<H: Hittable, F: Fn(&AABB, &Ray) -> [Slab; 3]>(
    node: Node,
    objs: Seq<H>,
    r: Ray,
    t_min: Scalar,
    t_max: Scalar,
    f: F,
    out: Option<HitRecord>,
) -> bool
    decreases node,
{
    match node {
        Node::Leaf { index } => objs[index as int].hit_allows(r, t_min, t_max, out),
        Node::Branch { left, right, bounds } => exists|
            slabs: [Slab; 3],
            l: Option<HitRecord>,
            rr: Option<HitRecord>,
        |
            #![trigger visit(slabs, l, rr)]
            {
                &&& visit(slabs, l, rr)
                &&& f.ensures((&bounds, &r), slabs)
                &&& if slabs_cross(slabs, t_min, t_max) {
                    &&& descent_allows(*left, objs, r, t_min, t_max, f, l)
                    &&& descent_allows(
                        *right,
                        objs,
                        r,
                        t_min,
                        match l {
                            Some(rec) => rec.t,
                            None => t_max,
                        },
                        f,
                        rr,
                    )
                    &&& out == (if rr is Some {
                        rr
                    } else {
                        l
                    })
                } else {
                    out is None
                }
            },
    }
}

impl Node {
    /// Whether every leaf names a position below `n`.
    pub open spec fn indexed_below(self, n: int) -> bool
        decreases self,
    {
        match self {
            Node::Leaf { index } => index < n,
            Node::Branch { left, right, bounds } => left.indexed_below(n) && right.indexed_below(n),
        }
    }

    /// The crossings `s` of the primitives under the node, from left to right.
    pub open spec fn crossings(self, s: Seq<Option<HitRecord>>) -> Seq<Option<HitRecord>> {
        Seq::new(self.leaves().len(), |k: int| s[self.leaves()[k] as int])
    }

    fn descend<H: Hittable, F: Fn(&AABB, &Ray) -> [Slab; 3]>(
        &self,
        objects: &Vec<H>,
        r: &Ray,
        t_min: Scalar,
        t_max: Scalar,
        slabs_of: &F,
    ) -> (out: Option<HitRecord>)
        requires
            self.indexed_below(objects@.len() as int),
            forall|b: &AABB, q: &Ray| slabs_of.requires((b, q)),
        ensures
            descent_allows(*self, objects@, *r, t_min, t_max, *slabs_of, out),
        decreases self,
    {
        match self {
            Node::Leaf { index } => objects[*index].hit(r, t_min, t_max),
            Node::Branch { left, right, bounds } => {
                let slabs = slabs_of(bounds, r);
                if !bounds.hit(&slabs, t_min, t_max) {
                    assert(visit(slabs, None, None));
                    return None;
                }
                let l = left.descend(objects, r, t_min, t_max, slabs_of);
                let bound = match l {
                    Some(rec) => rec.t,
                    None => t_max,
                };
                let rr = right.descend(objects, r, t_min, bound, slabs_of);
                assert(visit(slabs, l, rr));
                match rr {
                    Some(rec) => Some(rec),
                    None => l,
                }
            },
        }
    }
}

impl<H: Hittable> BVH<H> {
    /// Whether the hierarchy is what building it from `objects` yields: `boxes`
    /// holds the box of every primitive, the tree is well built along the first
    /// axis, and its leaves are the primitives, each once.
    pub open spec fn valid(&self) -> bool {
        &&& self.boxes@.len() == self.objects@.len()
        &&& forall|i: int|
            0 <= i < self.objects@.len() ==> (#[trigger] self.objects@[i]).box_allows(
                self.time0,
                self.time1,
                Some(self.boxes@[i]),
            )
        &&& self.root.well_built(self.boxes@, 0)
        &&& self.root.leaves().to_multiset() == positions(self.objects@.len()).to_multiset()
    }

    /// Builds the hierarchy over `objects`, with their boxes for the time from
    /// `time0` to `time1`.
    ///
    /// The primitives are sorted by the smallest corner of their boxes along one
    /// axis and halved at the median; each half is built in the same way along the
    /// next axis, until a half holds one primitive. Every primitive is asked for
    /// its box once, in order. Fails where there is no primitive, and at the first
    /// primitive that answers with no box.
    pub fn new(objects: Vec<H>, time0: Scalar, time1: Scalar) -> (out: Result<BVH<H>, BuildError>)
        ensures
            match out {
                Ok(bvh) => {
                    &&& bvh.valid()
                    &&& bvh.objects@ == objects@
                    &&& bvh.time0 == time0
                    &&& bvh.time1 == time1
                    &&& objects@.len() > 0
                },
                Err(BuildError::Empty) => objects@.len() == 0,
                Err(BuildError::Unbounded { index }) => {
                    &&& index < objects@.len()
                    &&& objects@[index as int].box_allows(time0, time1, None)
                },
            },
    {
        if objects.len() == 0 {
            return Err(BuildError::Empty);
        }
        let mut boxes: Vec<AABB> = Vec::new();
        let mut order: Vec<usize> = Vec::new();
        let mut i: usize = 0;
        while i < objects.len()
            invariant
                0 <= i <= objects.len(),
                boxes@.len() == i,
                order@ == positions(i as nat),
                forall|j: int|
                    0 <= j < i ==> (#[trigger] objects@[j]).box_allows(
                        time0,
                        time1,
                        Some(boxes@[j]),
                    ),
            decreases objects.len() - i,
        {
            match objects[i].bounding_box(time0, time1) {
                Some(b) => {
                    boxes.push(b);
                    order.push(i);
                    assert(order@ =~= positions((i + 1) as nat));
                },
                None => {
                    return Err(BuildError::Unbounded { index: i });
                },
            }
            i += 1;
        }
        let root = build(order, &boxes, 0);
        Ok(BVH { objects, boxes, root, time0, time1 })
    }

    /// The nearest intersection of `r` with a primitive between `t_min` and
    /// `t_max`, found by descending the tree. `slabs_of` computes, for a box and the
    /// ray, where the ray meets the planes that bound the box.
    pub fn hit<F: Fn(&AABB, &Ray) -> [Slab; 3]>(
        &self,
        r: &Ray,
        t_min: Scalar,
        t_max: Scalar,
        slabs_of: &F,
    ) -> (out: Option<HitRecord>)
        requires
            self.valid(),
            forall|b: &AABB, q: &Ray| slabs_of.requires((b, q)),
        ensures
            descent_allows(self.root, self.objects@, *r, t_min, t_max, *slabs_of, out),
    {
        proof {
            lemma_well_built_indexed(self.root, self.boxes@, 0);
        }
        self.root.descend(&self.objects, r, t_min, t_max, slabs_of)
    }

    /// The box around all primitives.
    pub fn bounding_box(&self) -> (out: AABB)
        requires
            self.valid(),
        ensures
            out == self.root.bounds_in(self.boxes@),
    {
        proof {
            lemma_well_built_indexed(self.root, self.boxes@, 0);
        }
        self.root.bounds(&self.boxes)
    }
}

/// The leaves of a well-built tree name boxes.
pub proof fn lemma_well_built_indexed(node: Node, boxes: Seq<AABB>, axis: int)
    requires
        node.well_built(boxes, axis),
    ensures
        node.indexed_below(boxes.len() as int),
        forall|k: int| 0 <= k < node.leaves().len() ==> #[trigger] node.leaves()[k] < boxes.len(),
    decreases node,
{
    match node {
        Node::Leaf { index } => {},
        Node::Branch { left, right, bounds } => {
            lemma_well_built_indexed(*left, boxes, (axis + 1) % 3);
            lemma_well_built_indexed(*right, boxes, (axis + 1) % 3);
        },
    }
}

/// Whether the crossing of the `k`-th primitive under `node` lies within `t_max`.
pub open spec fn reaches(node: Node, s: Seq<Option<HitRecord>>, k: int, t_max: Scalar) -> bool {
    &&& 0 <= k < node.leaves().len()
    &&& within(s[node.leaves()[k] as int], t_max) is Some
}

/// Whether the boxes of the tree never hide a crossing: where a primitive under a
/// branch has its crossing within `t_max`, every slab computation that `f` may
/// return for the branch's box says that the ray crosses the box between `t_min`
/// and `t_max`.
pub open spec fn boxes_sound<F: Fn(&AABB, &Ray) -> [Slab; 3]>(
    node: Node,
    r: Ray,
    t_min: Scalar,
    s: Seq<Option<HitRecord>>,
    f: F,
) -> bool
    decreases node,
{
    match node {
        Node::Leaf { index } => true,
        Node::Branch { left, right, bounds } => {
            &&& boxes_sound(*left, r, t_min, s, f)
            &&& boxes_sound(*right, r, t_min, s, f)
            &&& forall|slabs: [Slab; 3], t_max: Scalar, k: int|
                !t_max.nan() && #[trigger] f.ensures((&bounds, &r), slabs) && #[trigger] reaches(
                    node,
                    s,
                    k,
                    t_max,
                ) ==> slabs_cross(slabs, t_min, t_max)
        },
    }
}

/// Whether `out` is one of the crossings `c`.
pub open spec fn among(c: Seq<Option<HitRecord>>, out: Option<HitRecord>) -> bool {
    exists|i: int| 0 <= i < c.len() && #[trigger] c[i] == out
}

/// Whether none of the crossings `c` lies before `t`.
pub open spec fn none_before(c: Seq<Option<HitRecord>>, t: Scalar) -> bool {
    forall|j: int| 0 <= j < c.len() ==> (#[trigger] c[j] matches Some(q) ==> t.at_most(q.t))
}

/// Whether none of the crossings `c` lies within `t`.
pub open spec fn none_within(c: Seq<Option<HitRecord>>, t: Scalar) -> bool {
    forall|j: int| 0 <= j < c.len() ==> within(#[trigger] c[j], t) is None
}

/// Whether `out` is a nearest of the crossings `c` within `t_max`: a record that
/// is one of the crossings, lies within `t_max` and has no crossing before it; or
/// nothing, where no crossing lies within `t_max`. Of several crossings at the
/// nearest ray parameter it may be any.
pub open spec fn a_nearest_of(c: Seq<Option<HitRecord>>, t_max: Scalar, out: Option<HitRecord>) -> bool {
    match out {
        Some(rec) => rec.t.at_most(t_max) && among(c, out) && none_before(c, rec.t),
        None => none_within(c, t_max),
    }
}

/// A descent through sound boxes over exact primitives finds a nearest crossing:
/// whatever run the descent made, its answer is a nearest, within `t_max`, of the
/// crossings of the primitives under the node.
pub proof fn lemma_descent_finds_nearest<H: Hittable, F: Fn(&AABB, &Ray) -> [Slab; 3]>(
    node: Node,
    objs: Seq<H>,
    r: Ray,
    t_min: Scalar,
    t_max: Scalar,
    s: Seq<Option<HitRecord>>,
    f: F,
    out: Option<HitRecord>,
)
    requires
        !t_max.nan(),
        node.indexed_below(objs.len() as int),
        s.len() == objs.len(),
        forall|i: int| 0 <= i < s.len() ==> exact(objs[i], r, t_min, #[trigger] s[i]),
        boxes_sound(node, r, t_min, s, f),
        descent_allows(node, objs, r, t_min, t_max, f, out),
    ensures
        a_nearest_of(node.crossings(s), t_max, out),
    decreases node,
{
    let c = node.crossings(s);
    lemma_leaves_indexed(node, objs.len() as int);
    assert forall|k: int| 0 <= k < c.len() implies (#[trigger] c[k] matches Some(q) ==> !q.t.nan()) by {
        let at = node.leaves()[k] as int;
        assert(exact(objs[at], r, t_min, s[at]));
    }
    match node {
        Node::Leaf { index } => {
            assert(exact(objs[index as int], r, t_min, s[index as int]));
            assert(out == within(s[index as int], t_max));
            assert(c.len() == 1);
            assert(c[0] == s[index as int]);
        },
        Node::Branch { left, right, bounds } => {
            let (slabs, l, rr) = choose|
                slabs: [Slab; 3],
                l: Option<HitRecord>,
                rr: Option<HitRecord>,
            |
                #![trigger visit(slabs, l, rr)]
                {
                    &&& visit(slabs, l, rr)
                    &&& f.ensures((&bounds, &r), slabs)
                    &&& if slabs_cross(slabs, t_min, t_max) {
                        &&& descent_allows(*left, objs, r, t_min, t_max, f, l)
                        &&& descent_allows(
                            *right,
                            objs,
                            r,
                            t_min,
                            match l {
                                Some(rec) => rec.t,
                                None => t_max,
                            },
                            f,
                            rr,
                        )
                        &&& out == (if rr is Some {
                            rr
                        } else {
                            l
                        })
                    } else {
                        out is None
                    }
                };
            if slabs_cross(slabs, t_min, t_max) {
                let bound = match l {
                    Some(rec) => rec.t,
                    None => t_max,
                };
                lemma_descent_finds_nearest(*left, objs, r, t_min, t_max, s, f, l);
                assert(!bound.nan());
                lemma_descent_finds_nearest(*right, objs, r, t_min, bound, s, f, rr);
                let a = left.crossings(s);
                let b = right.crossings(s);
                assert(c =~= a + b);
                assert forall|j: int| 0 <= j < c.len() implies #[trigger] c[j] == (if j < a.len() {
                    a[j]
                } else {
                    b[j - a.len()]
                }) by {}
                match rr {
                    Some(y) => {
                        let i = choose|i: int| 0 <= i < b.len() && #[trigger] b[i] == rr;
                        assert(c[a.len() + i] == rr);
                        assert forall|j: int| 0 <= j < c.len() implies (#[trigger] c[j] matches Some(
                            q,
                        ) ==> y.t.at_most(q.t)) by {
                            if j < a.len() {
                                assert(c[j] == a[j]);
                                if l is None {
                                    assert(within(a[j], t_max) is None);
                                }
                            } else {
                                assert(c[j] == b[j - a.len()]);
                            }
                        }
                    },
                    None => {
                        match l {
                            Some(x) => {
                                let i = choose|i: int| 0 <= i < a.len() && #[trigger] a[i] == l;
                                assert(c[i] == l);
                                assert forall|j: int| 0 <= j < c.len() implies (#[trigger] c[j] matches Some(
                                    q,
                                ) ==> x.t.at_most(q.t)) by {
                                    if j < a.len() {
                                        assert(c[j] == a[j]);
                                    } else {
                                        assert(c[j] == b[j - a.len()]);
                                        assert(within(b[j - a.len()], bound) is None);
                                    }
                                }
                            },
                            None => {
                                assert forall|j: int| 0 <= j < c.len() implies within(
                                    #[trigger] c[j],
                                    t_max,
                                ) is None by {
                                    if j < a.len() {
                                        assert(c[j] == a[j]);
                                        assert(within(a[j], t_max) is None);
                                    } else {
                                        assert(c[j] == b[j - a.len()]);
                                        assert(within(b[j - a.len()], bound) is None);
                                    }
                                }
                            },
                        }
                    },
                }
            } else {
                assert forall|k: int| 0 <= k < c.len() implies within(#[trigger] c[k], t_max) is None by {
                    if within(c[k], t_max) is Some {
                        assert(reaches(node, s, k, t_max));
                    }
                }
            }
        },
    }
}

/// The leaves of a tree indexed below `n` are below `n`.
pub proof fn lemma_leaves_indexed(node: Node, n: int)
    requires
        node.indexed_below(n),
    ensures
        forall|k: int| 0 <= k < node.leaves().len() ==> #[trigger] node.leaves()[k] < n,
    decreases node,
{
    match node {
        Node::Leaf { index } => {},
        Node::Branch { left, right, bounds } => {
            lemma_leaves_indexed(*left, n);
            lemma_leaves_indexed(*right, n);
            assert forall|k: int| 0 <= k < node.leaves().len() implies #[trigger] node.leaves()[k]
                < n by {
                if k < left.leaves().len() {
                    assert(node.leaves()[k] == left.leaves()[k]);
                } else {
                    assert(node.leaves()[k] == right.leaves()[k - left.leaves().len()]);
                }
            }
        },
    }
}

/// Whether two answers agree on the nearest crossing: both are nothing, or both are
/// records at the same ray parameter.
pub open spec fn same_distance(a: Option<HitRecord>, b: Option<HitRecord>) -> bool {
    match (a, b) {
        (Some(x), Some(y)) => x.t.same(y.t),
        (None, None) => true,
        _ => false,
    }
}

/// Whether `order` names the position `i`.
pub open spec fn names(order: Seq<usize>, i: int) -> bool {
    exists|k: int| 0 <= k < order.len() && #[trigger] order[k] as int == i
}

/// Being a nearest crossing does not depend on the order in which the crossings
/// are listed: if `order` names every position of `s`, a nearest of the crossings
/// taken in that order is a nearest of `s`.
pub proof fn lemma_nearest_of_rearranged(
    s: Seq<Option<HitRecord>>,
    order: Seq<usize>,
    t_max: Scalar,
    out: Option<HitRecord>,
)
    requires
        forall|k: int| 0 <= k < order.len() ==> #[trigger] order[k] < s.len(),
        forall|i: int| 0 <= i < s.len() ==> #[trigger] names(order, i),
        a_nearest_of(Seq::new(order.len(), |k: int| s[order[k] as int]), t_max, out),
    ensures
        a_nearest_of(s, t_max, out),
{
    let c = Seq::new(order.len(), |k: int| s[order[k] as int]);
    match out {
        Some(rec) => {
            assert forall|j: int| 0 <= j < s.len() implies (#[trigger] s[j] matches Some(q)
                ==> rec.t.at_most(q.t)) by {
                assert(names(order, j));
                let k = choose|k: int| 0 <= k < order.len() && #[trigger] order[k] as int == j;
                assert(c[k] == s[j]);
            }
            let i = choose|i: int| 0 <= i < c.len() && #[trigger] c[i] == out;
            assert(s[order[i] as int] == out);
        },
        None => {
            assert forall|j: int| 0 <= j < s.len() implies within(#[trigger] s[j], t_max) is None by {
                assert(names(order, j));
                let k = choose|k: int| 0 <= k < order.len() && #[trigger] order[k] as int == j;
                assert(c[k] == s[j]);
            }
        },
    }
}

/// A descent of the whole hierarchy finds a nearest of all crossings: for exact
/// primitives and boxes that never hide a crossing, its answer is a nearest, within
/// `t_max`, of the crossings `s` of the primitives in the order of the list that the
/// hierarchy was built from.
pub proof fn lemma_bvh_finds_nearest<H: Hittable, F: Fn(&AABB, &Ray) -> [Slab; 3]>(
    bvh: BVH<H>,
    r: Ray,
    t_min: Scalar,
    t_max: Scalar,
    s: Seq<Option<HitRecord>>,
    f: F,
    from_bvh: Option<HitRecord>,
)
    requires
        bvh.valid(),
        !t_max.nan(),
        s.len() == bvh.objects@.len(),
        forall|i: int| 0 <= i < s.len() ==> exact(bvh.objects@[i], r, t_min, #[trigger] s[i]),
        boxes_sound(bvh.root, r, t_min, s, f),
        descent_allows(bvh.root, bvh.objects@, r, t_min, t_max, f, from_bvh),
    ensures
        a_nearest_of(s, t_max, from_bvh),
{
    broadcast use vstd::seq_lib::to_multiset_contains;

    let n = bvh.objects@.len();
    lemma_well_built_indexed(bvh.root, bvh.boxes@, 0);
    lemma_descent_finds_nearest(bvh.root, bvh.objects@, r, t_min, t_max, s, f, from_bvh);
    let order = bvh.root.leaves();
    assert(bvh.objects.len() == n);
    assert forall|i: int| 0 <= i < s.len() implies #[trigger] names(order, i) by {
        let x = i as usize;
        assert(positions(n)[i] == x);
        assert(positions(n).contains(x));
        assert(positions(n).to_multiset().count(x) > 0);
        assert(order.contains(x));
    }
    assert(bvh.root.crossings(s) =~= Seq::new(order.len(), |k: int| s[order[k] as int]));
    lemma_nearest_of_rearranged(s, order, t_max, from_bvh);
}

/// The hierarchy and the plain list agree: for exact primitives and boxes that
/// never hide a crossing, the answer of a descent of the hierarchy and the answer
/// of a scan of the list it was built from are both nothing, or are records at the
/// same ray parameter.
pub proof fn lemma_bvh_agrees_with_list<H: Hittable, F: Fn(&AABB, &Ray) -> [Slab; 3]>(
    bvh: BVH<H>,
    list: HittableList<H>,
    r: Ray,
    t_min: Scalar,
    t_max: Scalar,
    s: Seq<Option<HitRecord>>,
    f: F,
    from_bvh: Option<HitRecord>,
    outs: Seq<Option<HitRecord>>,
)
    requires
        bvh.valid(),
        list.objects@ == bvh.objects@,
        !t_max.nan(),
        s.len() == bvh.objects@.len(),
        forall|i: int| 0 <= i < s.len() ==> exact(bvh.objects@[i], r, t_min, #[trigger] s[i]),
        boxes_sound(bvh.root, r, t_min, s, f),
        descent_allows(bvh.root, bvh.objects@, r, t_min, t_max, f, from_bvh),
        list.scanned(r, t_min, t_max, outs),
    ensures
        same_distance(from_bvh, last_hit(outs, outs.len() as int)),
{
    let from_list = last_hit(outs, outs.len() as int);
    crate::hittable_list::lemma_scan_finds_nearest(list, r, t_min, t_max, s, outs);
    lemma_bvh_finds_nearest(bvh, r, t_min, t_max, s, f, from_bvh);
    match (from_bvh, from_list) {
        (Some(x), Some(y)) => {
            let i = choose|i: int| #[trigger] nearest_at(s, s.len() as int, i) && s[i] == from_list;
            let k = choose|k: int| 0 <= k < s.len() && #[trigger] s[k] == from_bvh;
            assert(x.t.at_most(y.t));
            assert(y.t.at_most(x.t)) by {
                if k < i {
                } else if k == i {
                } else {
                }
            }
        },
        (Some(x), None) => {
            let k = choose|k: int| 0 <= k < s.len() && #[trigger] s[k] == from_bvh;
            assert(within(s[k], t_max) is None);
        },
        (None, Some(y)) => {
            let i = choose|i: int| #[trigger] nearest_at(s, s.len() as int, i) && s[i] == from_list;
            assert(within(s[i], t_max) is None);
        },
        (None, None) => {},
    }
}

/// Where the nearest crossing is attained by one primitive only, the hierarchy
/// and the plain list give the same record: the same point, normal, side, surface
/// coordinates and material, not only the same ray parameter.
pub proof fn lemma_bvh_gives_the_record_of_the_list<H: Hittable, F: Fn(&AABB, &Ray) -> [Slab; 3]>(
    bvh: BVH<H>,
    list: HittableList<H>,
    r: Ray,
    t_min: Scalar,
    t_max: Scalar,
    s: Seq<Option<HitRecord>>,
    f: F,
    from_bvh: Option<HitRecord>,
    outs: Seq<Option<HitRecord>>,
)
    requires
        bvh.valid(),
        list.objects@ == bvh.objects@,
        !t_max.nan(),
        s.len() == bvh.objects@.len(),
        forall|i: int| 0 <= i < s.len() ==> exact(bvh.objects@[i], r, t_min, #[trigger] s[i]),
        boxes_sound(bvh.root, r, t_min, s, f),
        descent_allows(bvh.root, bvh.objects@, r, t_min, t_max, f, from_bvh),
        list.scanned(r, t_min, t_max, outs),
        lone(s, last_hit(outs, outs.len() as int)),
    ensures
        from_bvh == last_hit(outs, outs.len() as int),
{
    let from_list = last_hit(outs, outs.len() as int);
    lemma_bvh_agrees_with_list(bvh, list, r, t_min, t_max, s, f, from_bvh, outs);
    lemma_bvh_finds_nearest(bvh, r, t_min, t_max, s, f, from_bvh);
    if from_bvh is Some && from_list is Some {
        let k = choose|k: int| 0 <= k < s.len() && #[trigger] s[k] == from_bvh;
        assert(s[k] == from_list);
    }
}

/// The box of a node holds the box of every primitive under it, where the
/// primitives' boxes are valid.
pub proof fn lemma_node_box_encloses(node: Node, boxes: Seq<AABB>, axis: int, k: int)
    requires
        node.well_built(boxes, axis),
        forall|i: int| 0 <= i < boxes.len() ==> (#[trigger] boxes[i]).valid(),
        0 <= k < node.leaves().len(),
    ensures
        node.bounds_in(boxes).valid(),
        node.bounds_in(boxes).encloses(boxes[node.leaves()[k] as int]),
    decreases node,
{
    match node {
        Node::Leaf { index } => {
            assert(boxes[index as int].valid());
        },
        Node::Branch { left, right, bounds } => {
            let next = (axis + 1) % 3;
            lemma_leaves_nonempty(*left);
            lemma_leaves_nonempty(*right);
            lemma_node_box_encloses(*left, boxes, next, 0);
            lemma_node_box_encloses(*right, boxes, next, 0);
            let lb = left.bounds_in(boxes);
            let rb = right.bounds_in(boxes);
            crate::aabb::lemma_merge_least_upper_bound(lb, rb, bounds);
            if k < left.leaves().len() {
                lemma_node_box_encloses(*left, boxes, next, k);
                assert(node.leaves()[k] == left.leaves()[k]);
                crate::aabb::lemma_encloses_transitive(
                    bounds,
                    lb,
                    boxes[node.leaves()[k] as int],
                    boxes[0].min,
                );
            } else {
                let kr = k - left.leaves().len();
                lemma_node_box_encloses(*right, boxes, next, kr);
                assert(node.leaves()[k] == right.leaves()[kr]);
                crate::aabb::lemma_encloses_transitive(
                    bounds,
                    rb,
                    boxes[node.leaves()[k] as int],
                    boxes[0].min,
                );
            }
        },
    }
}

} // verus!
