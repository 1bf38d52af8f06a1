//! The bounding-volume hierarchy: a binary tree of boxes over any
//! collection that can bound and intersect its members by handle.
//!
//! The traversal theorem at the bottom of this file states the structure's
//! purpose: over handles whose hits respect the query interval and shrink
//! consistently with it, and for queries where every hit primitive's box
//! passes the slab test, the tree traversal reports a hit at exactly the
//! same parameter as the linear scan over all handles.

use vstd::prelude::*;

use crate::aabb::{
    aabb_empty, aabb_in_range, encloses, lemma_encloses_transitive, lemma_slab_hit_monotone,
    lemma_surround_encloses, spec_slab_hit, spec_surround, AabbV, AABB,
};
use crate::ray::{opt_hit_view, HitRecord, HitV, Ray, RayV};
use crate::vector::{vec_add, vec_scale, V3};
use crate::fixed::FX_ONE;
use vstd::multiset::Multiset;

verus! {

/// A collection of primitives addressed by dense handles `0 .. n`, each
/// with a bounding box and an intersection routine. The random draw `xi`
/// is threaded through so that intersection is a function of its
/// arguments.
pub trait BoundsCollection: Sized {
    /// The collection is in a state its methods may be called in.
    spec fn wf(&self) -> bool;

    /// How many handles the collection has.
    spec fn num_handles(&self) -> nat;

    /// The bounding box of one member.
    spec fn spec_bounds(&self, handle: u32) -> AabbV;

    /// The intersection of one member with a ray over `[tmin, tmax]`.
    spec fn spec_hit(&self, handle: u32, ray: RayV, tmin: int, tmax: int, xi: int) -> Option<HitV>;

    /// Handles are dense, so the collection can enumerate them.
    fn objects(&self) -> (r: Vec<u32>)
        requires
            self.wf(),
        ensures
            r@.len() == self.num_handles(),
            forall|i: int| 0 <= i < r@.len() ==> r@[i] == i as u32,
    ;

    fn bounds(&self, handle: u32) -> (r: AABB)
        requires
            self.wf(),
            (handle as nat) < self.num_handles(),
        ensures
            r@ == self.spec_bounds(handle),
    ;

    /// Every member's box has representable corners.
    proof fn lemma_bounds_in_range(&self, handle: u32)
        requires
            self.wf(),
            (handle as nat) < self.num_handles(),
        ensures
            aabb_in_range(self.spec_bounds(handle)),
    ;

    fn hit(&self, handle: u32, ray: &Ray, tmin: i64, tmax: i64, xi: i64) -> (r: Option<
        HitRecord,
    >)
        requires
            self.wf(),
            (handle as nat) < self.num_handles(),
        ensures
            opt_hit_view(r) == self.spec_hit(handle, ray@, tmin as int, tmax as int, xi as int),
    ;
}

/// One node of the hierarchy: nothing, a single primitive, or a box over
/// two subtrees.
pub enum BvhNode {
    Empty,
    Leaf(u32),
    Split(AABB, Box<BvhNode>, Box<BvhNode>),
}

/// The handles stored at the leaves of a subtree.
pub open spec fn leaf_set(n: BvhNode) -> Set<u32>
    decreases n,
{
    match n {
        BvhNode::Empty => Set::empty(),
        BvhNode::Leaf(h) => Set::empty().insert(h),
        BvhNode::Split(_, l, r) => leaf_set(*l).union(leaf_set(*r)),
    }
}

/// A well-formed subtree: leaf handles are valid, and every split's box
/// encloses the bounds of every primitive below it.
pub open spec fn wf_node<S: BoundsCollection>(c: &S, n: BvhNode) -> bool
    decreases n,
{
    match n {
        BvhNode::Empty => true,
        BvhNode::Leaf(h) => (h as nat) < c.num_handles(),
        BvhNode::Split(bb, l, r) => {
            &&& wf_node(c, *l)
            &&& wf_node(c, *r)
            &&& forall|h: u32|
                leaf_set(*l).contains(h) || leaf_set(*r).contains(h) ==> encloses(
                    bb@,
                    #[trigger] c.spec_bounds(h),
                )
        },
    }
}

/// The nearer of two optional hits.
pub open spec fn spec_merge(a: Option<HitV>, b: Option<HitV>) -> Option<HitV> {
    match (a, b) {
        (Option::Some(ra), Option::Some(rb)) => if ra.t < rb.t {
            a
        } else {
            b
        },
        (Option::Some(_), Option::None) => a,
        (Option::None, Option::Some(_)) => b,
        (Option::None, Option::None) => Option::None,
    }
}

/// What a traversal of one subtree returns: nothing for an empty node,
/// the member's own intersection at a leaf, and at a split the nearer of
/// the two children's results, or nothing when the box is missed.
pub open spec fn spec_node_hit<S: BoundsCollection>(
    c: &S,
    n: BvhNode,
    ray: RayV,
    tmin: int,
    tmax: int,
    xi: int,
) -> Option<HitV>
    decreases n,
{
    match n {
        BvhNode::Empty => Option::None,
        BvhNode::Leaf(h) => c.spec_hit(h, ray, tmin, tmax, xi),
        BvhNode::Split(bb, l, r) => if spec_slab_hit(bb@, ray, tmin, tmax) {
            spec_merge(
                spec_node_hit(c, *l, ray, tmin, tmax, xi),
                spec_node_hit(c, *r, ray, tmin, tmax, xi),
            )
        } else {
            Option::None
        },
    }
}

/// Commonly used to merge hit record results in a Bvh tree.
#[inline]
pub fn merge_optionals(hit_left: Option<HitRecord>, hit_right: Option<HitRecord>) -> (r: Option<
    HitRecord,
>)
    ensures
        opt_hit_view(r) == spec_merge(opt_hit_view(hit_left), opt_hit_view(hit_right)),
{
    match (hit_left, hit_right) {
        (Some(record_left), Some(record_right)) => {
            if record_left.t < record_right.t {
                Some(record_left)
            } else {
                Some(record_right)
            }
        },
        (Some(record_left), None) => Some(record_left),
        (None, Some(record_right)) => Some(record_right),
        (None, None) => None,
    }
}

/// One coordinate of a vector, selected by axis index (`0` is x, `1` is
/// y, anything else z).
pub open spec fn axis_of(v: V3, axis: u8) -> int {
    if axis == 0 {
        v.x
    } else if axis == 1 {
        v.y
    } else {
        v.z
    }
}

/// The midpoint of a box.
pub open spec fn spec_centroid(b: AabbV) -> V3 {
    vec_scale(vec_add(b.min, b.max), FX_ONE as int / 2)
}

/// The sort key of a handle: its box centroid's coordinate along an axis.
pub open spec fn spec_key<S: BoundsCollection>(c: &S, h: u32, axis: u8) -> int {
    axis_of(spec_centroid(c.spec_bounds(h)), axis)
}

/// The first index at or after `lo` whose key is minimal in `s[lo ..]`.
pub open spec fn spec_min_index<S: BoundsCollection>(
    c: &S,
    s: Seq<u32>,
    axis: u8,
    lo: int,
) -> int
    decreases s.len() - lo,
{
    if lo >= s.len() - 1 {
        lo
    } else {
        let m = spec_min_index(c, s, axis, lo + 1);
        if spec_key(c, s[lo], axis) <= spec_key(c, s[m], axis) {
            lo
        } else {
            m
        }
    }
}

/// Selection order: the first minimal element, then the rest sorted.
pub open spec fn spec_sort_by_axis<S: BoundsCollection>(c: &S, s: Seq<u32>, axis: u8) -> Seq<u32>
    decreases s.len(),
    via spec_sort_by_axis_decreases::<S>
{
    if s.len() == 0 {
        s
    } else {
        let m = spec_min_index(c, s, axis, 0);
        seq![s[m]] + spec_sort_by_axis(c, s.remove(m), axis)
    }
}

#[via_fn]
proof fn spec_sort_by_axis_decreases<S: BoundsCollection>(c: &S, s: Seq<u32>, axis: u8) {
    if s.len() > 0 {
        lemma_min_index_in_range(c, s, axis, 0);
    }
}

/// The minimal index lies in `[lo, s.len())`.
pub proof fn lemma_min_index_in_range<S: BoundsCollection>(c: &S, s: Seq<u32>, axis: u8, lo: int)
    requires
        0 <= lo < s.len(),
    ensures
        lo <= spec_min_index(c, s, axis, lo) < s.len(),
    decreases s.len() - lo,
{
    if lo < s.len() - 1 {
        lemma_min_index_in_range(c, s, axis, lo + 1);
    }
}

/// Sorting preserves the elements.
pub proof fn lemma_sort_multiset<S: BoundsCollection>(c: &S, s: Seq<u32>, axis: u8)
    ensures
        spec_sort_by_axis(c, s, axis).to_multiset() == s.to_multiset(),
        spec_sort_by_axis(c, s, axis).len() == s.len(),
        forall|h: u32| spec_sort_by_axis(c, s, axis).contains(h) <==> s.contains(h),
    decreases s.len(),
{
    broadcast use vstd::seq_lib::group_to_multiset_ensures;

    if s.len() == 0 {
        assert(spec_sort_by_axis(c, s, axis).to_multiset() =~= s.to_multiset());
    } else {
        let m = spec_min_index(c, s, axis, 0);
        lemma_min_index_in_range(c, s, axis, 0);
        let rest = s.remove(m);
        lemma_sort_multiset(c, rest, axis);
        let sorted = spec_sort_by_axis(c, s, axis);
        vstd::seq_lib::lemma_multiset_commutative(seq![s[m]], spec_sort_by_axis(c, rest, axis));
        assert(seq![s[m]] =~= Seq::<u32>::empty().push(s[m]));
        assert(seq![s[m]].to_multiset() =~= Multiset::<u32>::empty().insert(s[m]));
        assert(rest.to_multiset() == s.to_multiset().remove(s[m]));
        assert(s.to_multiset().contains(s[m]));
        assert(sorted.to_multiset() =~= s.to_multiset());
        assert forall|h: u32| sorted.contains(h) <==> s.contains(h) by {
            assert(sorted.contains(h) <==> sorted.to_multiset().count(h) > 0);
            assert(s.contains(h) <==> s.to_multiset().count(h) > 0);
        }
    }
}

/// The union of the bounding boxes of a handle sequence.
pub open spec fn spec_union_box<S: BoundsCollection>(c: &S, s: Seq<u32>) -> AabbV
    decreases s.len(),
{
    if s.len() == 0 {
        aabb_empty()
    } else {
        spec_surround(spec_union_box(c, s.drop_last()), c.spec_bounds(s.last()))
    }
}

/// The union of the degenerate boxes at the centroids of a handle
/// sequence's boxes, used to pick the split axis.
pub open spec fn spec_centroid_box<S: BoundsCollection>(c: &S, s: Seq<u32>) -> AabbV
    decreases s.len(),
{
    if s.len() == 0 {
        aabb_empty()
    } else {
        let cen = spec_centroid(c.spec_bounds(s.last()));
        spec_surround(spec_centroid_box(c, s.drop_last()), AabbV { min: cen, max: cen })
    }
}

/// The axis along which the handle centroids spread the most.
pub open spec fn spec_pick_axis<S: BoundsCollection>(c: &S, s: Seq<u32>) -> u8 {
    let cb = spec_centroid_box(c, s);
    let spread = crate::vector::vec_sub(cb.max, cb.min);
    if spread.x > spread.y && spread.x > spread.z {
        0
    } else if spread.y > spread.x && spread.y > spread.z {
        1
    } else {
        2
    }
}

/// The union box encloses the box of every handle in the sequence.
pub proof fn lemma_union_box_encloses<S: BoundsCollection>(c: &S, s: Seq<u32>)
    ensures
        forall|h: u32| s.contains(h) ==> encloses(spec_union_box(c, s), #[trigger] c.spec_bounds(h)),
    decreases s.len(),
{
    if s.len() > 0 {
        let prefix = s.drop_last();
        lemma_union_box_encloses(c, prefix);
        let u = spec_union_box(c, s);
        lemma_surround_encloses(spec_union_box(c, prefix), c.spec_bounds(s.last()));
        assert forall|h: u32| s.contains(h) implies encloses(u, #[trigger] c.spec_bounds(h)) by {
            let i = choose|i: int| 0 <= i < s.len() && s[i] == h;
            if i < s.len() - 1 {
                assert(prefix[i] == h);
                assert(prefix.contains(h));
                lemma_encloses_transitive(u, spec_union_box(c, prefix), c.spec_bounds(h));
            } else {
                assert(h == s.last());
            }
        }
    }
}

/// The exec-side box of a model box (the identity on every box the
/// builder produces, whose coordinates all fit an `i64`).
pub open spec fn aabb_of(v: AabbV) -> AABB {
    AABB {
        min: crate::vector::Vec3 { x: v.min.x as i64, y: v.min.y as i64, z: v.min.z as i64 },
        max: crate::vector::Vec3 { x: v.max.x as i64, y: v.max.y as i64, z: v.max.z as i64 },
    }
}

/// The union box of valid handles has representable corners.
pub proof fn lemma_union_box_in_range<S: BoundsCollection>(c: &S, s: Seq<u32>)
    requires
        c.wf(),
        forall|i: int| 0 <= i < s.len() ==> ((#[trigger] s[i]) as nat) < c.num_handles(),
    ensures
        aabb_in_range(spec_union_box(c, s)),
    decreases s.len(),
{
    if s.len() == 0 {
    } else {
        lemma_union_box_in_range(c, s.drop_last());
        c.lemma_bounds_in_range(s.last());
    }
}

/// The tree the builder produces from a handle sequence: empty or a leaf
/// for short lists, else a split of the list sorted by the axis of
/// greatest centroid spread, halved at the median.
pub open spec fn spec_from_list<S: BoundsCollection>(c: &S, s: Seq<u32>) -> BvhNode
    decreases s.len(),
    via spec_from_list_decreases::<S>
{
    if s.len() == 0 {
        BvhNode::Empty
    } else if s.len() == 1 {
        BvhNode::Leaf(s[0])
    } else {
        let bounds = spec_union_box(c, s);
        let axis = spec_pick_axis(c, s);
        let sorted = spec_sort_by_axis(c, s, axis);
        let left = sorted.subrange(0, s.len() as int / 2);
        let right = sorted.subrange(s.len() as int / 2, sorted.len() as int);
        BvhNode::Split(
            aabb_of(bounds),
            Box::new(spec_from_list(c, left)),
            Box::new(spec_from_list(c, right)),
        )
    }
}

#[via_fn]
proof fn spec_from_list_decreases<S: BoundsCollection>(c: &S, s: Seq<u32>) {
    if s.len() >= 2 {
        let axis = spec_pick_axis(c, s);
        lemma_sort_multiset(c, s, axis);
    }
}

/// The built tree is well formed and its leaves are exactly the handles
/// given to the builder.
pub proof fn lemma_from_list_wf<S: BoundsCollection>(c: &S, s: Seq<u32>)
    requires
        c.wf(),
        forall|i: int| 0 <= i < s.len() ==> ((#[trigger] s[i]) as nat) < c.num_handles(),
    ensures
        wf_node(c, spec_from_list(c, s)),
        forall|h: u32| leaf_set(spec_from_list(c, s)).contains(h) <==> s.contains(h),
    decreases s.len(),
{
    let node = spec_from_list(c, s);
    if s.len() == 0 {
        assert(forall|h: u32| !leaf_set(node).contains(h) && !s.contains(h));
    } else if s.len() == 1 {
        assert forall|h: u32| leaf_set(node).contains(h) <==> s.contains(h) by {
            if s.contains(h) {
                let i = choose|i: int| 0 <= i < s.len() && s[i] == h;
                assert(s[0] == h);
            }
            if leaf_set(node).contains(h) {
                assert(h == s[0]);
            }
        }
    } else {
        let axis = spec_pick_axis(c, s);
        let sorted = spec_sort_by_axis(c, s, axis);
        lemma_sort_multiset(c, s, axis);
        let mid = s.len() as int / 2;
        let left = sorted.subrange(0, mid);
        let right = sorted.subrange(mid, sorted.len() as int);
        assert(sorted =~= left + right);
        // elements of both halves come from `s`, so they are valid handles
        assert forall|i: int| 0 <= i < left.len() implies ((#[trigger] left[i]) as nat)
            < c.num_handles() by {
            assert(left[i] == sorted[i]);
            sorted.lemma_index_contains(i);
            assert(s.contains(left[i]));
            let j = choose|j: int| 0 <= j < s.len() && s[j] == left[i];
            assert(((s[j]) as nat) < c.num_handles());
        }
        assert forall|i: int| 0 <= i < right.len() implies ((#[trigger] right[i]) as nat)
            < c.num_handles() by {
            assert(right[i] == sorted[mid + i]);
            sorted.lemma_index_contains(mid + i);
            assert(s.contains(right[i]));
            let j = choose|j: int| 0 <= j < s.len() && s[j] == right[i];
            assert(((s[j]) as nat) < c.num_handles());
        }
        lemma_from_list_wf(c, left);
        lemma_from_list_wf(c, right);
        let nl = spec_from_list(c, left);
        let nr = spec_from_list(c, right);
        // leaves of the split are the handles of `s`
        assert forall|h: u32| leaf_set(node).contains(h) <==> s.contains(h) by {
            vstd::seq_lib::lemma_seq_concat_contains_all_elements(left, right, h);
            assert(leaf_set(node).contains(h) <==> leaf_set(nl).contains(h) || leaf_set(
                nr,
            ).contains(h));
            assert(sorted.contains(h) <==> left.contains(h) || right.contains(h));
        }
        // the split box encloses the bounds of every leaf below it
        lemma_union_box_encloses(c, s);
        lemma_union_box_in_range(c, s);
        assert(aabb_of(spec_union_box(c, s))@ == spec_union_box(c, s));
        assert forall|h: u32|
            leaf_set(nl).contains(h) || leaf_set(nr).contains(h) implies encloses(
            aabb_of(spec_union_box(c, s))@,
            #[trigger] c.spec_bounds(h),
        ) by {
            vstd::seq_lib::lemma_seq_concat_contains_all_elements(left, right, h);
            assert(s.contains(h));
            assert(encloses(spec_union_box(c, s), c.spec_bounds(h)));
        }
    }
}

/// The parameter of an optional hit (zero when there is none).
pub open spec fn hit_t(o: Option<HitV>) -> int {
    match o {
        Option::Some(r) => r.t,
        Option::None => 0,
    }
}

/// `res` is a correct closest-hit answer over the handle set `hs`: when it
/// is nothing, no member of `hs` is hit; when it is a record, some member
/// produced exactly that record and no member is hit nearer.
pub open spec fn is_best_hit<S: BoundsCollection>(
    c: &S,
    hs: Set<u32>,
    ray: RayV,
    tmin: int,
    tmax: int,
    xi: int,
    res: Option<HitV>,
) -> bool {
    match res {
        Option::None => forall|h: u32|
            hs.contains(h) ==> (#[trigger] c.spec_hit(h, ray, tmin, tmax, xi)) is None,
        Option::Some(rec) => {
            &&& exists|h: u32|
                hs.contains(h) && (#[trigger] c.spec_hit(h, ray, tmin, tmax, xi))
                    == Option::Some(rec)
            &&& forall|h: u32|
                hs.contains(h) && (#[trigger] c.spec_hit(h, ray, tmin, tmax, xi)) is Some
                    ==> rec.t <= hit_t(c.spec_hit(h, ray, tmin, tmax, xi))
        },
    }
}

/// Every primitive that is hit inside the query interval has a bounding
/// box that passes the slab test for that interval. This is the geometric
/// soundness of the boxes; a query that grazes a box exactly on its
/// boundary can violate it.
pub open spec fn bounds_ok<S: BoundsCollection>(
    c: &S,
    ray: RayV,
    tmin: int,
    tmax: int,
    xi: int,
) -> bool {
    forall|h: u32|
        (h as nat) < c.num_handles() && (#[trigger] c.spec_hit(h, ray, tmin, tmax, xi)) is Some
            ==> spec_slab_hit(c.spec_bounds(h), ray, tmin, tmax)
}

/// Every leaf of a well-formed subtree is a valid handle.
pub proof fn lemma_wf_leaves_valid<S: BoundsCollection>(c: &S, n: BvhNode)
    requires
        wf_node(c, n),
    ensures
        forall|h: u32| leaf_set(n).contains(h) ==> (h as nat) < c.num_handles(),
    decreases n,
{
    match n {
        BvhNode::Empty => {},
        BvhNode::Leaf(_) => {},
        BvhNode::Split(_, l, r) => {
            lemma_wf_leaves_valid(c, *l);
            lemma_wf_leaves_valid(c, *r);
            assert forall|h: u32| leaf_set(n).contains(h) implies (h as nat)
                < c.num_handles() by {
                assert(leaf_set(*l).contains(h) || leaf_set(*r).contains(h));
            }
        },
    }
}

/// Traversal is complete and sound: over a well-formed subtree, and for a
/// query whose hit primitives all pass their slab tests, the traversal
/// result is a correct closest hit over the subtree's leaves.
pub proof fn lemma_node_hit_is_best<S: BoundsCollection>(
    c: &S,
    n: BvhNode,
    ray: RayV,
    tmin: int,
    tmax: int,
    xi: int,
)
    requires
        wf_node(c, n),
        bounds_ok(c, ray, tmin, tmax, xi),
    ensures
        is_best_hit(c, leaf_set(n), ray, tmin, tmax, xi, spec_node_hit(c, n, ray, tmin, tmax, xi)),
    decreases n,
{
    match n {
        BvhNode::Empty => {},
        BvhNode::Leaf(h) => {
            let res = c.spec_hit(h, ray, tmin, tmax, xi);
            if res is Some {
                assert(leaf_set(n).contains(h) && c.spec_hit(h, ray, tmin, tmax, xi) == res);
            }
        },
        BvhNode::Split(bb, l, r) => {
            lemma_wf_leaves_valid(c, n);
            if spec_slab_hit(bb@, ray, tmin, tmax) {
                lemma_node_hit_is_best(c, *l, ray, tmin, tmax, xi);
                lemma_node_hit_is_best(c, *r, ray, tmin, tmax, xi);
                let resl = spec_node_hit(c, *l, ray, tmin, tmax, xi);
                let resr = spec_node_hit(c, *r, ray, tmin, tmax, xi);
                assert(forall|h: u32|
                    leaf_set(n).contains(h) <==> leaf_set(*l).contains(h) || leaf_set(
                        *r,
                    ).contains(h));
            } else {
                // A missed box means no leaf below it is hit: a hit leaf's
                // box would pass, and the split box encloses it.
                assert forall|h: u32| leaf_set(n).contains(h) implies (#[trigger] c.spec_hit(
                    h,
                    ray,
                    tmin,
                    tmax,
                    xi,
                )) is None by {
                    if c.spec_hit(h, ray, tmin, tmax, xi) is Some {
                        assert(spec_slab_hit(c.spec_bounds(h), ray, tmin, tmax));
                        assert(encloses(bb@, c.spec_bounds(h)));
                        lemma_slab_hit_monotone(bb@, c.spec_bounds(h), ray, tmin, tmax);
                    }
                }
            }
        },
    }
}

/// One primitive's hit always lies inside the query interval.
pub open spec fn hit_in_interval<S: BoundsCollection>(c: &S, h: u32, ray: RayV, xi: int) -> bool {
    forall|tmin: int, tmax: int|
        (#[trigger] c.spec_hit(h, ray, tmin, tmax, xi)) is Some ==> tmin <= hit_t(
            c.spec_hit(h, ray, tmin, tmax, xi),
        ) <= tmax
}

/// A hit answer cut down to a shorter interval.
pub open spec fn restrict_hit(o: Option<HitV>, tmax2: int) -> Option<HitV> {
    match o {
        Option::Some(rec) => if rec.t <= tmax2 {
            o
        } else {
            Option::None
        },
        Option::None => Option::None,
    }
}

/// Shrinking the far end of the interval restricts the answer: the same
/// record when it still lies inside, nothing otherwise.
pub open spec fn hit_restricts<S: BoundsCollection>(c: &S, h: u32, ray: RayV, xi: int) -> bool {
    forall|tmin: int, tmax1: int, tmax2: int|
        tmax2 <= tmax1 ==> (#[trigger] c.spec_hit(h, ray, tmin, tmax2, xi)) == restrict_hit(
            #[trigger] c.spec_hit(h, ray, tmin, tmax1, xi),
            tmax2,
        )
}

/// Both interval laws together.
pub open spec fn hit_laws<S: BoundsCollection>(c: &S, h: u32, ray: RayV, xi: int) -> bool {
    hit_in_interval(c, h, ray, xi) && hit_restricts(c, h, ray, xi)
}

/// The handles below `n`.
pub open spec fn handles_below(n: nat) -> Set<u32> {
    Set::new(|h: u32| (h as nat) < n)
}

/// What the linear scan over handles `0 .. n` returns: each member is
/// queried up to the closest parameter seen so far, and replaces the
/// best answer when it reports a hit.
pub open spec fn spec_linear_hit<S: BoundsCollection>(
    c: &S,
    ray: RayV,
    tmin: int,
    tmax: int,
    xi: int,
    n: nat,
) -> Option<HitV>
    decreases n,
{
    if n == 0 {
        Option::None
    } else {
        let prev = spec_linear_hit(c, ray, tmin, tmax, xi, (n - 1) as nat);
        let cur_tmax = match prev {
            Option::Some(rec) => rec.t,
            Option::None => tmax,
        };
        match c.spec_hit((n - 1) as u32, ray, tmin, cur_tmax, xi) {
            Option::Some(rec) => Option::Some(rec),
            Option::None => prev,
        }
    }
}

/// The linear scan is a correct closest hit over the handles it visited,
/// for collections whose hits respect the two interval laws.
pub proof fn lemma_linear_hit_is_best<S: BoundsCollection>(
    c: &S,
    ray: RayV,
    tmin: int,
    tmax: int,
    xi: int,
    n: nat,
)
    requires
        n <= c.num_handles(),
        n <= 0x1_0000_0000,
        forall|h: u32| (h as nat) < n ==> #[trigger] hit_laws(c, h, ray, xi),
    ensures
        is_best_hit(
            c,
            handles_below(n),
            ray,
            tmin,
            tmax,
            xi,
            spec_linear_hit(c, ray, tmin, tmax, xi, n),
        ),
    decreases n,
{
    if n > 0 {
        lemma_linear_hit_is_best(c, ray, tmin, tmax, xi, (n - 1) as nat);
        let prev = spec_linear_hit(c, ray, tmin, tmax, xi, (n - 1) as nat);
        let res = spec_linear_hit(c, ray, tmin, tmax, xi, n);
        let h = (n - 1) as u32;
        let cur_tmax = match prev {
            Option::Some(rec) => rec.t,
            Option::None => tmax,
        };
        assert(hit_laws(c, h, ray, xi));
        // the previous best lies inside the original interval
        if prev is Some {
            let wprev = choose|w: u32|
                handles_below((n - 1) as nat).contains(w) && (#[trigger] c.spec_hit(
                    w,
                    ray,
                    tmin,
                    tmax,
                    xi,
                )) == Option::Some(prev->Some_0);
            assert(hit_laws(c, wprev, ray, xi));
            assert(tmin <= cur_tmax <= tmax);
        }
        let q = c.spec_hit(h, ray, tmin, cur_tmax, xi);
        let full = c.spec_hit(h, ray, tmin, tmax, xi);
        assert(q == restrict_hit(full, cur_tmax));
        match q {
            Option::Some(rec) => {
                assert(res == Option::Some(rec));
                assert(full == Option::Some(rec));
                assert(handles_below(n).contains(h));
                // rec is no farther than any hit among the first n handles
                assert forall|h2: u32|
                    handles_below(n).contains(h2) && (#[trigger] c.spec_hit(
                        h2,
                        ray,
                        tmin,
                        tmax,
                        xi,
                    )) is Some implies rec.t <= hit_t(c.spec_hit(h2, ray, tmin, tmax, xi)) by {
                    if h2 != h {
                        assert(handles_below((n - 1) as nat).contains(h2));
                        match prev {
                            Option::Some(prec) => {
                                assert(prec.t <= hit_t(c.spec_hit(h2, ray, tmin, tmax, xi)));
                                assert(rec.t <= cur_tmax);
                            },
                            Option::None => {},
                        }
                    }
                }
            },
            Option::None => {
                assert(res == prev);
                // the new handle has no hit inside the original interval
                // that beats the previous best
                match full {
                    Option::Some(frec) => {
                        assert(frec.t > cur_tmax);
                        match prev {
                            Option::Some(prec) => {},
                            Option::None => {
                                assert(tmin <= frec.t <= tmax);
                                assert(false);
                            },
                        }
                    },
                    Option::None => {},
                }
                match prev {
                    Option::Some(prec) => {
                        let wprev = choose|w: u32|
                            handles_below((n - 1) as nat).contains(w) && (#[trigger] c.spec_hit(
                                w,
                                ray,
                                tmin,
                                tmax,
                                xi,
                            )) == Option::Some(prec);
                        assert(handles_below(n).contains(wprev));
                    },
                    Option::None => {},
                }
            },
        }
    }
}

/// A member whose intersection does not depend on the far end of the
/// interval (the triangles of a mesh are such members).
pub open spec fn hit_ignores_tmax<S: BoundsCollection>(c: &S, h: u32, ray: RayV, xi: int) -> bool {
    forall|tmin: int, tmax1: int, tmax2: int|
        (#[trigger] c.spec_hit(h, ray, tmin, tmax1, xi)) == (#[trigger] c.spec_hit(
            h,
            ray,
            tmin,
            tmax2,
            xi,
        ))
}

/// A linear scan that keeps the nearer of the previous best and the new
/// member's hit, used for members that ignore the far interval end.
pub open spec fn spec_guarded_linear_hit<S: BoundsCollection>(
    c: &S,
    ray: RayV,
    tmin: int,
    tmax: int,
    xi: int,
    n: nat,
) -> Option<HitV>
    decreases n,
{
    if n == 0 {
        Option::None
    } else {
        let prev = spec_guarded_linear_hit(c, ray, tmin, tmax, xi, (n - 1) as nat);
        let cur_tmax = match prev {
            Option::Some(rec) => rec.t,
            Option::None => tmax,
        };
        match c.spec_hit((n - 1) as u32, ray, tmin, cur_tmax, xi) {
            Option::Some(rec) => match prev {
                Option::Some(prec) => if rec.t < prec.t {
                    Option::Some(rec)
                } else {
                    prev
                },
                Option::None => Option::Some(rec),
            },
            Option::None => prev,
        }
    }
}

/// The guarded scan is a correct closest hit over the handles it visited,
/// for members whose hits ignore the far interval end.
pub proof fn lemma_guarded_linear_hit_is_best<S: BoundsCollection>(
    c: &S,
    ray: RayV,
    tmin: int,
    tmax: int,
    xi: int,
    n: nat,
)
    requires
        n <= c.num_handles(),
        n <= 0x1_0000_0000,
        forall|h: u32| (h as nat) < n ==> #[trigger] hit_ignores_tmax(c, h, ray, xi),
    ensures
        is_best_hit(
            c,
            handles_below(n),
            ray,
            tmin,
            tmax,
            xi,
            spec_guarded_linear_hit(c, ray, tmin, tmax, xi, n),
        ),
    decreases n,
{
    if n > 0 {
        lemma_guarded_linear_hit_is_best(c, ray, tmin, tmax, xi, (n - 1) as nat);
        let prev = spec_guarded_linear_hit(c, ray, tmin, tmax, xi, (n - 1) as nat);
        let res = spec_guarded_linear_hit(c, ray, tmin, tmax, xi, n);
        let h = (n - 1) as u32;
        let cur_tmax = match prev {
            Option::Some(rec) => rec.t,
            Option::None => tmax,
        };
        assert(hit_ignores_tmax(c, h, ray, xi));
        let q = c.spec_hit(h, ray, tmin, cur_tmax, xi);
        assert(q == c.spec_hit(h, ray, tmin, tmax, xi));
        match res {
            Option::Some(rec) => {
                assert(handles_below(n).contains(h));
                if prev is Some && q is Some {
                    let wprev = choose|w: u32|
                        handles_below((n - 1) as nat).contains(w) && (#[trigger] c.spec_hit(
                            w,
                            ray,
                            tmin,
                            tmax,
                            xi,
                        )) == prev;
                    assert(handles_below(n).contains(wprev));
                }
            },
            Option::None => {},
        }
    }
}

/// Every member's hit carries a material handle below `bound`.
pub open spec fn hit_materials_below<S: BoundsCollection>(
    c: &S,
    ray: RayV,
    xi: int,
    bound: int,
) -> bool {
    forall|h: u32, tmin: int, tmax: int|
        (h as nat) < c.num_handles() && (#[trigger] c.spec_hit(h, ray, tmin, tmax, xi)) is Some
            ==> 0 <= hit_material(c.spec_hit(h, ray, tmin, tmax, xi)) < bound
}

/// The material of an optional hit (zero when there is none).
pub open spec fn hit_material(o: Option<HitV>) -> int {
    match o {
        Option::Some(r) => r.material,
        Option::None => 0,
    }
}

/// A traversal result's material handle comes from some member, so it is
/// below the same bound.
pub proof fn lemma_node_hit_material<S: BoundsCollection>(
    c: &S,
    n: BvhNode,
    ray: RayV,
    tmin: int,
    tmax: int,
    xi: int,
    bound: int,
)
    requires
        wf_node(c, n),
        hit_materials_below(c, ray, xi, bound),
    ensures
        spec_node_hit(c, n, ray, tmin, tmax, xi) is Some ==> 0 <= hit_material(
            spec_node_hit(c, n, ray, tmin, tmax, xi),
        ) < bound,
    decreases n,
{
    match n {
        BvhNode::Empty => {},
        BvhNode::Leaf(h) => {},
        BvhNode::Split(_, l, r) => {
            lemma_node_hit_material(c, *l, ray, tmin, tmax, xi, bound);
            lemma_node_hit_material(c, *r, ray, tmin, tmax, xi, bound);
        },
    }
}

/// A linear scan result's material handle comes from some member, so it
/// is below the same bound.
pub proof fn lemma_linear_hit_material<S: BoundsCollection>(
    c: &S,
    ray: RayV,
    tmin: int,
    tmax: int,
    xi: int,
    n: nat,
    bound: int,
)
    requires
        n <= c.num_handles(),
        hit_materials_below(c, ray, xi, bound),
    ensures
        spec_linear_hit(c, ray, tmin, tmax, xi, n) is Some ==> 0 <= hit_material(
            spec_linear_hit(c, ray, tmin, tmax, xi, n),
        ) < bound,
    decreases n,
{
    if n > 0 {
        lemma_linear_hit_material(c, ray, tmin, tmax, xi, (n - 1) as nat, bound);
    }
}

/// Two correct closest-hit answers over the same handles agree on whether
/// anything was hit, and on the hit parameter.
pub proof fn lemma_best_hit_unique<S: BoundsCollection>(
    c: &S,
    hs: Set<u32>,
    ray: RayV,
    tmin: int,
    tmax: int,
    xi: int,
    res1: Option<HitV>,
    res2: Option<HitV>,
)
    requires
        is_best_hit(c, hs, ray, tmin, tmax, xi, res1),
        is_best_hit(c, hs, ray, tmin, tmax, xi, res2),
    ensures
        res1 is Some <==> res2 is Some,
        res1 is Some ==> hit_t(res1) == hit_t(res2),
{
    match (res1, res2) {
        (Option::Some(r1), Option::Some(r2)) => {},
        (Option::Some(r1), Option::None) => {
            let w = choose|w: u32|
                hs.contains(w) && (#[trigger] c.spec_hit(w, ray, tmin, tmax, xi)) == Option::Some(
                    r1,
                );
            assert(c.spec_hit(w, ray, tmin, tmax, xi) is None);
        },
        (Option::None, Option::Some(r2)) => {
            let w = choose|w: u32|
                hs.contains(w) && (#[trigger] c.spec_hit(w, ray, tmin, tmax, xi)) == Option::Some(
                    r2,
                );
            assert(c.spec_hit(w, ray, tmin, tmax, xi) is None);
        },
        (Option::None, Option::None) => {},
    }
}

/// The hierarchy agrees with the linear scan: for any well-formed tree
/// whose leaves are exactly the collection's handles, any query whose hit
/// primitives pass their slab tests, and any collection obeying the
/// interval laws, the traversal and the scan agree on whether the ray
/// hits and at which parameter.
pub proof fn lemma_bvh_matches_linear<S: BoundsCollection>(
    c: &S,
    n: BvhNode,
    ray: RayV,
    tmin: int,
    tmax: int,
    xi: int,
)
    requires
        wf_node(c, n),
        leaf_set(n) == handles_below(c.num_handles()),
        c.num_handles() <= 0x1_0000_0000,
        bounds_ok(c, ray, tmin, tmax, xi),
        forall|h: u32| (h as nat) < c.num_handles() ==> #[trigger] hit_laws(c, h, ray, xi),
    ensures
        ({
            let tree = spec_node_hit(c, n, ray, tmin, tmax, xi);
            let linear = spec_linear_hit(c, ray, tmin, tmax, xi, c.num_handles());
            &&& tree is Some <==> linear is Some
            &&& tree is Some ==> hit_t(tree) == hit_t(linear)
        }),
{
    lemma_node_hit_is_best(c, n, ray, tmin, tmax, xi);
    lemma_linear_hit_is_best(c, ray, tmin, tmax, xi, c.num_handles());
    lemma_best_hit_unique(
        c,
        handles_below(c.num_handles()),
        ray,
        tmin,
        tmax,
        xi,
        spec_node_hit(c, n, ray, tmin, tmax, xi),
        spec_linear_hit(c, ray, tmin, tmax, xi, c.num_handles()),
    );
}

/// The dense handle sequence `0 .. n`.
pub open spec fn handle_seq(n: nat) -> Seq<u32> {
    Seq::new(n, |i: int| i as u32)
}

/// Acceleration structure for faster ray-scene intersections.
pub struct BvhTree {
    pub root: BvhNode,
}

impl BvhTree {
    /// Build a tree over every handle of a collection.
    pub fn build<S: BoundsCollection>(scene: &S) -> (t: BvhTree)
        requires
            scene.wf(),
            scene.num_handles() <= 0x1_0000_0000,
        ensures
            t.root == spec_from_list(scene, handle_seq(scene.num_handles())),
            wf_node(scene, t.root),
            leaf_set(t.root) == handles_below(scene.num_handles()),
    {
        let ghost n = scene.num_handles();
        let mut objects = scene.objects();
        proof {
            assert(objects@ =~= handle_seq(n));
            assert forall|i: int| 0 <= i < objects@.len() implies ((#[trigger] objects@[i]) as nat)
                < n by {
                assert(objects@[i] == i as u32);
            }
        }
        let root = BvhNode::from_list(&mut objects, scene);
        proof {
            lemma_from_list_wf(scene, handle_seq(n));
            assert(leaf_set(root) =~= handles_below(n)) by {
                assert forall|h: u32| leaf_set(root).contains(h) <==> handles_below(n).contains(
                    h,
                ) by {
                    if leaf_set(root).contains(h) {
                        assert(handle_seq(n).contains(h));
                        let i = choose|i: int| 0 <= i < handle_seq(n).len() && handle_seq(n)[i]
                            == h;
                        assert((h as nat) == i as nat);
                    }
                    if handles_below(n).contains(h) {
                        assert(handle_seq(n)[h as int] == h);
                        assert(handle_seq(n).contains(h));
                    }
                }
            }
        }
        BvhTree { root }
    }

    /// Traverse the tree for the closest hit in `[tmin, tmax]`.
    pub fn hit<S: BoundsCollection>(
        &self,
        scene: &S,
        ray: &Ray,
        tmin: i64,
        tmax: i64,
        xi: i64,
    ) -> (r: Option<HitRecord>)
        requires
            scene.wf(),
            wf_node(scene, self.root),
        ensures
            opt_hit_view(r) == spec_node_hit(
                scene,
                self.root,
                ray@,
                tmin as int,
                tmax as int,
                xi as int,
            ),
    {
        self.root.hit(ray, tmin, tmax, xi, scene)
    }
}

/// The centroid coordinate of a member's box along `axis`.
fn axis_key<S: BoundsCollection>(scene: &S, h: u32, axis: u8) -> (r: i64)
    requires
        scene.wf(),
        (h as nat) < scene.num_handles(),
    ensures
        r == spec_key(scene, h, axis),
{
    let b = scene.bounds(h);
    let cen = b.centroid();
    if axis == 0 {
        cen.x
    } else if axis == 1 {
        cen.y
    } else {
        cen.z
    }
}

/// The first index with the smallest key.
fn find_min_index<S: BoundsCollection>(objects: &Vec<u32>, scene: &S, axis: u8) -> (m: usize)
    requires
        scene.wf(),
        objects@.len() > 0,
        forall|i: int|
            0 <= i < objects@.len() ==> ((#[trigger] objects@[i]) as nat) < scene.num_handles(),
    ensures
        m < objects@.len(),
        m as int == spec_min_index(scene, objects@, axis, 0),
{
    let mut j = objects.len() - 1;
    let mut m = j;
    let mut key_m = axis_key(scene, objects[j], axis);
    while j > 0
        invariant
            scene.wf(),
            forall|i: int|
                0 <= i < objects@.len() ==> ((#[trigger] objects@[i]) as nat)
                    < scene.num_handles(),
            j < objects@.len(),
            m < objects@.len(),
            m as int == spec_min_index(scene, objects@, axis, j as int),
            key_m == spec_key(scene, objects@[m as int], axis),
        decreases j,
    {
        j = j - 1;
        let key_j = axis_key(scene, objects[j], axis);
        if key_j <= key_m {
            m = j;
            key_m = key_j;
        }
    }
    m
}

/// Sort the handles by their centroid coordinate along `axis`, first
/// minimal key first.
fn sort_by_axis<S: BoundsCollection>(objects: &mut Vec<u32>, scene: &S, axis: u8)
    requires
        scene.wf(),
        forall|i: int|
            0 <= i < old(objects)@.len() ==> ((#[trigger] old(objects)@[i]) as nat)
                < scene.num_handles(),
    ensures
        final(objects)@ == spec_sort_by_axis(scene, old(objects)@, axis),
{
    let ghost orig = objects@;
    let mut out: Vec<u32> = Vec::new();
    while objects.len() > 0
        invariant
            scene.wf(),
            forall|i: int|
                0 <= i < objects@.len() ==> ((#[trigger] objects@[i]) as nat)
                    < scene.num_handles(),
            spec_sort_by_axis(scene, orig, axis) == out@ + spec_sort_by_axis(
                scene,
                objects@,
                axis,
            ),
        decreases objects@.len(),
    {
        let ghost pre = objects@;
        let m = find_min_index(objects, scene, axis);
        let h = objects.remove(m);
        proof {
            assert(h == pre[m as int]);
            assert(objects@ == pre.remove(m as int));
            assert forall|i: int|
                0 <= i < objects@.len() implies ((#[trigger] objects@[i]) as nat)
                < scene.num_handles() by {
                if i < m {
                    assert(objects@[i] == pre[i]);
                } else {
                    assert(objects@[i] == pre[i + 1]);
                }
            }
            assert(spec_sort_by_axis(scene, pre, axis) == seq![h] + spec_sort_by_axis(
                scene,
                objects@,
                axis,
            ));
            assert(out@.push(h) =~= out@ + seq![h]);
            assert((out@ + seq![h]) + spec_sort_by_axis(scene, objects@, axis) =~= out@ + (
            seq![h] + spec_sort_by_axis(scene, objects@, axis)));
        }
        out.push(h);
    }
    proof {
        assert(spec_sort_by_axis(scene, objects@, axis) =~= Seq::<u32>::empty());
        assert(out@ + Seq::<u32>::empty() =~= out@);
    }
    *objects = out;
}

/// The union of the bounding boxes of all listed handles.
fn compute_union_box<S: BoundsCollection>(objects: &Vec<u32>, scene: &S) -> (r: AABB)
    requires
        scene.wf(),
        forall|i: int|
            0 <= i < objects@.len() ==> ((#[trigger] objects@[i]) as nat) < scene.num_handles(),
    ensures
        r@ == spec_union_box(scene, objects@),
{
    let mut acc = AABB::empty();
    let mut i: usize = 0;
    while i < objects.len()
        invariant
            scene.wf(),
            forall|k: int|
                0 <= k < objects@.len() ==> ((#[trigger] objects@[k]) as nat)
                    < scene.num_handles(),
            i <= objects@.len(),
            acc@ == spec_union_box(scene, objects@.subrange(0, i as int)),
        decreases objects@.len() - i,
    {
        acc = AABB::surround(acc, scene.bounds(objects[i]));
        i = i + 1;
        proof {
            let pre = objects@.subrange(0, i as int);
            assert(pre.drop_last() =~= objects@.subrange(0, i as int - 1));
            assert(pre.last() == objects@[i as int - 1]);
        }
    }
    proof {
        assert(objects@.subrange(0, objects@.len() as int) =~= objects@);
    }
    acc
}

/// The box over the centroids of all listed handles' boxes.
fn compute_centroid_box<S: BoundsCollection>(objects: &Vec<u32>, scene: &S) -> (r: AABB)
    requires
        scene.wf(),
        forall|i: int|
            0 <= i < objects@.len() ==> ((#[trigger] objects@[i]) as nat) < scene.num_handles(),
    ensures
        r@ == spec_centroid_box(scene, objects@),
{
    let mut acc = AABB::empty();
    let mut i: usize = 0;
    while i < objects.len()
        invariant
            scene.wf(),
            forall|k: int|
                0 <= k < objects@.len() ==> ((#[trigger] objects@[k]) as nat)
                    < scene.num_handles(),
            i <= objects@.len(),
            acc@ == spec_centroid_box(scene, objects@.subrange(0, i as int)),
        decreases objects@.len() - i,
    {
        acc = AABB::surround(acc, AABB::from_point(scene.bounds(objects[i]).centroid()));
        i = i + 1;
        proof {
            let pre = objects@.subrange(0, i as int);
            assert(pre.drop_last() =~= objects@.subrange(0, i as int - 1));
            assert(pre.last() == objects@[i as int - 1]);
        }
    }
    proof {
        assert(objects@.subrange(0, objects@.len() as int) =~= objects@);
    }
    acc
}

/// See which axis has the greatest spread among box centroids.
fn pick_axis<S: BoundsCollection>(objects: &Vec<u32>, scene: &S) -> (axis: u8)
    requires
        scene.wf(),
        forall|i: int|
            0 <= i < objects@.len() ==> ((#[trigger] objects@[i]) as nat) < scene.num_handles(),
    ensures
        axis == spec_pick_axis(scene, objects@),
{
    let centroids = compute_centroid_box(objects, scene);
    let spread = centroids.dimensions();
    if spread.x > spread.y && spread.x > spread.z {
        0
    } else if spread.y > spread.x && spread.y > spread.z {
        1
    } else {
        2
    }
}

impl BvhNode {
    /// Build a subtree from a list of handles: sort them by the axis of
    /// greatest centroid spread and split at the median.
    pub fn from_list<S: BoundsCollection>(objects: &mut Vec<u32>, scene: &S) -> (r: BvhNode)
        requires
            scene.wf(),
            forall|i: int|
                0 <= i < old(objects)@.len() ==> ((#[trigger] old(objects)@[i]) as nat)
                    < scene.num_handles(),
        ensures
            r == spec_from_list(scene, old(objects)@),
            final(objects)@.to_multiset() == old(objects)@.to_multiset(),
        decreases old(objects)@.len(),
    {
        let n = objects.len();
        if n == 0 {
            return BvhNode::Empty;
        }
        if n == 1 {
            return BvhNode::Leaf(objects[0]);
        }

        // Calculate bounds for the whole node
        let bounds = compute_union_box(objects, scene);

        // See which axis has the greatest spread among centroids
        let axis = pick_axis(objects, scene);

        // Sort objects by laying bounding boxes along that axis
        sort_by_axis(objects, scene, axis);
        proof {
            lemma_sort_multiset(scene, old(objects)@, axis);
            assert(objects@ == spec_sort_by_axis(scene, old(objects)@, axis));
            assert forall|i: int|
                0 <= i < objects@.len() implies ((#[trigger] objects@[i]) as nat)
                < scene.num_handles() by {
                objects@.lemma_index_contains(i);
                assert(spec_sort_by_axis(scene, old(objects)@, axis).contains(objects@[i]));
                assert(old(objects)@.contains(objects@[i]));
                let j = choose|j: int| 0 <= j < old(objects)@.len() && old(objects)@[j]
                    == objects@[i];
                assert(((old(objects)@[j]) as nat) < scene.num_handles());
            }
        }

        // Assign first half to left half and second half to right half
        let mut left_list: Vec<u32> = Vec::new();
        let mut right_list: Vec<u32> = Vec::new();
        let mut index: usize = 0;
        while index < n
            invariant
                n == objects@.len(),
                index <= n,
                left_list@ =~= objects@.subrange(
                    0,
                    if index <= n / 2 {
                        index as int
                    } else {
                        n as int / 2
                    },
                ),
                right_list@ =~= objects@.subrange(
                    n as int / 2,
                    if index <= n / 2 {
                        n as int / 2
                    } else {
                        index as int
                    },
                ),
            decreases n - index,
        {
            let element = objects[index];
            if index < n / 2 {
                left_list.push(element);
            } else {
                right_list.push(element);
            }
            index = index + 1;
        }
        proof {
            assert(left_list@ =~= objects@.subrange(0, n as int / 2));
            assert(right_list@ =~= objects@.subrange(n as int / 2, n as int));
            assert forall|i: int|
                0 <= i < left_list@.len() implies ((#[trigger] left_list@[i]) as nat)
                < scene.num_handles() by {
                assert(left_list@[i] == objects@[i]);
            }
            assert forall|i: int|
                0 <= i < right_list@.len() implies ((#[trigger] right_list@[i]) as nat)
                < scene.num_handles() by {
                assert(right_list@[i] == objects@[n as int / 2 + i]);
            }
        }

        // Create the node
        let left = BvhNode::from_list(&mut left_list, scene);
        let right = BvhNode::from_list(&mut right_list, scene);
        proof {
            assert(aabb_of(bounds@) == bounds);
        }
        BvhNode::Split(bounds, Box::new(left), Box::new(right))
    }

    /// Traverse this subtree for the closest hit in `[tmin, tmax]`.
    pub fn hit<S: BoundsCollection>(
        &self,
        ray: &Ray,
        tmin: i64,
        tmax: i64,
        xi: i64,
        scene: &S,
    ) -> (r: Option<HitRecord>)
        requires
            scene.wf(),
            wf_node(scene, *self),
        ensures
            opt_hit_view(r) == spec_node_hit(scene, *self, ray@, tmin as int, tmax as int, xi as int),
        decreases *self,
    {
        match self {
            BvhNode::Empty => None,
            BvhNode::Leaf(handle) => scene.hit(*handle, ray, tmin, tmax, xi),
            BvhNode::Split(bounds, left, right) => {
                if bounds.hit(ray, tmin, tmax) {
                    let hit_left = left.hit(ray, tmin, tmax, xi, scene);
                    let hit_right = right.hit(ray, tmin, tmax, xi, scene);
                    merge_optionals(hit_left, hit_right)
                } else {
                    None
                }
            },
        }
    }
}

} // verus!
