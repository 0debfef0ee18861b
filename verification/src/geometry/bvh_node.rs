//! The bounding-volume hierarchy: a binary tree over primitives, built
//! once per scene with a randomly chosen split axis, used for logarithmic
//! intersection queries.

use vstd::prelude::*;
use crate::math::ray::{Ray, ok_ray};
use crate::math::vec3::Vec3;
use crate::geometry::HitRecord;
use crate::geometry::aabb::{AABB, aabb_hit_spec, aabb_union, box_subset};
use crate::geometry::hittable::{Hittable, prim_ok, prim_hit_spec, prim_box, prim_key};
use crate::geometry::scene::{prims_ok, best_t_from, opt_min, opt_t, scene_hit_spec};
use crate::rng::{Rng64, rng_next, axis_of};

verus! {

/// A child of a hierarchy node: either one primitive or a further node.
pub enum BvhChild {
    Leaf(Hittable),
    Node(Box<BvhNode>),
}

/// A hierarchy node: two children and the box that encloses both over the
/// hierarchy's build-time interval.
pub struct BvhNode {
    pub left: BvhChild,
    pub right: BvhChild,
    pub aabb: AABB,
}

/// The primitives below a child, in tree order.
pub open spec fn child_prims(c: BvhChild) -> Seq<Hittable>
    decreases c,
{
    match c {
        BvhChild::Leaf(h) => seq![h],
        BvhChild::Node(b) => tree_prims(*b),
    }
}

/// The primitives below a node, in tree order.
pub open spec fn tree_prims(n: BvhNode) -> Seq<Hittable>
    decreases n,
{
    child_prims(n.left) + child_prims(n.right)
}

pub open spec fn child_ok(c: BvhChild) -> bool
    decreases c,
{
    match c {
        BvhChild::Leaf(h) => prim_ok(h),
        BvhChild::Node(b) => tree_ok(*b),
    }
}

pub open spec fn tree_ok(n: BvhNode) -> bool
    decreases n,
{
    child_ok(n.left) && child_ok(n.right)
}

/// The box a child contributes to its parent, over the build interval.
pub open spec fn child_box(c: BvhChild, t0: i64, t1: i64) -> AABB {
    match c {
        BvhChild::Leaf(h) => prim_box(h, t0, t1),
        BvhChild::Node(b) => b.aabb,
    }
}

/// The hierarchy invariant: every node's box is the union of its
/// children's boxes over the build interval `[t0, t1]`.
pub open spec fn child_wf(c: BvhChild, t0: i64, t1: i64) -> bool
    decreases c,
{
    match c {
        BvhChild::Leaf(_) => true,
        BvhChild::Node(b) => tree_wf(*b, t0, t1),
    }
}

pub open spec fn tree_wf(n: BvhNode, t0: i64, t1: i64) -> bool
    decreases n,
{
    &&& n.aabb == aabb_union(child_box(n.left, t0, t1), child_box(n.right, t0, t1))
    &&& child_wf(n.left, t0, t1)
    &&& child_wf(n.right, t0, t1)
}

/// What a child reports for a ray over `(tmin, tmax)`.
pub open spec fn child_hit_spec(c: BvhChild, r: Ray, tmin: i64, tmax: i64) -> Option<HitRecord>
    decreases c,
{
    match c {
        BvhChild::Leaf(h) => prim_hit_spec(h, r, tmin, tmax),
        BvhChild::Node(b) => bvh_hit_spec(*b, r, tmin, tmax),
    }
}

/// What a node reports: nothing when the ray misses the node's box;
/// otherwise both children are queried over the same window and the
/// closer report wins, the right one on a tie.
pub open spec fn bvh_hit_spec(n: BvhNode, r: Ray, tmin: i64, tmax: i64) -> Option<HitRecord>
    decreases n,
{
    if !aabb_hit_spec(n.aabb, r, tmin, tmax) {
        None
    } else {
        let lh = child_hit_spec(n.left, r, tmin, tmax);
        let rh = child_hit_spec(n.right, r, tmin, tmax);
        match lh {
            Some(l) => match rh {
                Some(rr) => if l.t < rr.t {
                    lh
                } else {
                    rh
                },
                None => lh,
            },
            None => rh,
        }
    }
}

/// Insert a primitive into a key-sorted sequence, after any equal keys.
pub open spec fn insert_sorted(s: Seq<Hittable>, h: Hittable, axis: int) -> Seq<Hittable>
    decreases s.len(),
{
    if s.len() == 0 {
        seq![h]
    } else if prim_key(h, axis) < prim_key(s.last(), axis) {
        insert_sorted(s.drop_last(), h, axis).push(s.last())
    } else {
        s.push(h)
    }
}

/// Insertion sort by the box key on the chosen axis; a deterministic,
/// stable order for the hierarchy split.
pub open spec fn isort(s: Seq<Hittable>, axis: int) -> Seq<Hittable>
    decreases s.len(),
{
    if s.len() == 0 {
        s
    } else {
        insert_sorted(isort(s.drop_last(), axis), s.last(), axis)
    }
}

pub proof fn lemma_insert_sorted_len(s: Seq<Hittable>, h: Hittable, axis: int)
    ensures
        insert_sorted(s, h, axis).len() == s.len() + 1,
    decreases s.len(),
{
    if s.len() > 0 && prim_key(h, axis) < prim_key(s.last(), axis) {
        lemma_insert_sorted_len(s.drop_last(), h, axis);
    }
}

pub proof fn lemma_isort_len(s: Seq<Hittable>, axis: int)
    ensures
        isort(s, axis).len() == s.len(),
    decreases s.len(),
{
    if s.len() > 0 {
        lemma_isort_len(s.drop_last(), axis);
        lemma_insert_sorted_len(isort(s.drop_last(), axis), s.last(), axis);
    }
}

/// The sorted order keeps exactly the primitives of the input.
pub proof fn lemma_insert_sorted_multiset(s: Seq<Hittable>, h: Hittable, axis: int)
    ensures
        insert_sorted(s, h, axis).to_multiset() == s.to_multiset().insert(h),
    decreases s.len(),
{
    broadcast use vstd::seq_lib::group_to_multiset_ensures;

    if s.len() == 0 {
        assert(seq![h] == Seq::<Hittable>::empty().push(h));
    } else if prim_key(h, axis) < prim_key(s.last(), axis) {
        lemma_insert_sorted_multiset(s.drop_last(), h, axis);
        assert(s.drop_last().push(s.last()) == s);
    }
}

pub proof fn lemma_isort_multiset(s: Seq<Hittable>, axis: int)
    ensures
        isort(s, axis).to_multiset() == s.to_multiset(),
    decreases s.len(),
{
    broadcast use vstd::seq_lib::group_to_multiset_ensures;

    if s.len() > 0 {
        lemma_isort_multiset(s.drop_last(), axis);
        lemma_insert_sorted_multiset(isort(s.drop_last(), axis), s.last(), axis);
        assert(s.drop_last().push(s.last()) == s);
    }
}

/// Sorting keeps every primitive's vectors in range.
pub proof fn lemma_isort_ok(s: Seq<Hittable>, axis: int)
    requires
        prims_ok(s),
    ensures
        prims_ok(isort(s, axis)),
{
    broadcast use vstd::seq_lib::group_to_multiset_ensures;

    lemma_isort_multiset(s, axis);
    assert forall|i: int| 0 <= i < isort(s, axis).len() implies prim_ok(
        #[trigger] isort(s, axis)[i],
    ) by {
        assert(isort(s, axis).to_multiset().contains(isort(s, axis)[i]));
        assert(s.to_multiset().contains(isort(s, axis)[i]));
        let j = choose|j: int| 0 <= j < s.len() && s[j] == isort(s, axis)[i];
        assert(prim_ok(s[j]));
    }
}

/// The hierarchy built over a primitive sequence, and the generator state
/// after the build: pick a random axis, sort by it, and split the sorted
/// list at its midpoint; one or two primitives make a leaf pair.
pub open spec fn build_spec(s: Seq<Hittable>, t0: i64, t1: i64, state: u64) -> (BvhNode, u64)
    decreases s.len(),
    via build_spec_dec
{
    let s1 = rng_next(state);
    let axis = axis_of(s1);
    let sorted = isort(s, axis);
    if s.len() <= 1 {
        let h = sorted[0];
        let hb = prim_box(h, t0, t1);
        (BvhNode { left: BvhChild::Leaf(h), right: BvhChild::Leaf(h), aabb: aabb_union(hb, hb) }, s1)
    } else if s.len() == 2 {
        let h0 = sorted[0];
        let h1 = sorted[1];
        (
            BvhNode {
                left: BvhChild::Leaf(h0),
                right: BvhChild::Leaf(h1),
                aabb: aabb_union(prim_box(h0, t0, t1), prim_box(h1, t0, t1)),
            },
            s1,
        )
    } else {
        let mid = s.len() as int / 2;
        let lp = build_spec(sorted.take(mid), t0, t1, s1);
        let rp = build_spec(sorted.skip(mid), t0, t1, lp.1);
        (
            BvhNode {
                left: BvhChild::Node(Box::new(lp.0)),
                right: BvhChild::Node(Box::new(rp.0)),
                aabb: aabb_union(lp.0.aabb, rp.0.aabb),
            },
            rp.1,
        )
    }
}

#[via_fn]
proof fn build_spec_dec(s: Seq<Hittable>, t0: i64, t1: i64, state: u64) {
    lemma_isort_len(s, axis_of(rng_next(state)));
}

fn insert_by_key(out: &mut Vec<Hittable>, h: Hittable, axis: usize)
    requires
        axis < 3,
        prim_ok(h),
        prims_ok(old(out)@),
    ensures
        final(out)@ == insert_sorted(old(out)@, h, axis as int),
        prims_ok(final(out)@),
{
    let hk = h.sort_key(axis);
    let mut j: usize = out.len();
    while j > 0 && out[j - 1].sort_key(axis) > hk
        invariant
            j <= out@.len(),
            axis < 3,
            prim_ok(h),
            prims_ok(out@),
            hk == prim_key(h, axis as int),
            forall|k: int| j <= k < out@.len() ==> prim_key(#[trigger] out@[k], axis as int)
                > prim_key(h, axis as int),
        decreases j,
    {
        j = j - 1;
    }
    proof {
        lemma_insert_sorted_split(out@, h, axis as int, j as int);
    }
    out.insert(j, h);
    proof {
        assert(prims_ok(final(out)@)) by {
            assert forall|i: int| 0 <= i < final(out)@.len() implies prim_ok(
                #[trigger] final(out)@[i],
            ) by {
                if i < j {
                    assert(final(out)@[i] == old(out)@[i]);
                } else if i == j {
                    assert(final(out)@[i] == h);
                } else {
                    assert(final(out)@[i] == old(out)@[i - 1]);
                }
            }
        }
    }
}

#[verifier::rlimit(100)]
proof fn lemma_insert_sorted_split(s: Seq<Hittable>, h: Hittable, axis: int, j: int)
    requires
        0 <= j <= s.len(),
        forall|k: int| j <= k < s.len() ==> prim_key(#[trigger] s[k], axis) > prim_key(h, axis),
        j > 0 ==> prim_key(s[j - 1], axis) <= prim_key(h, axis),
    ensures
        insert_sorted(s, h, axis) == s.subrange(0, j) + seq![h] + s.subrange(j, s.len() as int),
    decreases s.len(),
{
    if s.len() == 0 {
        assert(insert_sorted(s, h, axis) =~= s.subrange(0, j) + seq![h] + s.subrange(
            j,
            s.len() as int,
        ));
    } else if prim_key(h, axis) < prim_key(s.last(), axis) {
        assert(j < s.len());
        lemma_insert_sorted_split(s.drop_last(), h, axis, j);
        assert(insert_sorted(s, h, axis) =~= s.subrange(0, j) + seq![h] + s.subrange(
            j,
            s.len() as int,
        ));
    } else {
        assert(j == s.len()) by {
            if j < s.len() {
                assert(prim_key(s[s.len() - 1], axis) > prim_key(h, axis));
            }
        }
        assert(insert_sorted(s, h, axis) =~= s.subrange(0, j) + seq![h] + s.subrange(
            j,
            s.len() as int,
        ));
    }
}

fn sort_by_axis(list: &Vec<Hittable>, axis: usize) -> (r: Vec<Hittable>)
    requires
        axis < 3,
        prims_ok(list@),
    ensures
        r@ == isort(list@, axis as int),
        prims_ok(r@),
{
    let mut out: Vec<Hittable> = Vec::new();
    let n = list.len();
    let mut i: usize = 0;
    while i < n
        invariant
            n == list@.len(),
            i <= n,
            axis < 3,
            prims_ok(list@),
            prims_ok(out@),
            out@ == isort(list@.take(i as int), axis as int),
        decreases n - i,
    {
        proof {
            assert(prim_ok(list@[i as int]));
        }
        insert_by_key(&mut out, list[i], axis);
        proof {
            let t = list@.take(i + 1 as int);
            assert(t.drop_last() == list@.take(i as int));
            assert(t.last() == list@[i as int]);
        }
        i = i + 1;
    }
    proof {
        assert(list@.take(n as int) == list@);
    }
    out
}

/// Every primitive that reports a hit over `(tmin, tmax)` has its own
/// bounding box pass the slab test over the same window.  This is the
/// leaf-level margin the box pre-test rests on; in exact real arithmetic
/// it always holds, and the hierarchy equivalence law assumes it.
pub open spec fn covered(s: Seq<Hittable>, r: Ray, tmin: i64, tmax: i64, t0: i64, t1: i64) -> bool {
    forall|i: int|
        0 <= i < s.len() ==> (prim_hit_spec(#[trigger] s[i], r, tmin, tmax).is_some()
            ==> aabb_hit_spec(prim_box(s[i], t0, t1), r, tmin, tmax))
}

proof fn lemma_best_t_shift(s1: Seq<Hittable>, s2: Seq<Hittable>, j: int, r: Ray, tmin: i64, tmax: i64)
    requires
        0 <= j <= s2.len(),
    ensures
        best_t_from(s1 + s2, s1.len() + j, r, tmin, tmax) == best_t_from(s2, j, r, tmin, tmax),
    decreases s2.len() - j,
{
    if j < s2.len() {
        assert((s1 + s2)[s1.len() + j] == s2[j]);
        lemma_best_t_shift(s1, s2, j + 1, r, tmin, tmax);
    }
}

proof fn lemma_best_t_concat(s1: Seq<Hittable>, s2: Seq<Hittable>, i: int, r: Ray, tmin: i64, tmax: i64)
    requires
        0 <= i <= s1.len(),
    ensures
        best_t_from(s1 + s2, i, r, tmin, tmax) == opt_min(
            best_t_from(s1, i, r, tmin, tmax),
            best_t_from(s2, 0, r, tmin, tmax),
        ),
    decreases s1.len() - i,
{
    if i < s1.len() {
        assert((s1 + s2)[i] == s1[i]);
        lemma_best_t_concat(s1, s2, i + 1, r, tmin, tmax);
    } else {
        lemma_best_t_shift(s1, s2, 0, r, tmin, tmax);
    }
}

proof fn lemma_best_t_witness(s: Seq<Hittable>, i: int, r: Ray, tmin: i64, tmax: i64) -> (j: int)
    requires
        0 <= i,
        best_t_from(s, i, r, tmin, tmax).is_some(),
    ensures
        i <= j < s.len(),
        prim_hit_spec(s[j], r, tmin, tmax).is_some(),
    decreases s.len() - i,
{
    if prim_hit_spec(s[i], r, tmin, tmax).is_some() {
        i
    } else {
        lemma_best_t_witness(s, i + 1, r, tmin, tmax)
    }
}

/// Under the hierarchy invariant, every primitive's box below a node lies
/// within that node's box.
proof fn lemma_node_box_covers(n: BvhNode, t0: i64, t1: i64, j: int)
    requires
        tree_wf(n, t0, t1),
        0 <= j < tree_prims(n).len(),
    ensures
        box_subset(prim_box(tree_prims(n)[j], t0, t1), n.aabb),
    decreases n,
{
    let lp = child_prims(n.left);
    let rp = child_prims(n.right);
    crate::geometry::aabb::lemma_surrounding_box_contains(
        child_box(n.left, t0, t1),
        child_box(n.right, t0, t1),
        Vec3 { x: 0i64, y: 0i64, z: 0i64 },
    );
    if j < lp.len() {
        assert(tree_prims(n)[j] == lp[j]);
        lemma_child_box_covers(n.left, t0, t1, j);
    } else {
        assert(tree_prims(n)[j] == rp[j - lp.len()]);
        lemma_child_box_covers(n.right, t0, t1, j - lp.len());
    }
}

proof fn lemma_child_box_covers(c: BvhChild, t0: i64, t1: i64, j: int)
    requires
        child_wf(c, t0, t1),
        0 <= j < child_prims(c).len(),
    ensures
        box_subset(prim_box(child_prims(c)[j], t0, t1), child_box(c, t0, t1)),
    decreases c,
{
    match c {
        BvhChild::Leaf(_) => {},
        BvhChild::Node(b) => {
            lemma_node_box_covers(*b, t0, t1, j);
        },
    }
}

/// Under the hierarchy invariant and the leaf-level margin, a node's
/// report has exactly the least parameter among its primitives' reports
/// over the full window: the box pre-test never discards a subtree that
/// would have reported.
proof fn lemma_node_equiv(n: BvhNode, r: Ray, tmin: i64, tmax: i64, t0: i64, t1: i64)
    requires
        tree_wf(n, t0, t1),
        covered(tree_prims(n), r, tmin, tmax, t0, t1),
    ensures
        opt_t(bvh_hit_spec(n, r, tmin, tmax)) == best_t_from(tree_prims(n), 0, r, tmin, tmax),
    decreases n,
{
    let lp = child_prims(n.left);
    let rp = child_prims(n.right);
    let tp = tree_prims(n);
    assert forall|i: int| 0 <= i < lp.len() implies (prim_hit_spec(
        #[trigger] lp[i],
        r,
        tmin,
        tmax,
    ).is_some() ==> aabb_hit_spec(prim_box(lp[i], t0, t1), r, tmin, tmax)) by {
        assert(tp[i] == lp[i]);
        assert(prim_hit_spec(tp[i], r, tmin, tmax).is_some() ==> aabb_hit_spec(
            prim_box(tp[i], t0, t1),
            r,
            tmin,
            tmax,
        ));
    }
    assert forall|i: int| 0 <= i < rp.len() implies (prim_hit_spec(
        #[trigger] rp[i],
        r,
        tmin,
        tmax,
    ).is_some() ==> aabb_hit_spec(prim_box(rp[i], t0, t1), r, tmin, tmax)) by {
        assert(tp[lp.len() + i] == rp[i]);
        assert(prim_hit_spec(tp[lp.len() + i], r, tmin, tmax).is_some() ==> aabb_hit_spec(
            prim_box(tp[lp.len() + i], t0, t1),
            r,
            tmin,
            tmax,
        ));
    }
    lemma_best_t_concat(lp, rp, 0, r, tmin, tmax);
    if aabb_hit_spec(n.aabb, r, tmin, tmax) {
        lemma_child_equiv(n.left, r, tmin, tmax, t0, t1);
        lemma_child_equiv(n.right, r, tmin, tmax, t0, t1);
    } else {
        if best_t_from(tp, 0, r, tmin, tmax).is_some() {
            let j = lemma_best_t_witness(tp, 0, r, tmin, tmax);
            lemma_node_box_covers(n, t0, t1, j);
            crate::geometry::aabb::lemma_aabb_hit_mono(
                prim_box(tp[j], t0, t1),
                n.aabb,
                r,
                tmin,
                tmax,
            );
            assert(false);
        }
    }
}

proof fn lemma_child_equiv(c: BvhChild, r: Ray, tmin: i64, tmax: i64, t0: i64, t1: i64)
    requires
        child_wf(c, t0, t1),
        covered(child_prims(c), r, tmin, tmax, t0, t1),
    ensures
        opt_t(child_hit_spec(c, r, tmin, tmax)) == best_t_from(child_prims(c), 0, r, tmin, tmax),
    decreases c,
{
    match c {
        BvhChild::Leaf(h) => {
            assert(child_prims(c)[0] == h);
            assert(best_t_from(child_prims(c), 1, r, tmin, tmax).is_none());
        },
        BvhChild::Node(b) => {
            lemma_node_equiv(*b, r, tmin, tmax, t0, t1);
        },
    }
}

/// The hierarchy equivalence law: for a well-formed hierarchy holding the
/// same primitives as a flat list, and a ray for which every reporting
/// primitive's own box passes the slab test, the hierarchy's closest hit
/// (by parameter) is exactly the closest hit of the exhaustive scan.  The
/// box pre-test is a pure performance device: it never changes the
/// result.
pub proof fn lemma_bvh_matches_scan(
    n: BvhNode,
    s: Seq<Hittable>,
    r: Ray,
    tmin: i64,
    tmax: i64,
    t0: i64,
    t1: i64,
)
    requires
        tree_wf(n, t0, t1),
        forall|p: Hittable| tree_prims(n).contains(p) <==> s.contains(p),
        covered(tree_prims(n), r, tmin, tmax, t0, t1),
    ensures
        opt_t(bvh_hit_spec(n, r, tmin, tmax)) == opt_t(scene_hit_spec(s, r, tmin, tmax)),
{
    lemma_node_equiv(n, r, tmin, tmax, t0, t1);
    crate::geometry::scene::lemma_best_t_same_support(tree_prims(n), s, r, tmin, tmax);
    crate::geometry::scene::lemma_scene_hit_best(s, r, tmin, tmax);
}

proof fn lemma_concat_contains(s1: Seq<Hittable>, s2: Seq<Hittable>, p: Hittable)
    ensures
        (s1 + s2).contains(p) <==> s1.contains(p) || s2.contains(p),
{
    if (s1 + s2).contains(p) {
        let i = choose|i: int| 0 <= i < (s1 + s2).len() && (s1 + s2)[i] == p;
        if i < s1.len() {
            assert(s1[i] == p);
        } else {
            assert(s2[i - s1.len()] == p);
        }
    }
    if s1.contains(p) {
        let i = choose|i: int| 0 <= i < s1.len() && s1[i] == p;
        assert((s1 + s2)[i] == p);
    }
    if s2.contains(p) {
        let i = choose|i: int| 0 <= i < s2.len() && s2[i] == p;
        assert((s1 + s2)[s1.len() + i] == p);
    }
}

/// The built hierarchy is well formed, keeps its vectors in range, and
/// holds exactly the primitives it was built from (a one-primitive node
/// holds its primitive as both children).
pub proof fn lemma_build_props(s: Seq<Hittable>, t0: i64, t1: i64, state: u64)
    requires
        s.len() >= 1,
        prims_ok(s),
    ensures
        tree_wf(build_spec(s, t0, t1, state).0, t0, t1),
        tree_ok(build_spec(s, t0, t1, state).0),
        forall|p: Hittable|
            tree_prims(#[trigger] build_spec(s, t0, t1, state).0).contains(p) <==> s.contains(p),
    decreases s.len(),
{
    broadcast use vstd::seq_lib::group_to_multiset_ensures;

    let s1 = rng_next(state);
    let axis = axis_of(s1);
    let sorted = isort(s, axis);
    lemma_isort_len(s, axis);
    lemma_isort_multiset(s, axis);
    lemma_isort_ok(s, axis);
    assert forall|p: Hittable| sorted.contains(p) <==> s.contains(p) by {
        assert(sorted.to_multiset().count(p) == s.to_multiset().count(p));
    }
    let n = build_spec(s, t0, t1, state).0;
    if s.len() == 1 {
        let h = sorted[0];
        assert(tree_prims(n) == seq![h] + seq![h]);
        assert forall|p: Hittable| tree_prims(n).contains(p) <==> s.contains(p) by {
            lemma_concat_contains(seq![h], seq![h], p);
            assert(seq![h].contains(p) <==> p == h) by {
                if seq![h].contains(p) {
                    let i = choose|i: int| 0 <= i < 1 && seq![h][i] == p;
                    assert(seq![h][0] == h);
                }
                assert(seq![h][0] == h);
            }
            assert(sorted.contains(p) <==> p == h) by {
                if sorted.contains(p) {
                    let i = choose|i: int| 0 <= i < sorted.len() && sorted[i] == p;
                }
                assert(sorted[0] == h);
            }
        }
        assert(prim_ok(h)) by {
            assert(sorted[0] == h);
        }
    } else if s.len() == 2 {
        let h0 = sorted[0];
        let h1 = sorted[1];
        assert(tree_prims(n) == seq![h0] + seq![h1]);
        assert forall|p: Hittable| tree_prims(n).contains(p) <==> s.contains(p) by {
            lemma_concat_contains(seq![h0], seq![h1], p);
            assert(seq![h0][0] == h0);
            assert(seq![h1][0] == h1);
            if sorted.contains(p) {
                let i = choose|i: int| 0 <= i < sorted.len() && sorted[i] == p;
                assert(i == 0 || i == 1);
            }
            if p == h0 {
                assert(sorted.contains(p)) by {
                    assert(sorted[0] == p);
                }
            }
            if p == h1 {
                assert(sorted.contains(p)) by {
                    assert(sorted[1] == p);
                }
            }
            if seq![h0].contains(p) {
                let i = choose|i: int| 0 <= i < 1 && seq![h0][i] == p;
            }
            if seq![h1].contains(p) {
                let i = choose|i: int| 0 <= i < 1 && seq![h1][i] == p;
            }
        }
        assert(prim_ok(h0) && prim_ok(h1));
    } else {
        let mid = s.len() as int / 2;
        let left_part = sorted.take(mid);
        let right_part = sorted.skip(mid);
        assert(prims_ok(left_part)) by {
            assert forall|i: int| 0 <= i < left_part.len() implies prim_ok(
                #[trigger] left_part[i],
            ) by {
                assert(left_part[i] == sorted[i]);
            }
        }
        assert(prims_ok(right_part)) by {
            assert forall|i: int| 0 <= i < right_part.len() implies prim_ok(
                #[trigger] right_part[i],
            ) by {
                assert(right_part[i] == sorted[mid + i]);
            }
        }
        let lp = build_spec(left_part, t0, t1, s1);
        lemma_build_props(left_part, t0, t1, s1);
        lemma_build_props(right_part, t0, t1, lp.1);
        assert(sorted =~= left_part + right_part);
        assert forall|p: Hittable| tree_prims(n).contains(p) <==> s.contains(p) by {
            lemma_concat_contains(
                tree_prims(build_spec(left_part, t0, t1, s1).0),
                tree_prims(build_spec(right_part, t0, t1, lp.1).0),
                p,
            );
            lemma_concat_contains(left_part, right_part, p);
        }
    }
}

/// The hierarchy equivalence for a freshly built tree: over any
/// primitive list, any build draw, and any ray for which each reporting
/// primitive's own box passes the slab test, querying the built
/// hierarchy finds exactly the closest hit the exhaustive scan finds.
pub proof fn lemma_built_tree_matches_scan(
    s: Seq<Hittable>,
    t0: i64,
    t1: i64,
    state: u64,
    r: Ray,
    tmin: i64,
    tmax: i64,
)
    requires
        s.len() >= 1,
        prims_ok(s),
        covered(tree_prims(build_spec(s, t0, t1, state).0), r, tmin, tmax, t0, t1),
    ensures
        opt_t(bvh_hit_spec(build_spec(s, t0, t1, state).0, r, tmin, tmax)) == opt_t(
            scene_hit_spec(s, r, tmin, tmax),
        ),
{
    lemma_build_props(s, t0, t1, state);
    lemma_bvh_matches_scan(build_spec(s, t0, t1, state).0, s, r, tmin, tmax, t0, t1);
}

impl BvhNode {
    /// Build the hierarchy over the given primitives.  Each level sorts by
    /// a freshly drawn axis and splits the sorted list at its midpoint; a
    /// single primitive becomes a leaf pair with itself.  An empty list is
    /// a caller error and is excluded.
    pub fn new(list: Vec<Hittable>, time0: i64, time1: i64, rng: &mut Rng64) -> (res: BvhNode)
        requires
            list@.len() >= 1,
            prims_ok(list@),
        ensures
            res == build_spec(list@, time0, time1, old(rng).state).0,
            final(rng).state == build_spec(list@, time0, time1, old(rng).state).1,
            tree_ok(res),
            tree_wf(res, time0, time1),
            forall|p: Hittable| tree_prims(res).contains(p) <==> list@.contains(p),
        decreases list@.len(),
    {
        proof {
            lemma_build_props(list@, time0, time1, old(rng).state);
        }
        let axis = rng.next_axis();
        proof {
            lemma_isort_len(list@, axis as int);
        }
        let mut sorted = sort_by_axis(&list, axis);
        if sorted.len() == 1 {
            let h = sorted[0];
            let hb = match h.bounding_box(time0, time1) {
                Some(bb) => bb,
                None => AABB::default(),
            };
            BvhNode {
                left: BvhChild::Leaf(h),
                right: BvhChild::Leaf(h),
                aabb: AABB::surrounding_box(&hb, &hb),
            }
        } else if sorted.len() == 2 {
            let h0 = sorted[0];
            let h1 = sorted[1];
            let b0 = match h0.bounding_box(time0, time1) {
                Some(bb) => bb,
                None => AABB::default(),
            };
            let b1 = match h1.bounding_box(time0, time1) {
                Some(bb) => bb,
                None => AABB::default(),
            };
            BvhNode {
                left: BvhChild::Leaf(h0),
                right: BvhChild::Leaf(h1),
                aabb: AABB::surrounding_box(&b0, &b1),
            }
        } else {
            let mid = sorted.len() / 2;
            let right_list = sorted.split_off(mid);
            let ghost sorted_seq = isort(list@, axis as int);
            proof {
                assert(sorted@ == sorted_seq.take(mid as int));
                assert(right_list@ == sorted_seq.skip(mid as int));
            }
            let left_node = BvhNode::new(sorted, time0, time1, rng);
            let right_node = BvhNode::new(right_list, time0, time1, rng);
            let aabb = AABB::surrounding_box(&left_node.aabb, &right_node.aabb);
            BvhNode {
                left: BvhChild::Node(Box::new(left_node)),
                right: BvhChild::Node(Box::new(right_node)),
                aabb,
            }
        }
    }

    /// Query the hierarchy: skip the whole subtree when the ray misses
    /// this node's box, otherwise take the closer of the two children's
    /// reports over the same window.  The box pre-test is a performance
    /// device; the equivalence with the exhaustive scan is stated in
    /// [`lemma_bvh_matches_scan`].
    pub fn hit(&self, r: &Ray, t_min: i64, t_max: i64) -> (res: Option<HitRecord>)
        requires
            ok_ray(*r),
            tree_ok(*self),
        ensures
            res == bvh_hit_spec(*self, *r, t_min, t_max),
        decreases *self,
    {
        if self.aabb.hit(r, t_min, t_max) {
            let lh = self.left.hit(r, t_min, t_max);
            let rh = self.right.hit(r, t_min, t_max);
            match lh {
                Some(l) => match rh {
                    Some(rr) => if l.t < rr.t {
                        Some(l)
                    } else {
                        Some(rr)
                    },
                    None => Some(l),
                },
                None => rh,
            }
        } else {
            None
        }
    }

    /// The node's precomputed box.
    pub fn bounding_box(&self, _t0: i64, _t1: i64) -> (res: Option<AABB>)
        ensures
            res == Some(self.aabb),
    {
        Some(self.aabb)
    }
}

impl BvhChild {
    /// Query one child of a node.
    pub fn hit(&self, r: &Ray, t_min: i64, t_max: i64) -> (res: Option<HitRecord>)
        requires
            ok_ray(*r),
            child_ok(*self),
        ensures
            res == child_hit_spec(*self, *r, t_min, t_max),
        decreases *self,
    {
        match self {
            BvhChild::Leaf(h) => h.hit(r, t_min, t_max),
            BvhChild::Node(b) => b.hit(r, t_min, t_max),
        }
    }
}

} // verus!
