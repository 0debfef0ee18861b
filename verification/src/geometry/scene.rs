//! The flat scene: a list of primitives and the material arena, with the
//! exhaustive closest-hit scan that the hierarchy is measured against.

use vstd::prelude::*;
use crate::math::ray::{Ray, ok_ray};
use crate::geometry::HitRecord;
use crate::geometry::hittable::{Hittable, prim_ok, prim_hit_spec, prim_material};
use crate::material::Material;

verus! {

/// Every primitive of the sequence has its vectors in the scalar range.
pub open spec fn prims_ok(s: Seq<Hittable>) -> bool {
    forall|i: int| 0 <= i < s.len() ==> prim_ok(#[trigger] s[i])
}

/// Every primitive of the sequence names a material below `n`.
pub open spec fn prims_materials_in(s: Seq<Hittable>, n: int) -> bool {
    forall|i: int| 0 <= i < s.len() ==> (prim_material(#[trigger] s[i]) as int) < n
}

/// The exhaustive scan from index `i` on: test each primitive against the
/// window `(tmin, closest)`, and on a hit narrow `closest` to the reported
/// parameter and keep the record.
pub open spec fn scan_from(
    s: Seq<Hittable>,
    i: int,
    r: Ray,
    tmin: i64,
    closest: i64,
    best: Option<HitRecord>,
) -> Option<HitRecord>
    decreases s.len() - i,
{
    if i < 0 || i >= s.len() {
        best
    } else {
        match prim_hit_spec(s[i], r, tmin, closest) {
            Some(rec) => scan_from(s, i + 1, r, tmin, rec.t, Some(rec)),
            None => scan_from(s, i + 1, r, tmin, closest, best),
        }
    }
}

/// The closest hit of the exhaustive scan over the whole list.
pub open spec fn scene_hit_spec(s: Seq<Hittable>, r: Ray, tmin: i64, tmax: i64) -> Option<
    HitRecord,
> {
    scan_from(s, 0, r, tmin, tmax, None)
}

/// The parameter of a reported hit, or nothing.
pub open spec fn opt_t(o: Option<HitRecord>) -> Option<i64> {
    match o {
        Some(rec) => Some(rec.t),
        None => None,
    }
}

/// The smaller of two optional parameters.
pub open spec fn opt_min(a: Option<i64>, b: Option<i64>) -> Option<i64> {
    match a {
        Some(x) => match b {
            Some(y) => if x <= y {
                Some(x)
            } else {
                Some(y)
            },
            None => Some(x),
        },
        None => b,
    }
}

/// The least reported parameter among the primitives from index `i` on,
/// each tested independently over the full window `(tmin, tmax)`.
pub open spec fn best_t_from(s: Seq<Hittable>, i: int, r: Ray, tmin: i64, tmax: i64) -> Option<
    i64,
>
    decreases s.len() - i,
{
    if i < 0 || i >= s.len() {
        None
    } else {
        opt_min(opt_t(prim_hit_spec(s[i], r, tmin, tmax)), best_t_from(s, i + 1, r, tmin, tmax))
    }
}

/// Keep an optional parameter only when it lies below `w`.
pub open spec fn t_filter(o: Option<i64>, w: i64) -> Option<i64> {
    match o {
        Some(t) => if t < w {
            Some(t)
        } else {
            None
        },
        None => None,
    }
}

/// Narrowing the window filters the suffix's least report: what lies
/// below `w` survives, anything else vanishes.
pub proof fn lemma_best_t_window(s: Seq<Hittable>, i: int, r: Ray, tmin: i64, w: i64, tmax: i64)
    requires
        w <= tmax,
    ensures
        best_t_from(s, i, r, tmin, w) == t_filter(best_t_from(s, i, r, tmin, tmax), w),
    decreases s.len() - i,
{
    if 0 <= i < s.len() {
        crate::geometry::hittable::lemma_prim_window(s[i], r, tmin, w, tmax);
        lemma_best_t_window(s, i + 1, r, tmin, w, tmax);
    }
}

/// The narrowing scan computes the least full-window report: starting
/// from window end `closest` and running best `best`, it returns the
/// suffix's least report below `closest` if there is one, and otherwise
/// keeps `best`.
pub proof fn lemma_scan_best(
    s: Seq<Hittable>,
    i: int,
    r: Ray,
    tmin: i64,
    closest: i64,
    best: Option<HitRecord>,
)
    ensures
        opt_t(scan_from(s, i, r, tmin, closest, best)) == (match best_t_from(
            s,
            i,
            r,
            tmin,
            closest,
        ) {
            Some(t) => Some(t),
            None => opt_t(best),
        }),
    decreases s.len() - i,
{
    if 0 <= i < s.len() {
        match prim_hit_spec(s[i], r, tmin, closest) {
            Some(rec) => {
                crate::geometry::hittable::lemma_prim_window(s[i], r, tmin, closest, closest);
                lemma_scan_best(s, i + 1, r, tmin, rec.t, Some(rec));
                lemma_best_t_window(s, i + 1, r, tmin, rec.t, closest);
            },
            None => {
                lemma_scan_best(s, i + 1, r, tmin, closest, best);
            },
        }
    }
}

/// The exhaustive scan over the whole list reports a hit exactly when
/// some primitive reports one over the full window, and its parameter is
/// the least full-window report.
pub proof fn lemma_scene_hit_best(s: Seq<Hittable>, r: Ray, tmin: i64, tmax: i64)
    ensures
        opt_t(scene_hit_spec(s, r, tmin, tmax)) == best_t_from(s, 0, r, tmin, tmax),
{
    lemma_scan_best(s, 0, r, tmin, tmax, None);
}

/// The sequence with every copy of `h` removed.
pub open spec fn without(s: Seq<Hittable>, h: Hittable) -> Seq<Hittable>
    decreases s.len(),
{
    if s.len() == 0 {
        s
    } else if s.first() == h {
        without(s.drop_first(), h)
    } else {
        seq![s.first()] + without(s.drop_first(), h)
    }
}

pub proof fn lemma_without_support(s: Seq<Hittable>, h: Hittable, p: Hittable)
    ensures
        without(s, h).contains(p) <==> s.contains(p) && p != h,
    decreases s.len(),
{
    if s.len() > 0 {
        lemma_without_support(s.drop_first(), h, p);
        if s.first() != h {
            assert(s.contains(p) <==> (p == s.first() || s.drop_first().contains(p))) by {
                if s.contains(p) {
                    let i = choose|i: int| 0 <= i < s.len() && s[i] == p;
                    if i > 0 {
                        assert(s.drop_first()[i - 1] == p);
                    }
                } else {
                    assert(s[0] == s.first());
                    if s.drop_first().contains(p) {
                        let i = choose|i: int| 0 <= i < s.drop_first().len() && s.drop_first()[i]
                            == p;
                        assert(s[i + 1] == p);
                    }
                }
            }
            let w = without(s.drop_first(), h);
            assert((seq![s.first()] + w).contains(p) <==> (p == s.first() || w.contains(p))) by {
                if (seq![s.first()] + w).contains(p) {
                    let i = choose|i: int| 0 <= i < (seq![s.first()] + w).len() && (seq![s.first()]
                        + w)[i] == p;
                    if i > 0 {
                        assert(w[i - 1] == p);
                    }
                } else {
                    assert((seq![s.first()] + w)[0] == s.first());
                    if w.contains(p) {
                        let i = choose|i: int| 0 <= i < w.len() && w[i] == p;
                        assert((seq![s.first()] + w)[i + 1] == p);
                    }
                }
            }
        } else {
            assert(s.contains(p) <==> (p == s.first() || s.drop_first().contains(p))) by {
                if s.contains(p) {
                    let i = choose|i: int| 0 <= i < s.len() && s[i] == p;
                    if i > 0 {
                        assert(s.drop_first()[i - 1] == p);
                    }
                } else {
                    assert(s[0] == s.first());
                    if s.drop_first().contains(p) {
                        let i = choose|i: int| 0 <= i < s.drop_first().len() && s.drop_first()[i]
                            == p;
                        assert(s[i + 1] == p);
                    }
                }
            }
        }
    }
}

pub proof fn lemma_without_shorter(s: Seq<Hittable>, h: Hittable)
    ensures
        without(s, h).len() <= s.len(),
        s.contains(h) ==> without(s, h).len() < s.len(),
    decreases s.len(),
{
    if s.len() > 0 {
        lemma_without_shorter(s.drop_first(), h);
        if s.contains(h) && s.first() != h {
            let i = choose|i: int| 0 <= i < s.len() && s[i] == h;
            assert(s.drop_first()[i - 1] == h);
        }
    }
}

/// Pulling one contained primitive out in front leaves the least report
/// unchanged: duplicates never matter to a minimum.
pub proof fn lemma_best_t_without(s: Seq<Hittable>, h: Hittable, r: Ray, tmin: i64, tmax: i64)
    requires
        s.contains(h),
    ensures
        best_t_from(s, 0, r, tmin, tmax) == opt_min(
            opt_t(prim_hit_spec(h, r, tmin, tmax)),
            best_t_from(without(s, h), 0, r, tmin, tmax),
        ),
    decreases s.len(),
{
    let rest = s.drop_first();
    assert(best_t_from(s, 1, r, tmin, tmax) == best_t_from(rest, 0, r, tmin, tmax)) by {
        lemma_best_t_drop_first(s, 1, r, tmin, tmax);
    }
    if s.first() == h {
        if rest.contains(h) {
            lemma_best_t_without(rest, h, r, tmin, tmax);
        } else {
            assert(without(rest, h) =~= rest) by {
                lemma_without_identity(rest, h);
            }
        }
    } else {
        assert(rest.contains(h)) by {
            let i = choose|i: int| 0 <= i < s.len() && s[i] == h;
            assert(rest[i - 1] == h);
        }
        lemma_best_t_without(rest, h, r, tmin, tmax);
        let w = without(rest, h);
        let ws = seq![s.first()] + w;
        assert(without(s, h) == ws);
        assert(best_t_from(ws, 0, r, tmin, tmax) == opt_min(
            opt_t(prim_hit_spec(s.first(), r, tmin, tmax)),
            best_t_from(w, 0, r, tmin, tmax),
        )) by {
            assert(ws[0] == s.first());
            lemma_best_t_drop_first(ws, 1, r, tmin, tmax);
            assert(ws.drop_first() =~= w);
        }
    }
}

proof fn lemma_without_identity(s: Seq<Hittable>, h: Hittable)
    requires
        !s.contains(h),
    ensures
        without(s, h) == s,
    decreases s.len(),
{
    if s.len() > 0 {
        assert(s[0] == s.first());
        assert(s.first() != h);
        assert(!s.drop_first().contains(h)) by {
            if s.drop_first().contains(h) {
                let i = choose|i: int| 0 <= i < s.drop_first().len() && s.drop_first()[i] == h;
                assert(s[i + 1] == h);
            }
        }
        lemma_without_identity(s.drop_first(), h);
        assert(without(s, h) =~= s);
    }
}

/// Shifting the scan start by one is dropping the first primitive.
proof fn lemma_best_t_drop_first(s: Seq<Hittable>, i: int, r: Ray, tmin: i64, tmax: i64)
    requires
        1 <= i,
        s.len() >= 1,
    ensures
        best_t_from(s, i, r, tmin, tmax) == best_t_from(s.drop_first(), i - 1, r, tmin, tmax),
    decreases s.len() - i,
{
    if i < s.len() {
        assert(s.drop_first()[i - 1] == s[i]);
        lemma_best_t_drop_first(s, i + 1, r, tmin, tmax);
    }
}

/// The least full-window report depends only on which primitives occur,
/// not on their order or multiplicity.
pub proof fn lemma_best_t_same_support(s1: Seq<Hittable>, s2: Seq<Hittable>, r: Ray, tmin: i64, tmax: i64)
    requires
        forall|p: Hittable| s1.contains(p) <==> s2.contains(p),
    ensures
        best_t_from(s1, 0, r, tmin, tmax) == best_t_from(s2, 0, r, tmin, tmax),
    decreases s1.len(),
{
    if s1.len() == 0 {
        if s2.len() > 0 {
            assert(s2.contains(s2[0]));
            assert(s1.contains(s2[0]));
        }
    } else {
        let h = s1.first();
        assert(s1.contains(h)) by {
            assert(s1[0] == h);
        }
        assert(s2.contains(h));
        lemma_best_t_without(s1, h, r, tmin, tmax);
        lemma_best_t_without(s2, h, r, tmin, tmax);
        assert forall|p: Hittable| without(s1, h).contains(p) <==> without(s2, h).contains(
            p,
        ) by {
            lemma_without_support(s1, h, p);
            lemma_without_support(s2, h, p);
        }
        lemma_without_shorter(s1, h);
        lemma_best_t_same_support(without(s1, h), without(s2, h), r, tmin, tmax);
    }
}

/// An ordered collection of primitives together with the arena of the
/// materials they shade with.
pub struct HittableScene {
    pub hittable_list: Vec<Hittable>,
    pub materials: Vec<Material>,
}

impl HittableScene {
    /// An empty scene.
    pub fn new() -> (r: HittableScene)
        ensures
            r.hittable_list@ == Seq::<Hittable>::empty(),
            r.materials@ == Seq::<Material>::empty(),
    {
        HittableScene { hittable_list: Vec::new(), materials: Vec::new() }
    }

    /// Append a primitive to the scene.
    pub fn add_hittable(&mut self, hittable: Hittable)
        ensures
            final(self).hittable_list@ == old(self).hittable_list@.push(hittable),
            final(self).materials@ == old(self).materials@,
    {
        self.hittable_list.push(hittable);
    }

    /// Append a material to the arena and hand back its index, for
    /// primitives to refer to.
    pub fn add_material(&mut self, material: Material) -> (idx: usize)
        ensures
            final(self).materials@ == old(self).materials@.push(material),
            final(self).hittable_list@ == old(self).hittable_list@,
            idx as int == old(self).materials@.len(),
    {
        let idx = self.materials.len();
        self.materials.push(material);
        idx
    }

    /// The exhaustive closest hit: test every primitive, narrowing the far
    /// end of the window to the closest parameter seen so far.
    pub fn hit(&self, r: &Ray, t_min: i64, t_max: i64) -> (res: Option<HitRecord>)
        requires
            ok_ray(*r),
            prims_ok(self.hittable_list@),
        ensures
            res == scene_hit_spec(self.hittable_list@, *r, t_min, t_max),
    {
        let ghost s = self.hittable_list@;
        let mut closest: i64 = t_max;
        let mut best: Option<HitRecord> = None;
        let n = self.hittable_list.len();
        let mut i: usize = 0;
        while i < n
            invariant
                n == s.len(),
                i <= n,
                s == self.hittable_list@,
                ok_ray(*r),
                prims_ok(s),
                scan_from(s, i as int, *r, t_min, closest, best) == scene_hit_spec(
                    s,
                    *r,
                    t_min,
                    t_max,
                ),
            decreases n - i,
        {
            let h = &self.hittable_list[i];
            match h.hit(r, t_min, closest) {
                Some(rec) => {
                    closest = rec.t;
                    best = Some(rec);
                },
                None => {},
            }
            i = i + 1;
        }
        best
    }
}

} // verus!
