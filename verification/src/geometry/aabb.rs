//! Axis-aligned bounding boxes with the slab intersection test.

use vstd::prelude::*;
use crate::fixed::{ONE, FX_MAX, cl, fm, fd, fx_mul, fx_div, fx_sub, lemma_fm_mono};
use crate::math::vec3::Vec3;
use crate::math::ray::Ray;

verus! {

#[derive(Clone, Copy, PartialEq, Eq, Structural, Debug)]
pub struct AABB {
    pub min: Vec3,
    pub max: Vec3,
}

/// The smaller of two scalars.
pub open spec fn imin(a: i64, b: i64) -> i64 {
    if a <= b {
        a
    } else {
        b
    }
}

/// The larger of two scalars.
pub open spec fn imax(a: i64, b: i64) -> i64 {
    if a <= b {
        b
    } else {
        a
    }
}

/// One slab pass: intersect `[tmin, tmax]` with the parameter interval in
/// which the ray lies between the two planes `lo` and `hi` on one axis.
/// The plane parameters are found through the reciprocal of the direction
/// component; a zero component saturates the reciprocal to the scalar
/// extreme, the model's stand-in for the infinities of the ideal slab
/// walk, instead of raising an error.
pub open spec fn slab_narrow(lo: i64, hi: i64, o: i64, d: i64, tmin: i64, tmax: i64) -> (i64, i64) {
    let inv = fd(ONE, d);
    let ta = fm(cl(lo - o), inv);
    let tb = fm(cl(hi - o), inv);
    let t0 = if inv < 0 {
        tb
    } else {
        ta
    };
    let t1 = if inv < 0 {
        ta
    } else {
        tb
    };
    (imax(t0, tmin), imin(t1, tmax))
}

/// The slab test: true when the narrowed parameter interval stays nonempty
/// on all three axes.
pub open spec fn aabb_hit_spec(b: AABB, r: Ray, tmin: i64, tmax: i64) -> bool {
    let sx = slab_narrow(b.min.x, b.max.x, r.origin.x, r.direction.x, tmin, tmax);
    if sx.1 <= sx.0 {
        false
    } else {
        let sy = slab_narrow(b.min.y, b.max.y, r.origin.y, r.direction.y, sx.0, sx.1);
        if sy.1 <= sy.0 {
            false
        } else {
            let sz = slab_narrow(b.min.z, b.max.z, r.origin.z, r.direction.z, sy.0, sy.1);
            !(sz.1 <= sz.0)
        }
    }
}

/// The component-wise union of two boxes.
pub open spec fn aabb_union(a: AABB, b: AABB) -> AABB {
    AABB {
        min: Vec3 {
            x: imin(a.min.x, b.min.x),
            y: imin(a.min.y, b.min.y),
            z: imin(a.min.z, b.min.z),
        },
        max: Vec3 {
            x: imax(a.max.x, b.max.x),
            y: imax(a.max.y, b.max.y),
            z: imax(a.max.z, b.max.z),
        },
    }
}

/// The point lies between the box's corner coordinates on every axis.
pub open spec fn contains_point(b: AABB, p: Vec3) -> bool {
    &&& b.min.x <= p.x <= b.max.x
    &&& b.min.y <= p.y <= b.max.y
    &&& b.min.z <= p.z <= b.max.z
}

/// Box `inner` lies entirely between the corner coordinates of `outer`.
pub open spec fn box_subset(inner: AABB, outer: AABB) -> bool {
    &&& outer.min.x <= inner.min.x && inner.max.x <= outer.max.x
    &&& outer.min.y <= inner.min.y && inner.max.y <= outer.max.y
    &&& outer.min.z <= inner.min.z && inner.max.z <= outer.max.z
}

fn narrow_axis(lo: i64, hi: i64, o: i64, d: i64, tmin: i64, tmax: i64) -> (r: (i64, i64))
    ensures
        r == slab_narrow(lo, hi, o, d, tmin, tmax),
{
    let inv = fx_div(ONE, d);
    let ta = fx_mul(fx_sub(lo, o), inv);
    let tb = fx_mul(fx_sub(hi, o), inv);
    let t0 = if inv < 0 {
        tb
    } else {
        ta
    };
    let t1 = if inv < 0 {
        ta
    } else {
        tb
    };
    let nmin = if t0 > tmin {
        t0
    } else {
        tmin
    };
    let nmax = if t1 < tmax {
        t1
    } else {
        tmax
    };
    (nmin, nmax)
}

impl AABB {
    pub fn new(min: &Vec3, max: &Vec3) -> (r: AABB)
        ensures
            r == (AABB { min: *min, max: *max }),
    {
        AABB { min: *min, max: *max }
    }

    pub fn get_min(&self) -> (r: Vec3)
        ensures
            r == self.min,
    {
        self.min
    }

    pub fn get_max(&self) -> (r: Vec3)
        ensures
            r == self.max,
    {
        self.max
    }

    /// The slab test: does the ray pass between the box's corner planes
    /// somewhere in the parameter window `[tmin, tmax]`?
    pub fn hit(&self, r: &Ray, t_min: i64, t_max: i64) -> (res: bool)
        ensures
            res == aabb_hit_spec(*self, *r, t_min, t_max),
    {
        let sx = narrow_axis(self.min.x, self.max.x, r.origin.x, r.direction.x, t_min, t_max);
        if sx.1 <= sx.0 {
            return false;
        }
        let sy = narrow_axis(self.min.y, self.max.y, r.origin.y, r.direction.y, sx.0, sx.1);
        if sy.1 <= sy.0 {
            return false;
        }
        let sz = narrow_axis(self.min.z, self.max.z, r.origin.z, r.direction.z, sy.0, sy.1);
        !(sz.1 <= sz.0)
    }

    /// The smallest box holding both arguments.
    pub fn surrounding_box(box0: &AABB, box1: &AABB) -> (r: AABB)
        ensures
            r == aabb_union(*box0, *box1),
    {
        let min = Vec3 {
            x: if box0.min.x <= box1.min.x {
                box0.min.x
            } else {
                box1.min.x
            },
            y: if box0.min.y <= box1.min.y {
                box0.min.y
            } else {
                box1.min.y
            },
            z: if box0.min.z <= box1.min.z {
                box0.min.z
            } else {
                box1.min.z
            },
        };
        let max = Vec3 {
            x: if box0.max.x <= box1.max.x {
                box1.max.x
            } else {
                box0.max.x
            },
            y: if box0.max.y <= box1.max.y {
                box1.max.y
            } else {
                box0.max.y
            },
            z: if box0.max.z <= box1.max.z {
                box1.max.z
            } else {
                box0.max.z
            },
        };
        AABB { min, max }
    }
}

impl Default for AABB {
    /// The degenerate box at the origin.
    fn default() -> (r: AABB)
        ensures
            r == (AABB {
                min: Vec3 { x: 0i64, y: 0i64, z: 0i64 },
                max: Vec3 { x: 0i64, y: 0i64, z: 0i64 },
            }),
    {
        AABB { min: Vec3::zero(), max: Vec3::zero() }
    }
}

/// The surrounding box contains both of its arguments entirely: every point
/// within either argument lies within the union's corner bounds, and each
/// argument's box lies between the union's corners.
pub proof fn lemma_surrounding_box_contains(a: AABB, b: AABB, p: Vec3)
    ensures
        contains_point(a, p) || contains_point(b, p) ==> contains_point(aabb_union(a, b), p),
        box_subset(a, aabb_union(a, b)),
        box_subset(b, aabb_union(a, b)),
{
}

/// The line of a unit ray along the x axis passes through the open
/// interior of the box at the rational parameter `tn / td`, inside the
/// open window `(tmin, tmax)`.
pub open spec fn unit_x_crossing(b: AABB, r: Ray, tmin: i64, tmax: i64, tn: int, td: int) -> bool {
    &&& td >= 1
    &&& tmin * td < tn
    &&& tn < tmax * td
    &&& b.min.x * td < r.origin.x * td + tn
    &&& r.origin.x * td + tn < b.max.x * td
    &&& b.min.y < r.origin.y < b.max.y
    &&& b.min.z < r.origin.z < b.max.z
}

/// All components stay within half the saturated range, so coordinate
/// differences are exact.
pub open spec fn moderate(v: Vec3) -> bool {
    &&& -0x4000_0000_0000 <= v.x <= 0x4000_0000_0000
    &&& -0x4000_0000_0000 <= v.y <= 0x4000_0000_0000
    &&& -0x4000_0000_0000 <= v.z <= 0x4000_0000_0000
}

/// On a zero direction component the slab bound is the scaled coordinate
/// difference, which lands far beyond any moderate window.
proof fn lemma_zero_axis_bound(x: i64)
    ensures
        x <= -1 ==> fm(x, FX_MAX) <= -0x8000_0000,
        x >= 1 ==> fm(x, FX_MAX) >= 0x8000_0000,
        x == 0 ==> fm(x, FX_MAX) == 0,
{
    if x <= -1 {
        assert((x as int) * (FX_MAX as int) <= -(FX_MAX as int)) by (nonlinear_arith)
            requires
                x <= -1,
        ;
        crate::fixed::lemma_tzd_mono((x as int) * (FX_MAX as int), -(FX_MAX as int), ONE as int);
    } else if x >= 1 {
        assert((x as int) * (FX_MAX as int) >= FX_MAX as int) by (nonlinear_arith)
            requires
                x >= 1,
        ;
        crate::fixed::lemma_tzd_mono(FX_MAX as int, (x as int) * (FX_MAX as int), ONE as int);
    }
}

/// For a unit ray along the x axis, over a moderate scene and window and
/// away from slab boundaries on the still axes, the slab test answers
/// true exactly when the ray's parametric line passes through the box's
/// interior within the window.
pub proof fn lemma_aabb_hit_exact_for_axis_ray(b: AABB, r: Ray, tmin: i64, tmax: i64)
    requires
        r.direction == (Vec3 { x: ONE, y: 0i64, z: 0i64 }),
        moderate(b.min),
        moderate(b.max),
        moderate(r.origin),
        0 <= tmin,
        tmax <= 0x4000_0000,
        r.origin.y != b.min.y,
        r.origin.y != b.max.y,
        r.origin.z != b.min.z,
        r.origin.z != b.max.z,
    ensures
        aabb_hit_spec(b, r, tmin, tmax) <==> exists|tn: int, td: int|
            unit_x_crossing(b, r, tmin, tmax, tn, td),
{
    let ox = r.origin.x;
    let oy = r.origin.y;
    let oz = r.origin.z;
    assert(fd(ONE, ONE) == ONE) by {
        vstd::arithmetic::div_mod::lemma_div_multiples_vanish(ONE as int, ONE as int);
    }
    crate::fixed::lemma_fmul_one(cl(b.min.x - ox) as int);
    crate::fixed::lemma_fmul_one(cl(b.max.x - ox) as int);
    assert(fd(ONE, 0) == FX_MAX);
    lemma_zero_axis_bound(cl(b.min.y - oy));
    lemma_zero_axis_bound(cl(b.max.y - oy));
    lemma_zero_axis_bound(cl(b.min.z - oz));
    lemma_zero_axis_bound(cl(b.max.z - oz));
    let inside = b.min.y < oy < b.max.y && b.min.z < oz < b.max.z;
    let lo = b.min.x - ox;
    let hi = b.max.x - ox;
    if !inside {
        assert(!aabb_hit_spec(b, r, tmin, tmax));
        assert(!(exists|tn: int, td: int| unit_x_crossing(b, r, tmin, tmax, tn, td)));
    } else {
        let low = if tmin >= cl(lo) {
            tmin as int
        } else {
            lo
        };
        let high = if tmax <= cl(hi) {
            tmax as int
        } else {
            hi
        };
        assert(aabb_hit_spec(b, r, tmin, tmax) <==> low < high);
        if low < high {
            assert(tmin * 2 < low + high);
            assert(low + high < tmax * 2);
            assert(b.min.x * 2 < r.origin.x * 2 + (low + high));
            assert(r.origin.x * 2 + (low + high) < b.max.x * 2);
            assert(unit_x_crossing(b, r, tmin, tmax, low + high, 2));
        }
        if exists|tn: int, td: int| unit_x_crossing(b, r, tmin, tmax, tn, td) {
            let (tn, td) = choose|tn: int, td: int| unit_x_crossing(b, r, tmin, tmax, tn, td);
            assert(low < high) by (nonlinear_arith)
                requires
                    td >= 1,
                    tmin * td < tn,
                    tn < tmax * td,
                    b.min.x * td < r.origin.x * td + tn,
                    r.origin.x * td + tn < b.max.x * td,
                    lo == b.min.x - r.origin.x,
                    hi == b.max.x - r.origin.x,
                    low == if tmin >= lo { tmin as int } else { lo },
                    high == if tmax <= hi { tmax as int } else { hi },
            ;
        }
    }
}

/// Widening one slab keeps every parameter the narrowed window held.
proof fn lemma_slab_narrow_mono(
    lo_o: i64, lo_i: i64, hi_i: i64, hi_o: i64,
    o: i64, d: i64,
    tmin_o: i64, tmin_i: i64, tmax_i: i64, tmax_o: i64,
)
    requires
        lo_o <= lo_i,
        hi_i <= hi_o,
        tmin_o <= tmin_i,
        tmax_i <= tmax_o,
    ensures
        slab_narrow(lo_o, hi_o, o, d, tmin_o, tmax_o).0 <= slab_narrow(lo_i, hi_i, o, d, tmin_i, tmax_i).0,
        slab_narrow(lo_i, hi_i, o, d, tmin_i, tmax_i).1 <= slab_narrow(lo_o, hi_o, o, d, tmin_o, tmax_o).1,
{
    let inv = fd(ONE, d);
    lemma_fm_mono(cl(lo_o - o), cl(lo_i - o), inv);
    lemma_fm_mono(cl(hi_i - o), cl(hi_o - o), inv);
}

/// The slab test is monotone in the box: a ray that hits a box also hits
/// every box containing it, over the same parameter window.
pub proof fn lemma_aabb_hit_mono(inner: AABB, outer: AABB, r: Ray, tmin: i64, tmax: i64)
    requires
        box_subset(inner, outer),
        aabb_hit_spec(inner, r, tmin, tmax),
    ensures
        aabb_hit_spec(outer, r, tmin, tmax),
{
    let sxi = slab_narrow(inner.min.x, inner.max.x, r.origin.x, r.direction.x, tmin, tmax);
    let sxo = slab_narrow(outer.min.x, outer.max.x, r.origin.x, r.direction.x, tmin, tmax);
    lemma_slab_narrow_mono(outer.min.x, inner.min.x, inner.max.x, outer.max.x,
        r.origin.x, r.direction.x, tmin, tmin, tmax, tmax);
    let syi = slab_narrow(inner.min.y, inner.max.y, r.origin.y, r.direction.y, sxi.0, sxi.1);
    let syo = slab_narrow(outer.min.y, outer.max.y, r.origin.y, r.direction.y, sxo.0, sxo.1);
    lemma_slab_narrow_mono(outer.min.y, inner.min.y, inner.max.y, outer.max.y,
        r.origin.y, r.direction.y, sxo.0, sxi.0, sxi.1, sxo.1);
    let szi = slab_narrow(inner.min.z, inner.max.z, r.origin.z, r.direction.z, syi.0, syi.1);
    let szo = slab_narrow(outer.min.z, outer.max.z, r.origin.z, r.direction.z, syo.0, syo.1);
    lemma_slab_narrow_mono(outer.min.z, inner.min.z, inner.max.z, outer.max.z,
        r.origin.z, r.direction.z, syo.0, syi.0, syi.1, syo.1);
}

} // verus!
