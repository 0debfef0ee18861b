//! The dielectric (glass) material.

use vstd::prelude::*;
use crate::fixed::{ONE, HALF, cl, fm, fd, fsq, fx_mul, fx_div, fx_sub, fx_sqrt,
    is_sqrt, sqrt_floor, lemma_sqrt_exists, lemma_sqrt_unique};
use crate::math::vec3::{Vec3, ok3, v_sub, v_scale, v_reflect, v_norm, v_dot, v_neg, v_length};
use crate::math::ray::{Ray, ok_ray};
use crate::math::light::{schlick, schlick_spec};
use crate::geometry::HitRecord;
use crate::rng::{Rng64, rng_next, unit_of};
use crate::material::Scatter;

verus! {

/// A clear refractive surface.
#[derive(Clone, Copy, PartialEq, Eq, Structural, Debug)]
pub struct DielectricMaterial {
    pub refractive_index: i64,
}

/// Refraction by Snell's law, on the normalized incoming direction:
/// `disc = 1 - ratio^2 * (1 - dt^2)` with `dt = dot(unit(v), n)`; a
/// nonpositive discriminant reports total internal reflection.
pub open spec fn refract_spec(v: Vec3, n: Vec3, ni_over_nt: i64) -> Option<Vec3> {
    let uv = v_norm(v);
    let dt = v_dot(uv, n);
    let disc = cl(ONE - fm(fm(ni_over_nt, ni_over_nt), cl(ONE - fm(dt, dt))));
    if disc > 0 {
        Some(v_sub(v_scale(v_sub(uv, v_scale(n, dt)), ni_over_nt), v_scale(n, fsq(disc))))
    } else {
        None
    }
}

/// Refraction by Snell's law; `None` reports total internal reflection.
pub fn refract(v: &Vec3, n: &Vec3, ni_over_nt: i64) -> (r: Option<Vec3>)
    requires
        ok3(*v),
        ok3(*n),
    ensures
        r == refract_spec(*v, *n, ni_over_nt),
{
    let uv = v.normalized();
    let dt = uv.dot(n);
    let disc = fx_sub(ONE, fx_mul(fx_mul(ni_over_nt, ni_over_nt), fx_sub(ONE, fx_mul(dt, dt))));
    if disc > 0 {
        Some(uv.sub(&n.scale(dt)).scale(ni_over_nt).sub(&n.scale(fx_sqrt(disc))))
    } else {
        None
    }
}

/// The glass scatter decision: pick the outward normal and the index ratio
/// from the travel direction, attempt refraction, and otherwise, or with
/// the Schlick probability, reflect.  Glass absorbs nothing, so the
/// attenuation is white and the surface always scatters.
pub open spec fn dielectric_scatter_spec(ref_idx: i64, r: Ray, rec: HitRecord, state: u64) -> (
    Scatter,
    u64,
) {
    let reflected = v_reflect(r.direction, rec.normal);
    let d = v_dot(r.direction, rec.normal);
    let len = v_length(r.direction);
    let outward = if d > 0 {
        v_neg(rec.normal)
    } else {
        rec.normal
    };
    let ni = if d > 0 {
        ref_idx
    } else {
        fd(ONE, ref_idx)
    };
    let cosine = if d > 0 {
        let tmp = fd(d, len);
        fsq(cl(ONE - fm(fm(ref_idx, ref_idx), cl(ONE - fm(tmp, tmp)))))
    } else {
        fd(cl(-d), len)
    };
    let refr = refract_spec(r.direction, outward, ni);
    let reflect_prob = match refr {
        Some(_) => schlick_spec(cosine, ref_idx),
        None => ONE,
    };
    let s1 = rng_next(state);
    let dir = if unit_of(s1) < reflect_prob {
        reflected
    } else {
        match refr {
            Some(x) => x,
            None => reflected,
        }
    };
    (
        Scatter {
            attenuation: Vec3 { x: ONE, y: ONE, z: ONE },
            scattered: Ray { origin: rec.position, direction: dir, time: 0i64 },
        },
        s1,
    )
}

impl DielectricMaterial {
    pub fn create(refractive_index: i64) -> (r: DielectricMaterial)
        ensures
            r == (DielectricMaterial { refractive_index }),
    {
        DielectricMaterial { refractive_index }
    }

    /// Scatter through or off the surface; glass never absorbs.
    pub fn scatter(&self, r: &Ray, rec: &HitRecord, rng: &mut Rng64) -> (res: Option<Scatter>)
        requires
            ok_ray(*r),
            ok3(rec.normal),
        ensures
            res == Some(
                dielectric_scatter_spec(self.refractive_index, *r, *rec, old(rng).state).0,
            ),
            final(rng).state == dielectric_scatter_spec(
                self.refractive_index,
                *r,
                *rec,
                old(rng).state,
            ).1,
    {
        let ri = self.refractive_index;
        let reflected = r.direction.reflect(&rec.normal);
        let d = r.direction.dot(&rec.normal);
        let len = r.direction.length();
        let outward: Vec3;
        let ni: i64;
        let cosine: i64;
        if d > 0 {
            outward = rec.normal.neg();
            ni = ri;
            let tmp = fx_div(d, len);
            cosine = fx_sqrt(fx_sub(ONE, fx_mul(fx_mul(ri, ri), fx_sub(ONE, fx_mul(tmp, tmp)))));
        } else {
            outward = rec.normal;
            ni = fx_div(ONE, ri);
            cosine = fx_div(fx_sub(0, d), len);
        }
        let refr = refract(&r.direction, &outward, ni);
        let reflect_prob = match &refr {
            Some(_) => schlick(cosine, ri),
            None => ONE,
        };
        let u = rng.next_unit();
        let dir = if u < reflect_prob {
            reflected
        } else {
            match refr {
                Some(x) => x,
                None => reflected,
            }
        };
        Some(Scatter {
            attenuation: Vec3::one(),
            scattered: Ray { origin: rec.position, direction: dir, time: 0 },
        })
    }
}

/// At an index ratio of exactly one, Snell's law never reports total
/// internal reflection, except where the cosine is so close to grazing
/// that its scalar square truncates to zero.
pub proof fn lemma_refract_some_at_unity(v: Vec3, n: Vec3)
    ensures
        fm(v_dot(v_norm(v), n), v_dot(v_norm(v), n)) > 0 ==> refract_spec(v, n, ONE).is_some(),
{
    let dt = v_dot(v_norm(v), n);
    let sq = fm(dt, dt);
    assert((dt as int) * (dt as int) >= 0) by (nonlinear_arith);
    if sq > 0 {
        assert(fm(ONE, cl(ONE - sq)) == cl(ONE - sq)) by {
            crate::fixed::lemma_fmul_one(cl(ONE - sq) as int);
        }
        assert(fm(ONE, ONE) == ONE) by {
            crate::fixed::lemma_fmul_one(ONE as int);
        }
    }
}

/// A head-on ray through a surface with index ratio one passes without
/// bending: the refracted direction is exactly the normalized incoming
/// direction.
pub proof fn lemma_refract_head_on_unity(v: Vec3, n: Vec3)
    requires
        v_dot(v_norm(v), n) == -ONE,
        -ONE <= n.x <= ONE,
        -ONE <= n.y <= ONE,
        -ONE <= n.z <= ONE,
        -ONE <= v_norm(v).x <= ONE,
        -ONE <= v_norm(v).y <= ONE,
        -ONE <= v_norm(v).z <= ONE,
    ensures
        refract_spec(v, n, ONE) == Some(v_norm(v)),
{
    let uv = v_norm(v);
    let dt = v_dot(uv, n);
    crate::fixed::lemma_fmul_one(ONE as int);
    assert(fm(dt, dt) == ONE) by {
        assert((-65536) * (-65536) == 0x1_0000_0000) by (nonlinear_arith);
        assert(0x1_0000_0000int / 65536int == 65536int) by (nonlinear_arith);
    }
    assert(fm(ONE, cl(ONE - fm(dt, dt))) == 0) by {
        crate::fixed::lemma_fmul_one(0);
    }
    let disc = cl(ONE - fm(fm(ONE, ONE), cl(ONE - fm(dt, dt))));
    assert(disc == ONE);
    assert(fsq(ONE) == ONE) by {
        lemma_sqrt_exists(0x1_0000_0000int);
        assert(is_sqrt(0x1_0000_0000int, 65536int)) by (nonlinear_arith);
        lemma_sqrt_unique(0x1_0000_0000int, sqrt_floor_at(), 65536int);
    }
    assert(v_scale(n, dt) == v_neg(n)) by {
        lemma_scale_neg_one(n.x);
        lemma_scale_neg_one(n.y);
        lemma_scale_neg_one(n.z);
        assert(dt == -65536i64);
    }
    assert(v_scale(n, ONE) == n) by {
        crate::fixed::lemma_fmul_one(n.x as int);
        crate::fixed::lemma_fmul_one(n.y as int);
        crate::fixed::lemma_fmul_one(n.z as int);
    }
    let mid = v_sub(uv, v_scale(n, dt));
    assert(v_scale(mid, ONE) == mid) by {
        crate::fixed::lemma_fmul_one(mid.x as int);
        crate::fixed::lemma_fmul_one(mid.y as int);
        crate::fixed::lemma_fmul_one(mid.z as int);
    }
}

/// At an index ratio of one, the refraction root matches the cosine's
/// magnitude to within one raw step, for any cosine of magnitude above
/// one half.  The refracted direction `uv - n*dt - n*root` therefore
/// deviates from the normalized incoming direction by at most one raw
/// step along the normal: light passes essentially without bending.
pub proof fn lemma_unity_refraction_root_tight(dt: i64)
    requires
        (HALF as int) < (if dt >= 0 { dt as int } else { -(dt as int) }),
        (if dt >= 0 { dt as int } else { -(dt as int) }) <= 2 * (ONE as int),
    ensures
        (if dt >= 0 { dt as int } else { -(dt as int) }) - 1 <= fsq(fm(dt, dt)) as int,
        (fsq(fm(dt, dt)) as int) <= (if dt >= 0 { dt as int } else { -(dt as int) }),
{
    let m: int = if dt >= 0 { dt as int } else { -(dt as int) };
    if dt >= 0 {
        assert((dt as int) * (dt as int) == m * m);
    } else {
        assert((dt as int) * (dt as int) == m * m) by (nonlinear_arith)
            requires
                m == -(dt as int),
        ;
    }
    assert(0 < m * m <= 0x4_0000_0000) by (nonlinear_arith)
        requires
            32768 < m <= 131072,
    ;
    let q = (m * m) / 65536;
    vstd::arithmetic::div_mod::lemma_fundamental_div_mod(m * m, 65536);
    vstd::arithmetic::div_mod::lemma_div_pos_is_pos(m * m, 65536);
    assert(q > 0) by {
        assert(65536 <= m * m) by (nonlinear_arith)
            requires
                32768 < m,
        ;
        vstd::arithmetic::div_mod::lemma_div_is_ordered(65536, m * m, 65536);
    }
    assert(q <= 0x4_0000) by {
        vstd::arithmetic::div_mod::lemma_div_is_ordered(m * m, 0x4_0000_0000, 65536);
    }
    assert(fm(dt, dt) == q);
    let nn = q * 65536;
    lemma_sqrt_exists(nn);
    let s = sqrt_floor(nn);
    assert(0 <= s < 0x1_0000_0000) by (nonlinear_arith)
        requires
            is_sqrt(nn, s),
            nn <= 0x4_0000 * 65536,
    ;
    assert(fsq(fm(dt, dt)) as int == s);
    assert(m * m - 65536 < nn <= m * m) by (nonlinear_arith)
        requires
            m * m == q * 65536 + (m * m) % 65536,
            0 <= (m * m) % 65536 < 65536,
            nn == q * 65536,
    ;
    assert(s <= m) by (nonlinear_arith)
        requires
            is_sqrt(nn, s),
            nn <= m * m,
            0 < m,
    ;
    assert(m - 1 <= s) by (nonlinear_arith)
        requires
            is_sqrt(nn, s),
            m * m - 65536 < nn,
            32768 < m,
    ;
}

/// Multiplying by minus one negates a representable scalar.
proof fn lemma_scale_neg_one(a: i64)
    requires
        -ONE <= a <= ONE,
    ensures
        fm(a, -65536i64) == cl(-(a as int)),
{
    crate::fixed::lemma_fmul_one(-(a as int));
    assert((a as int) * (-65536) == (-(a as int)) * 65536) by (nonlinear_arith);
}

spec fn sqrt_floor_at() -> int {
    crate::fixed::sqrt_floor(0x1_0000_0000int)
}

/// Head-on at an index ratio of one, the Schlick reflectance is exactly
/// zero, so the scatter decision always refracts.
pub proof fn lemma_schlick_head_on_unity()
    ensures
        schlick_spec(ONE, ONE) == 0,
{
    crate::fixed::lemma_fmul_one(0);
}

} // verus!
