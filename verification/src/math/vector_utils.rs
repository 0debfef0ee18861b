//! Vector utilities: gamma correction, rejection sampling of the unit
//! sphere and the unit disk, and the direction-space refraction formula.

use vstd::prelude::*;
use crate::fixed::{ONE, cl, fm, fsq, fx_mul, fx_sub, fx_add, fx_sqrt};
use crate::math::vec3::{Vec3, ok3, v_dot, v_sub, v_scale, v_gamma};
use crate::rng::{Rng64, rng_next, sym_of};

verus! {

/// How many draws rejection sampling may spend before it settles for the
/// center of the region.  The odds of exhausting them are astronomically
/// small.
pub const SAMPLE_FUEL: u32 = 64;

/// One candidate for a point in the unit sphere: three symmetric draws.
pub open spec fn sphere_candidate(state: u64) -> (Vec3, u64) {
    let s1 = rng_next(state);
    let s2 = rng_next(s1);
    let s3 = rng_next(s2);
    (Vec3 { x: sym_of(s1) as i64, y: sym_of(s2) as i64, z: sym_of(s3) as i64 }, s3)
}

/// Rejection sampling of the unit sphere: draw candidates with components
/// in `[-ONE, ONE]` and resample while the squared length reaches one;
/// with the draws exhausted, the center.  The result always lies strictly
/// inside the sphere.
pub open spec fn unit_sphere_from(state: u64, fuel: nat) -> (Vec3, u64)
    decreases fuel,
{
    let c = sphere_candidate(state);
    if v_dot(c.0, c.0) < ONE {
        c
    } else if fuel == 0 {
        (Vec3 { x: 0i64, y: 0i64, z: 0i64 }, c.1)
    } else {
        unit_sphere_from(c.1, (fuel - 1) as nat)
    }
}

/// One candidate for a point in the unit disk: two symmetric draws, `z`
/// fixed at zero.
pub open spec fn disk_candidate(state: u64) -> (Vec3, u64) {
    let s1 = rng_next(state);
    let s2 = rng_next(s1);
    (Vec3 { x: sym_of(s1) as i64, y: sym_of(s2) as i64, z: 0i64 }, s2)
}

/// Rejection sampling of the unit disk; with the draws exhausted, the
/// center.  The result always lies strictly inside the disk, with `z`
/// zero.
pub open spec fn unit_disk_from(state: u64, fuel: nat) -> (Vec3, u64)
    decreases fuel,
{
    let c = disk_candidate(state);
    if v_dot(c.0, c.0) < ONE {
        c
    } else if fuel == 0 {
        (Vec3 { x: 0i64, y: 0i64, z: 0i64 }, c.1)
    } else {
        unit_disk_from(c.1, (fuel - 1) as nat)
    }
}

fn unit_sphere_go(rng: &mut Rng64, fuel: u32) -> (r: Vec3)
    ensures
        r == unit_sphere_from(old(rng).state, fuel as nat).0,
        final(rng).state == unit_sphere_from(old(rng).state, fuel as nat).1,
        ok3(r),
        v_dot(r, r) < ONE,
    decreases fuel,
{
    let x = rng.next_sym();
    let y = rng.next_sym();
    let z = rng.next_sym();
    let p = Vec3 { x, y, z };
    if p.dot(&p) < ONE {
        p
    } else if fuel == 0 {
        let center = Vec3::zero();
        proof {
            vstd::arithmetic::div_mod::lemma_div_of0(ONE as int);
        }
        center
    } else {
        unit_sphere_go(rng, fuel - 1)
    }
}

/// A point drawn from strictly inside the unit sphere by rejection
/// sampling.
pub fn random_in_unit_sphere(rng: &mut Rng64) -> (r: Vec3)
    ensures
        r == unit_sphere_from(old(rng).state, SAMPLE_FUEL as nat).0,
        final(rng).state == unit_sphere_from(old(rng).state, SAMPLE_FUEL as nat).1,
        ok3(r),
        v_dot(r, r) < ONE,
{
    unit_sphere_go(rng, SAMPLE_FUEL)
}

fn unit_disk_go(rng: &mut Rng64, fuel: u32) -> (r: Vec3)
    ensures
        r == unit_disk_from(old(rng).state, fuel as nat).0,
        final(rng).state == unit_disk_from(old(rng).state, fuel as nat).1,
        ok3(r),
        v_dot(r, r) < ONE,
        r.z == 0,
    decreases fuel,
{
    let x = rng.next_sym();
    let y = rng.next_sym();
    let p = Vec3 { x, y, z: 0 };
    if p.dot(&p) < ONE {
        p
    } else if fuel == 0 {
        let center = Vec3::zero();
        proof {
            vstd::arithmetic::div_mod::lemma_div_of0(ONE as int);
        }
        center
    } else {
        unit_disk_go(rng, fuel - 1)
    }
}

/// A point drawn from strictly inside the unit disk by rejection
/// sampling.
pub fn random_in_unit_disk(rng: &mut Rng64) -> (r: Vec3)
    ensures
        r == unit_disk_from(old(rng).state, SAMPLE_FUEL as nat).0,
        final(rng).state == unit_disk_from(old(rng).state, SAMPLE_FUEL as nat).1,
        ok3(r),
        v_dot(r, r) < ONE,
        r.z == 0,
{
    unit_disk_go(rng, SAMPLE_FUEL)
}

/// The square-root tone curve applied to each color channel.
pub fn gamma_color(v: &Vec3) -> (r: Vec3)
    ensures
        r == v_gamma(*v),
{
    Vec3 { x: fx_sqrt(v.x), y: fx_sqrt(v.y), z: fx_sqrt(v.z) }
}

/// Refraction of the unnormalized direction `v` at a surface with normal
/// `n`: `k = 1 - n_ratio^2 * (1 - (n . v)^2)`; a negative `k` reports total
/// internal reflection.
pub open spec fn refract_dir_spec(v: Vec3, n: Vec3, ni_over_nt: i64) -> Option<Vec3> {
    let n_dot_i = v_dot(n, v);
    let k = cl(ONE - fm(fm(ni_over_nt, ni_over_nt), cl(ONE - fm(n_dot_i, n_dot_i))));
    if k < 0 {
        None
    } else {
        Some(v_sub(v_scale(v, ni_over_nt), v_scale(n, cl(fm(ni_over_nt, n_dot_i) + fsq(k)))))
    }
}

/// Refraction of the direction `v` at a surface with normal `n`.
pub fn refract(v: &Vec3, n: &Vec3, ni_over_nt: i64) -> (r: Option<Vec3>)
    requires
        ok3(*v),
        ok3(*n),
    ensures
        r == refract_dir_spec(*v, *n, ni_over_nt),
{
    let n_dot_i = n.dot(v);
    let k = fx_sub(ONE, fx_mul(fx_mul(ni_over_nt, ni_over_nt), fx_sub(ONE, fx_mul(n_dot_i, n_dot_i))));
    if k < 0 {
        None
    } else {
        Some(v.scale(ni_over_nt).sub(&n.scale(fx_add(fx_mul(ni_over_nt, n_dot_i), fx_sqrt(k)))))
    }
}

} // verus!
