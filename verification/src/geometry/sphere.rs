//! The static sphere primitive.

use vstd::prelude::*;
use crate::fixed::{ONE, cl, fm, fd, fsq, fx_mul, fx_sub, fx_add, fx_div, fx_sqrt,
    lemma_fd_mono_num, lemma_fsq_nonneg};
use crate::math::vec3::{Vec3, ok3, v_sub, v_add, v_dot, v_divs};
use crate::math::ray::{Ray, ray_at, ok_ray};
use crate::geometry::HitRecord;
use crate::geometry::aabb::AABB;

verus! {

/// A sphere; `material` names an entry of the scene's material arena.
#[derive(Clone, Copy, PartialEq, Eq, Structural, Debug)]
pub struct Sphere {
    pub center: Vec3,
    pub radius: i64,
    pub material: usize,
}

/// The record a sphere at `center` with `radius` reports for a hit at
/// parameter `sol`: the surface point, and the outward surface direction
/// `(position - center) / radius` (not yet oriented against the ray).
pub open spec fn sphere_record(center: Vec3, radius: i64, material: usize, r: Ray, sol: i64) -> HitRecord {
    HitRecord {
        t: sol,
        position: ray_at(r, sol),
        normal: v_divs(v_sub(ray_at(r, sol), center), radius),
        material,
    }
}

/// The quadratic solve for a sphere at `center`: reject a nonpositive
/// discriminant, prefer the smaller root if it lies strictly inside
/// `(tmin, tmax)`, otherwise try the larger root, otherwise report no hit.
pub open spec fn sphere_hit_spec(
    center: Vec3,
    radius: i64,
    material: usize,
    r: Ray,
    tmin: i64,
    tmax: i64,
) -> Option<HitRecord> {
    let oc = v_sub(r.origin, center);
    let a = v_dot(r.direction, r.direction);
    let b = v_dot(oc, r.direction);
    let c = cl(v_dot(oc, oc) - fm(radius, radius));
    let disc = cl(fm(b, b) - fm(a, c));
    if disc > 0 {
        let sq = fsq(disc);
        let nb = cl(-b);
        let sol1 = fd(cl(nb - sq), a);
        if tmin < sol1 && sol1 < tmax {
            Some(sphere_record(center, radius, material, r, sol1))
        } else {
            let sol2 = fd(cl(nb + sq), a);
            if tmin < sol2 && sol2 < tmax {
                Some(sphere_record(center, radius, material, r, sol2))
            } else {
                None
            }
        }
    } else {
        None
    }
}

/// The axis-aligned box `center ± radius`.
pub open spec fn sphere_box(center: Vec3, radius: i64) -> AABB {
    let rv = Vec3 { x: radius, y: radius, z: radius };
    AABB { min: v_sub(center, rv), max: v_add(center, rv) }
}

/// Any record the quadratic solve reports carries vectors in the scalar
/// range (they are built from saturating operations) and the material
/// index it was given.
#[verifier::rlimit(100)]
pub proof fn lemma_sphere_hit_ok(
    center: Vec3,
    radius: i64,
    material: usize,
    r: Ray,
    tmin: i64,
    tmax: i64,
)
    ensures
        match sphere_hit_spec(center, radius, material, r, tmin, tmax) {
            Some(rec) => ok3(rec.position) && ok3(rec.normal) && rec.material == material,
            None => true,
        },
{
}

/// Narrowing the far end of the window keeps a report below it and
/// removes any other: the sphere reports over `(tmin, w)` exactly what it
/// reports over `(tmin, tmax)` when that lies below `w`, and nothing
/// otherwise.  This is what lets the exhaustive scan shrink its window as
/// it goes without changing the closest hit.
#[verifier::rlimit(100)]
pub proof fn lemma_sphere_window(
    center: Vec3,
    radius: i64,
    material: usize,
    r: Ray,
    tmin: i64,
    w: i64,
    tmax: i64,
)
    requires
        w <= tmax,
    ensures
        match sphere_hit_spec(center, radius, material, r, tmin, tmax) {
            Some(rec) => {
                &&& tmin < rec.t < tmax
                &&& sphere_hit_spec(center, radius, material, r, tmin, w) == (if rec.t < w {
                    Some(rec)
                } else {
                    None::<HitRecord>
                })
            },
            None => sphere_hit_spec(center, radius, material, r, tmin, w).is_none(),
        },
{
    let d = r.direction;
    assert((d.x as int) * (d.x as int) + (d.y as int) * (d.y as int) + (d.z as int) * (
    d.z as int) >= 0) by (nonlinear_arith);
    let sum = (d.x as int) * (d.x as int) + (d.y as int) * (d.y as int) + (d.z as int) * (
    d.z as int);
    let a = v_dot(d, d);
    assert(a >= 0) by {
        vstd::arithmetic::div_mod::lemma_div_pos_is_pos(sum, ONE as int);
    }
    let oc = v_sub(r.origin, center);
    let b = v_dot(oc, d);
    let c = cl(v_dot(oc, oc) - fm(radius, radius));
    let disc = cl(fm(b, b) - fm(a, c));
    if disc > 0 {
        lemma_fsq_nonneg(disc);
        let sq = fsq(disc);
        let nb = cl(-b);
        lemma_fd_mono_num(cl(nb - sq), cl(nb + sq), a);
    }
}

/// Run the quadratic solve; shared by the static and the moving sphere.
pub(crate) fn solve_sphere(
    center: &Vec3,
    radius: i64,
    material: usize,
    r: &Ray,
    t_min: i64,
    t_max: i64,
) -> (res: Option<HitRecord>)
    requires
        ok_ray(*r),
        ok3(*center),
    ensures
        res == sphere_hit_spec(*center, radius, material, *r, t_min, t_max),
{
    let oc = r.origin.sub(center);
    let a = r.direction.dot(&r.direction);
    let b = oc.dot(&r.direction);
    let c = fx_sub(oc.dot(&oc), fx_mul(radius, radius));
    let disc = fx_sub(fx_mul(b, b), fx_mul(a, c));
    if disc > 0 {
        let sq = fx_sqrt(disc);
        let nb = fx_sub(0, b);
        let sol1 = fx_div(fx_sub(nb, sq), a);
        if t_min < sol1 && sol1 < t_max {
            let position = r.point_at_parameter(sol1);
            return Some(HitRecord {
                t: sol1,
                position,
                normal: position.sub(center).div_scalar(radius),
                material,
            });
        }
        let sol2 = fx_div(fx_add(nb, sq), a);
        if t_min < sol2 && sol2 < t_max {
            let position = r.point_at_parameter(sol2);
            return Some(HitRecord {
                t: sol2,
                position,
                normal: position.sub(center).div_scalar(radius),
                material,
            });
        }
        None
    } else {
        None
    }
}

impl Sphere {
    pub fn get_center(&self) -> (r: Vec3)
        ensures
            r == self.center,
    {
        self.center
    }

    pub fn get_radius(&self) -> (r: i64)
        ensures
            r == self.radius,
    {
        self.radius
    }

    /// Intersect the ray with the sphere over the open window
    /// `(t_min, t_max)`.
    pub fn hit(&self, r: &Ray, t_min: i64, t_max: i64) -> (res: Option<HitRecord>)
        requires
            ok_ray(*r),
            ok3(self.center),
        ensures
            res == sphere_hit_spec(self.center, self.radius, self.material, *r, t_min, t_max),
    {
        solve_sphere(&self.center, self.radius, self.material, r, t_min, t_max)
    }

    /// The sphere's bounding box; a sphere is always bounded.
    pub fn bounding_box(&self, _t0: i64, _t1: i64) -> (res: Option<AABB>)
        ensures
            res == Some(sphere_box(self.center, self.radius)),
    {
        let rv = Vec3 { x: self.radius, y: self.radius, z: self.radius };
        Some(AABB { min: self.center.sub(&rv), max: self.center.add(&rv) })
    }
}

} // verus!
