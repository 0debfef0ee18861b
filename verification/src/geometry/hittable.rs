//! The closed set of primitives a ray can intersect, dispatched by a
//! single match.

use vstd::prelude::*;
use crate::math::vec3::{ok3, v_axis};
use crate::math::ray::{Ray, ok_ray};
use crate::geometry::HitRecord;
use crate::geometry::aabb::AABB;
use crate::geometry::sphere::{Sphere, sphere_hit_spec, sphere_box};
use crate::geometry::movable_sphere::{MovableSphere, msphere_hit_spec, msphere_box};

verus! {

/// Anything a ray can intersect.
#[derive(Clone, Copy, PartialEq, Eq, Structural, Debug)]
pub enum Hittable {
    Sphere(Sphere),
    Movable(MovableSphere),
}

/// The primitive's vectors are in the saturated scalar range.
pub open spec fn prim_ok(h: Hittable) -> bool {
    match h {
        Hittable::Sphere(s) => ok3(s.center),
        Hittable::Movable(m) => ok3(m.center0) && ok3(m.center1),
    }
}

/// The material arena entry the primitive shades with.
pub open spec fn prim_material(h: Hittable) -> usize {
    match h {
        Hittable::Sphere(s) => s.material,
        Hittable::Movable(m) => m.material,
    }
}

/// The record the primitive reports over the open window `(tmin, tmax)`.
pub open spec fn prim_hit_spec(h: Hittable, r: Ray, tmin: i64, tmax: i64) -> Option<HitRecord> {
    match h {
        Hittable::Sphere(s) => sphere_hit_spec(s.center, s.radius, s.material, r, tmin, tmax),
        Hittable::Movable(m) => msphere_hit_spec(m, r, tmin, tmax),
    }
}

/// The primitive's bounding box over the time interval `[t0, t1]`; both
/// primitive kinds are always bounded.
pub open spec fn prim_box(h: Hittable, t0: i64, t1: i64) -> AABB {
    match h {
        Hittable::Sphere(s) => sphere_box(s.center, s.radius),
        Hittable::Movable(m) => msphere_box(m, t0, t1),
    }
}

/// The coordinate the hierarchy builder sorts by: the box's minimum
/// coordinate on the chosen axis, with the box taken at time zero.
pub open spec fn prim_key(h: Hittable, axis: int) -> i64 {
    v_axis(prim_box(h, 0, 0).min, axis)
}

/// Any record a primitive reports carries vectors in the scalar range
/// and the primitive's own material index.
pub proof fn lemma_prim_hit_ok(h: Hittable, r: Ray, tmin: i64, tmax: i64)
    ensures
        match prim_hit_spec(h, r, tmin, tmax) {
            Some(rec) => ok3(rec.position) && ok3(rec.normal) && rec.material == prim_material(h),
            None => true,
        },
{
    match h {
        Hittable::Sphere(s) => {
            crate::geometry::sphere::lemma_sphere_hit_ok(
                s.center,
                s.radius,
                s.material,
                r,
                tmin,
                tmax,
            );
        },
        Hittable::Movable(m) => {
            crate::geometry::sphere::lemma_sphere_hit_ok(
                crate::geometry::movable_sphere::msphere_center(m, r.time),
                m.radius,
                m.material,
                r,
                tmin,
                tmax,
            );
        },
    }
}

/// Narrowing the far end of the window keeps a report below it and
/// removes any other, for either primitive kind.
pub proof fn lemma_prim_window(h: Hittable, r: Ray, tmin: i64, w: i64, tmax: i64)
    requires
        w <= tmax,
    ensures
        match prim_hit_spec(h, r, tmin, tmax) {
            Some(rec) => {
                &&& tmin < rec.t < tmax
                &&& prim_hit_spec(h, r, tmin, w) == (if rec.t < w {
                    Some(rec)
                } else {
                    None::<HitRecord>
                })
            },
            None => prim_hit_spec(h, r, tmin, w).is_none(),
        },
{
    match h {
        Hittable::Sphere(s) => {
            crate::geometry::sphere::lemma_sphere_window(
                s.center,
                s.radius,
                s.material,
                r,
                tmin,
                w,
                tmax,
            );
        },
        Hittable::Movable(m) => {
            crate::geometry::sphere::lemma_sphere_window(
                crate::geometry::movable_sphere::msphere_center(m, r.time),
                m.radius,
                m.material,
                r,
                tmin,
                w,
                tmax,
            );
        },
    }
}

impl Hittable {
    /// Intersect the ray with the primitive over the open window
    /// `(t_min, t_max)`.
    pub fn hit(&self, r: &Ray, t_min: i64, t_max: i64) -> (res: Option<HitRecord>)
        requires
            ok_ray(*r),
            prim_ok(*self),
        ensures
            res == prim_hit_spec(*self, *r, t_min, t_max),
    {
        match self {
            Hittable::Sphere(s) => s.hit(r, t_min, t_max),
            Hittable::Movable(m) => m.hit(r, t_min, t_max),
        }
    }

    /// The primitive's bounding box over `[t0, t1]`.
    pub fn bounding_box(&self, t0: i64, t1: i64) -> (res: Option<AABB>)
        requires
            prim_ok(*self),
        ensures
            res == Some(prim_box(*self, t0, t1)),
    {
        match self {
            Hittable::Sphere(s) => s.bounding_box(t0, t1),
            Hittable::Movable(m) => m.bounding_box(t0, t1),
        }
    }

    /// The hierarchy builder's sort key on the chosen axis.
    pub fn sort_key(&self, axis: usize) -> (res: i64)
        requires
            prim_ok(*self),
            axis < 3,
        ensures
            res == prim_key(*self, axis as int),
    {
        let b = self.bounding_box(0, 0);
        match b {
            Some(bb) => bb.min.axis(axis),
            None => 0,
        }
    }
}

} // verus!
