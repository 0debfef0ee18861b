//! The moving sphere primitive: its center is interpolated linearly
//! between two keyframes, which models motion blur.

use vstd::prelude::*;
use crate::fixed::{cl, fd};
use crate::math::vec3::{Vec3, ok3, v_sub, v_add, v_scale};
use crate::math::ray::{Ray, ok_ray};
use crate::geometry::HitRecord;
use crate::geometry::aabb::{AABB, aabb_union};
use crate::geometry::sphere::{sphere_hit_spec, sphere_box, solve_sphere};
use crate::fixed::{fx_div, fx_sub};

verus! {

/// A sphere whose center moves from `center0` at `time0` to `center1` at
/// `time1`; `material` names an entry of the scene's material arena.
#[derive(Clone, Copy, PartialEq, Eq, Structural, Debug)]
pub struct MovableSphere {
    pub center0: Vec3,
    pub center1: Vec3,
    pub time0: i64,
    pub time1: i64,
    pub radius: i64,
    pub material: usize,
}

/// The interpolated center at `time`.  A degenerate keyframe interval
/// saturates the interpolation factor instead of raising an error.
pub open spec fn msphere_center(m: MovableSphere, time: i64) -> Vec3 {
    let frac = fd(cl(time - m.time0), cl(m.time1 - m.time0));
    v_add(m.center0, v_scale(v_sub(m.center1, m.center0), frac))
}

/// The quadratic solve against the center interpolated to the ray's time.
pub open spec fn msphere_hit_spec(m: MovableSphere, r: Ray, tmin: i64, tmax: i64) -> Option<
    HitRecord,
> {
    sphere_hit_spec(msphere_center(m, r.time), m.radius, m.material, r, tmin, tmax)
}

/// The box holding the sphere at both keyframe times, which encloses the
/// whole linear sweep.
pub open spec fn msphere_box(m: MovableSphere, t0: i64, t1: i64) -> AABB {
    aabb_union(
        sphere_box(msphere_center(m, t0), m.radius),
        sphere_box(msphere_center(m, t1), m.radius),
    )
}

impl MovableSphere {
    /// The interpolated center at `time`.
    pub fn get_center(&self, time: i64) -> (r: Vec3)
        ensures
            r == msphere_center(*self, time),
            ok3(r),
    {
        let frac = fx_div(fx_sub(time, self.time0), fx_sub(self.time1, self.time0));
        self.center0.add(&self.center1.sub(&self.center0).scale(frac))
    }

    pub fn get_radius(&self) -> (r: i64)
        ensures
            r == self.radius,
    {
        self.radius
    }

    /// Intersect the ray with the sphere at the ray's own time, over the
    /// open window `(t_min, t_max)`.
    pub fn hit(&self, r: &Ray, t_min: i64, t_max: i64) -> (res: Option<HitRecord>)
        requires
            ok_ray(*r),
            ok3(self.center0),
            ok3(self.center1),
        ensures
            res == msphere_hit_spec(*self, *r, t_min, t_max),
    {
        let center = self.get_center(r.time);
        solve_sphere(&center, self.radius, self.material, r, t_min, t_max)
    }

    /// The box enclosing the sphere's sweep between `t0` and `t1`.
    pub fn bounding_box(&self, t0: i64, t1: i64) -> (res: Option<AABB>)
        requires
            ok3(self.center0),
            ok3(self.center1),
        ensures
            res == Some(msphere_box(*self, t0, t1)),
    {
        let c0 = self.get_center(t0);
        let c1 = self.get_center(t1);
        let rv = Vec3 { x: self.radius, y: self.radius, z: self.radius };
        let b0 = AABB { min: c0.sub(&rv), max: c0.add(&rv) };
        let b1 = AABB { min: c1.sub(&rv), max: c1.add(&rv) };
        Some(AABB::surrounding_box(&b0, &b1))
    }
}

} // verus!
