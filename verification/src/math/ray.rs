//! Rays: an origin, a direction and the shutter time of the sample.

use vstd::prelude::*;
use crate::math::vec3::{Vec3, v_add, v_scale, ok3};

verus! {

#[derive(Clone, Copy, PartialEq, Eq, Structural, Debug)]
pub struct Ray {
    pub origin: Vec3,
    pub direction: Vec3,
    pub time: i64,
}

/// The point reached after travelling `t` along the ray.
pub open spec fn ray_at(r: Ray, t: i64) -> Vec3 {
    v_add(r.origin, v_scale(r.direction, t))
}

impl Ray {
    pub fn get_origin(&self) -> (r: Vec3)
        ensures
            r == self.origin,
    {
        self.origin
    }

    pub fn get_direction(&self) -> (r: Vec3)
        ensures
            r == self.direction,
    {
        self.direction
    }

    pub fn get_time(&self) -> (r: i64)
        ensures
            r == self.time,
    {
        self.time
    }

    /// The point reached after travelling `t` along the ray.
    pub fn point_at_parameter(&self, t: i64) -> (r: Vec3)
        ensures
            r == ray_at(*self, t),
            ok3(r),
    {
        self.origin.add(&self.direction.scale(t))
    }

    /// The zero ray at time zero.
    pub fn default() -> (r: Ray)
        ensures
            r == (Ray { origin: Vec3 { x: 0i64, y: 0i64, z: 0i64 },
                direction: Vec3 { x: 0i64, y: 0i64, z: 0i64 }, time: 0i64 }),
    {
        Ray { origin: Vec3::zero(), direction: Vec3::zero(), time: 0 }
    }

    /// The zero ray at the given time.
    pub fn default_with_time(time: i64) -> (r: Ray)
        ensures
            r == (Ray { origin: Vec3 { x: 0i64, y: 0i64, z: 0i64 },
                direction: Vec3 { x: 0i64, y: 0i64, z: 0i64 }, time: time }),
    {
        Ray { origin: Vec3::zero(), direction: Vec3::zero(), time }
    }
}

/// The ray's vectors are in the saturated scalar range.
pub open spec fn ok_ray(r: Ray) -> bool {
    ok3(r.origin) && ok3(r.direction)
}

} // verus!
