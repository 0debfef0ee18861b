//! The camera: an orthonormal basis, a focus-plane rectangle, a lens disk
//! for depth of field and a shutter interval for motion blur.

use vstd::prelude::*;
use crate::fixed::{ONE, cl, fm, fd, fx_mul, fx_div, fx_add, fx_sub};
use crate::math::vec3::{Vec3, ok3, v_add, v_sub, v_scale, v_norm, v_cross};
use crate::math::ray::Ray;
use crate::math::vector_utils::{random_in_unit_disk, unit_disk_from, SAMPLE_FUEL};
use crate::rng::{Rng64, rng_next, unit_of};

verus! {

#[derive(Clone, Copy, PartialEq, Eq, Structural, Debug)]
pub struct Camera {
    pub origin: Vec3,
    pub lower_left_corner: Vec3,
    pub horizontal: Vec3,
    pub vertical: Vec3,
    pub aspect_ratio: i64,
    pub lens_radius: i64,
    pub w: Vec3,
    pub v: Vec3,
    pub u: Vec3,
    pub time0: i64,
    pub time1: i64,
}

/// The camera derived from its configuration.  `tan_half_fov` is the
/// tangent of half the vertical field of view, handed in as a scalar
/// because the scalar model has no trigonometry of its own.
pub open spec fn camera_spec(
    look_from: Vec3,
    look_at: Vec3,
    v_up: Vec3,
    tan_half_fov: i64,
    aspect_ratio: i64,
    aperture: i64,
    focus_distance: i64,
    time0: i64,
    time1: i64,
) -> Camera {
    let half_height = tan_half_fov;
    let half_width = fm(aspect_ratio, half_height);
    let w = v_norm(v_sub(look_from, look_at));
    let u = v_norm(v_cross(v_up, w));
    let v = v_cross(w, u);
    Camera {
        origin: look_from,
        lower_left_corner: v_sub(
            v_sub(
                v_sub(look_from, v_scale(v_scale(u, focus_distance), half_width)),
                v_scale(v_scale(v, focus_distance), half_height),
            ),
            v_scale(w, focus_distance),
        ),
        horizontal: v_scale(v_scale(v_scale(u, cl(2 * (ONE as int))), half_width), focus_distance),
        vertical: v_scale(v_scale(v_scale(v, cl(2 * (ONE as int))), half_height), focus_distance),
        aspect_ratio,
        lens_radius: fd(aperture, cl(2 * (ONE as int))),
        w,
        v,
        u,
        time0,
        time1,
    }
}

/// The ray cast for image-plane coordinates `(s, t)`: a lens-disk draw
/// offsets the origin for depth of field, and a time draw within the
/// shutter interval models motion blur.
pub open spec fn get_ray_spec(cam: Camera, s: i64, t: i64, state: u64) -> (Ray, u64) {
    let dr = unit_disk_from(state, SAMPLE_FUEL as nat);
    let rd = v_scale(dr.0, cam.lens_radius);
    let offset = v_add(v_scale(cam.u, rd.x), v_scale(cam.v, rd.y));
    let s1 = rng_next(dr.1);
    let time = cl(cam.time0 + fm(cl(unit_of(s1)), cl(cam.time1 - cam.time0)));
    (
        Ray {
            origin: v_add(cam.origin, offset),
            direction: v_sub(
                v_sub(
                    v_add(
                        v_add(cam.lower_left_corner, v_scale(cam.horizontal, s)),
                        v_scale(cam.vertical, t),
                    ),
                    cam.origin,
                ),
                offset,
            ),
            time,
        },
        s1,
    )
}

impl Camera {
    /// Build the camera.  `tan_half_fov` is the tangent of half the
    /// vertical field of view.
    pub fn new(
        look_from: Vec3,
        look_at: Vec3,
        v_up: Vec3,
        tan_half_fov: i64,
        aspect_ratio: i64,
        aperture: i64,
        focus_distance: i64,
        time0: i64,
        time1: i64,
    ) -> (r: Camera)
        requires
            ok3(look_from),
            ok3(look_at),
            ok3(v_up),
        ensures
            r == camera_spec(
                look_from,
                look_at,
                v_up,
                tan_half_fov,
                aspect_ratio,
                aperture,
                focus_distance,
                time0,
                time1,
            ),
    {
        let half_height = tan_half_fov;
        let half_width = fx_mul(aspect_ratio, half_height);
        let w = look_from.sub(&look_at).normalized();
        let u = v_up.cross(&w).normalized();
        let v = w.cross(&u);
        Camera {
            origin: look_from,
            lower_left_corner: look_from.sub(&u.scale(focus_distance).scale(half_width)).sub(
                &v.scale(focus_distance).scale(half_height),
            ).sub(&w.scale(focus_distance)),
            horizontal: u.scale(2 * ONE).scale(half_width).scale(focus_distance),
            vertical: v.scale(2 * ONE).scale(half_height).scale(focus_distance),
            aspect_ratio,
            lens_radius: fx_div(aperture, 2 * ONE),
            w,
            v,
            u,
            time0,
            time1,
        }
    }

    /// The world-space ray for image-plane coordinates `(s, t)` in
    /// `[0, ONE]`.
    pub fn get_ray(&self, s: i64, t: i64, rng: &mut Rng64) -> (r: Ray)
        ensures
            r == get_ray_spec(*self, s, t, old(rng).state).0,
            final(rng).state == get_ray_spec(*self, s, t, old(rng).state).1,
    {
        let random_dist = random_in_unit_disk(rng).scale(self.lens_radius);
        let offset = self.u.scale(random_dist.x).add(&self.v.scale(random_dist.y));
        let tdraw = rng.next_unit();
        let time = fx_add(self.time0, fx_mul(tdraw, fx_sub(self.time1, self.time0)));
        Ray {
            origin: self.origin.add(&offset),
            direction: self.lower_left_corner.add(&self.horizontal.scale(s)).add(
                &self.vertical.scale(t),
            ).sub(&self.origin).sub(&offset),
            time,
        }
    }
}

} // verus!
