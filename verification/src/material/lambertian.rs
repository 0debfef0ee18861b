//! The Lambertian (diffuse) material.

use vstd::prelude::*;
use crate::math::vec3::{Vec3, ok3, v_add, v_sub};
use crate::math::ray::Ray;
use crate::math::vector_utils::{random_in_unit_sphere, unit_sphere_from, SAMPLE_FUEL};
use crate::geometry::HitRecord;
use crate::rng::Rng64;
use crate::material::Scatter;

verus! {

/// A diffuse surface with a base color.
#[derive(Clone, Copy, PartialEq, Eq, Structural, Debug)]
pub struct LambertianMaterial {
    pub albedo: Vec3,
}

/// Diffuse scattering: aim at the surface point plus the normal plus a
/// random point of the unit sphere.  A Lambertian surface always scatters,
/// and the attenuation is the albedo.  The scattered ray is cast at time
/// zero, as the integrator's scratch ray is.
pub open spec fn lambertian_scatter_spec(albedo: Vec3, rec: HitRecord, state: u64) -> (
    Scatter,
    u64,
) {
    let pr = unit_sphere_from(state, SAMPLE_FUEL as nat);
    let target = v_add(v_add(rec.position, rec.normal), pr.0);
    (
        Scatter {
            attenuation: albedo,
            scattered: Ray {
                origin: rec.position,
                direction: v_sub(target, rec.position),
                time: 0i64,
            },
        },
        pr.1,
    )
}

impl LambertianMaterial {
    pub fn create(albedo: &Vec3) -> (r: LambertianMaterial)
        ensures
            r == (LambertianMaterial { albedo: *albedo }),
    {
        LambertianMaterial { albedo: *albedo }
    }

    /// Scatter diffusely; this never declines.
    pub fn scatter(&self, _r: &Ray, rec: &HitRecord, rng: &mut Rng64) -> (res: Option<Scatter>)
        requires
            ok3(rec.position),
            ok3(rec.normal),
        ensures
            res == Some(lambertian_scatter_spec(self.albedo, *rec, old(rng).state).0),
            final(rng).state == lambertian_scatter_spec(self.albedo, *rec, old(rng).state).1,
    {
        let rnd = random_in_unit_sphere(rng);
        let target = rec.position.add(&rec.normal).add(&rnd);
        Some(Scatter {
            attenuation: self.albedo,
            scattered: Ray {
                origin: rec.position,
                direction: target.sub(&rec.position),
                time: 0,
            },
        })
    }
}

} // verus!
