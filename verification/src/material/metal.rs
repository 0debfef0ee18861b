//! The metal (specular) material.

use vstd::prelude::*;
use crate::fixed::ONE;
use crate::math::vec3::{Vec3, ok3, v_add, v_scale, v_reflect, v_norm, v_dot};
use crate::math::ray::{Ray, ok_ray};
use crate::math::vector_utils::{random_in_unit_sphere, unit_sphere_from, SAMPLE_FUEL};
use crate::geometry::HitRecord;
use crate::rng::Rng64;
use crate::material::Scatter;

verus! {

/// A reflective surface with a base color and a roughness in `[0, ONE]`.
/// Construction clamps the roughness into that interval.
#[derive(Clone, Copy, PartialEq, Eq, Structural, Debug)]
pub struct MetalMaterial {
    pub albedo: Vec3,
    pub roughness: i64,
}

/// The direction a metal surface scatters into: the mirrored unit
/// direction, fuzzed by roughness times a random point of the unit sphere.
pub open spec fn metal_scatter_dir(roughness: i64, r: Ray, rec: HitRecord, state: u64) -> Vec3 {
    let pr = unit_sphere_from(state, SAMPLE_FUEL as nat);
    v_add(v_reflect(v_norm(r.direction), rec.normal), v_scale(pr.0, roughness))
}

/// Specular scattering.  The surface scatters exactly when the fuzzed
/// reflected direction points out of the surface, that is, when its dot
/// product with the normal is positive; otherwise the ray is absorbed.
pub open spec fn metal_scatter_spec(
    albedo: Vec3,
    roughness: i64,
    r: Ray,
    rec: HitRecord,
    state: u64,
) -> (Option<Scatter>, u64) {
    let pr = unit_sphere_from(state, SAMPLE_FUEL as nat);
    let dir = metal_scatter_dir(roughness, r, rec, state);
    let res = if v_dot(dir, rec.normal) > 0 {
        Some(
            Scatter {
                attenuation: albedo,
                scattered: Ray { origin: rec.position, direction: dir, time: 0i64 },
            },
        )
    } else {
        None
    };
    (res, pr.1)
}

impl MetalMaterial {
    /// Build a metal material; the roughness is clamped into `[0, ONE]`.
    pub fn create(albedo: &Vec3, roughness: i64) -> (r: MetalMaterial)
        ensures
            r.albedo == *albedo,
            r.roughness == if roughness > ONE {
                ONE
            } else if roughness < 0 {
                0i64
            } else {
                roughness
            },
            0 <= r.roughness <= ONE,
    {
        MetalMaterial {
            albedo: *albedo,
            roughness: if roughness > ONE {
                ONE
            } else if roughness < 0 {
                0
            } else {
                roughness
            },
        }
    }

    /// Scatter off the mirror direction; declines exactly when the fuzzed
    /// direction does not point out of the surface.
    pub fn scatter(&self, r: &Ray, rec: &HitRecord, rng: &mut Rng64) -> (res: Option<Scatter>)
        requires
            ok_ray(*r),
            ok3(rec.normal),
        ensures
            res == metal_scatter_spec(self.albedo, self.roughness, *r, *rec, old(rng).state).0,
            final(rng).state == metal_scatter_spec(
                self.albedo,
                self.roughness,
                *r,
                *rec,
                old(rng).state,
            ).1,
            res.is_none() <==> v_dot(
                metal_scatter_dir(self.roughness, *r, *rec, old(rng).state),
                rec.normal,
            ) <= 0,
    {
        let reflected = r.direction.normalized().reflect(&rec.normal);
        let rnd = random_in_unit_sphere(rng);
        let dir = reflected.add(&rnd.scale(self.roughness));
        if dir.dot(&rec.normal) > 0 {
            Some(Scatter {
                attenuation: self.albedo,
                scattered: Ray { origin: rec.position, direction: dir, time: 0 },
            })
        } else {
            None
        }
    }
}

} // verus!
