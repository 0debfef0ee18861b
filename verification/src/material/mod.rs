//! The material scattering model: a closed set of material kinds,
//! dispatched by a single match, plus the arena they live in.

use vstd::prelude::*;
use crate::math::vec3::{Vec3, ok3};
use crate::math::ray::{Ray, ok_ray};
use crate::geometry::HitRecord;
use crate::rng::Rng64;

pub mod lambertian;
pub mod metal;
pub mod dielectric;

use lambertian::{LambertianMaterial, lambertian_scatter_spec};
use metal::{MetalMaterial, metal_scatter_spec};
use dielectric::{DielectricMaterial, dielectric_scatter_spec};

verus! {

/// What a material hands back when it scatters: the color attenuation and
/// the outgoing ray.
#[derive(Clone, Copy, PartialEq, Eq, Structural, Debug)]
pub struct Scatter {
    pub attenuation: Vec3,
    pub scattered: Ray,
}

/// A placeholder material that absorbs everything.
#[derive(Clone, Copy, PartialEq, Eq, Structural, Debug)]
pub struct DummyMaterial;

impl DummyMaterial {
    /// Absorb the ray: a dummy material never scatters.
    pub fn scatter(&self, _r: &Ray, _rec: &HitRecord, _rng: &mut Rng64) -> (res: Option<Scatter>)
        ensures
            res.is_none(),
            *final(_rng) == *old(_rng),
    {
        None
    }
}

/// One of the material kinds a primitive can shade with.
#[derive(Clone, Copy, PartialEq, Eq, Structural, Debug)]
pub enum Material {
    Dummy(DummyMaterial),
    Lambertian(LambertianMaterial),
    Metal(MetalMaterial),
    Dielectric(DielectricMaterial),
}

/// The scatter decision of a material, as a function of the incoming ray,
/// the hit record and the generator state; the second component is the
/// generator state after the material's draws.
pub open spec fn material_scatter_spec(m: Material, r: Ray, rec: HitRecord, state: u64) -> (
    Option<Scatter>,
    u64,
) {
    match m {
        Material::Dummy(_) => (None, state),
        Material::Lambertian(l) => {
            let pr = lambertian_scatter_spec(l.albedo, rec, state);
            (Some(pr.0), pr.1)
        },
        Material::Metal(mm) => metal_scatter_spec(mm.albedo, mm.roughness, r, rec, state),
        Material::Dielectric(d) => {
            let pr = dielectric_scatter_spec(d.refractive_index, r, rec, state);
            (Some(pr.0), pr.1)
        },
    }
}

impl Material {
    /// Consume the incoming ray and the hit record and either decline to
    /// scatter (absorbed) or produce an attenuation color and an outgoing
    /// ray.
    pub fn scatter(&self, r: &Ray, rec: &HitRecord, rng: &mut Rng64) -> (res: Option<Scatter>)
        requires
            ok_ray(*r),
            ok3(rec.position),
            ok3(rec.normal),
        ensures
            res == material_scatter_spec(*self, *r, *rec, old(rng).state).0,
            final(rng).state == material_scatter_spec(*self, *r, *rec, old(rng).state).1,
    {
        match self {
            Material::Dummy(d) => d.scatter(r, rec, rng),
            Material::Lambertian(l) => l.scatter(r, rec, rng),
            Material::Metal(m) => m.scatter(r, rec, rng),
            Material::Dielectric(d) => d.scatter(r, rec, rng),
        }
    }
}

} // verus!
