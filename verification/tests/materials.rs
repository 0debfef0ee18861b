//! Scattering tests: Lambertian, metal, dielectric and the light formulas.

use pathtracer::fixed::{ONE, HALF};
use pathtracer::math::vec3::Vec3;
use pathtracer::math::ray::Ray;
use pathtracer::math::light::schlick;
use pathtracer::geometry::HitRecord;
use pathtracer::material::lambertian::LambertianMaterial;
use pathtracer::material::metal::MetalMaterial;
use pathtracer::material::dielectric::{DielectricMaterial, refract};
use pathtracer::rng::Rng64;

fn vec3(x: i64, y: i64, z: i64) -> Vec3 {
    Vec3 { x, y, z }
}

fn surface_record() -> HitRecord {
    HitRecord { t: HALF, position: vec3(0, 0, -HALF), normal: vec3(0, 0, ONE), material: 0 }
}

#[test]
fn lambertian_always_scatters() {
    let mat = LambertianMaterial::create(&vec3(HALF, HALF, HALF));
    let r = Ray { origin: vec3(0, 0, 0), direction: vec3(0, 0, -ONE), time: 0 };
    let rec = surface_record();
    for seed in 1u64..50 {
        let mut rng = Rng64::seeded(seed);
        let sc = mat.scatter(&r, &rec, &mut rng).expect("a diffuse surface never declines");
        assert_eq!(sc.attenuation, vec3(HALF, HALF, HALF));
        assert_eq!(sc.scattered.origin, rec.position);
    }
}

#[test]
fn metal_head_on_scatters_outward() {
    let mat = MetalMaterial::create(&vec3(ONE, ONE, ONE), 0);
    let r = Ray { origin: vec3(0, 0, 0), direction: vec3(0, 0, -ONE), time: 0 };
    let rec = surface_record();
    let mut rng = Rng64::seeded(7);
    let sc = mat.scatter(&r, &rec, &mut rng).expect("a head-on mirror reflection points out");
    assert_eq!(sc.scattered.direction, vec3(0, 0, ONE));
}

#[test]
fn metal_grazing_incidence_declines() {
    // The incoming ray slides along the surface: the reflected direction's
    // dot product with the normal is zero, so the surface absorbs.
    let mat = MetalMaterial::create(&vec3(ONE, ONE, ONE), 0);
    let r = Ray { origin: vec3(-ONE, 0, 0), direction: vec3(ONE, 0, 0), time: 0 };
    let rec = surface_record();
    let mut rng = Rng64::seeded(7);
    assert!(mat.scatter(&r, &rec, &mut rng).is_none());
}

#[test]
fn metal_roughness_clamps_into_unit_interval() {
    let above = MetalMaterial::create(&vec3(ONE, ONE, ONE), 3 * ONE);
    assert_eq!(above.roughness, ONE);
    let below = MetalMaterial::create(&vec3(ONE, ONE, ONE), -HALF);
    assert_eq!(below.roughness, 0);
    let kept = MetalMaterial::create(&vec3(ONE, ONE, ONE), HALF);
    assert_eq!(kept.roughness, HALF);
}

#[test]
fn refract_at_unit_ratio_head_on_passes_straight() {
    let out = refract(&vec3(0, 0, -ONE), &vec3(0, 0, ONE), ONE)
        .expect("an index ratio of one never reflects a head-on ray");
    assert_eq!(out, vec3(0, 0, -ONE));
}

#[test]
fn refract_at_unit_ratio_oblique_bends_at_most_one_step() {
    // A 3-4-5 direction: the refracted direction may deviate from the
    // normalized incoming direction by at most one raw step along the
    // normal.
    let out = refract(&vec3(0, 3 * ONE, -4 * ONE), &vec3(0, 0, ONE), ONE)
        .expect("an index ratio of one refracts away from grazing");
    let unit_in = vec3(0, ONE * 3 / 5, -(ONE * 4 / 5));
    assert_eq!(out.x, unit_in.x);
    assert_eq!(out.y, unit_in.y);
    assert!((out.z - unit_in.z).abs() <= 1);
}

#[test]
fn refract_reports_total_internal_reflection() {
    // Leaving glass (ratio 1.5) at grazing incidence: the discriminant
    // goes negative and refraction is refused.
    let ratio = ONE + HALF;
    let dir = vec3(ONE, -ONE / 8, 0);
    assert!(refract(&dir, &vec3(0, ONE, 0), ratio).is_none());
}

#[test]
fn schlick_at_unit_index_head_on_is_zero() {
    assert_eq!(schlick(ONE, ONE), 0);
}

#[test]
fn schlick_at_grazing_is_total() {
    // cosine zero: r0 + (1 - r0) * 1 == 1 exactly in the scalar model.
    assert_eq!(schlick(0, ONE + HALF), ONE);
}

#[test]
fn dielectric_at_unit_index_head_on_refracts_straight() {
    let mat = DielectricMaterial::create(ONE);
    let r = Ray { origin: vec3(0, 0, 0), direction: vec3(0, 0, -ONE), time: 0 };
    let rec = surface_record();
    for seed in 1u64..50 {
        let mut rng = Rng64::seeded(seed);
        let sc = mat.scatter(&r, &rec, &mut rng).expect("glass always scatters");
        assert_eq!(sc.attenuation, vec3(ONE, ONE, ONE));
        assert_eq!(sc.scattered.direction, vec3(0, 0, -ONE));
    }
}

#[test]
fn dielectric_always_scatters() {
    let mat = DielectricMaterial::create(ONE + HALF);
    let rec = surface_record();
    for seed in 1u64..20 {
        let mut rng = Rng64::seeded(seed);
        let r = Ray { origin: vec3(0, 0, 0), direction: vec3(ONE / 4, -ONE / 3, -ONE), time: 0 };
        assert!(mat.scatter(&r, &rec, &mut rng).is_some());
    }
}
