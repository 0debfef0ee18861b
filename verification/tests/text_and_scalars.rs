//! Scalar arithmetic, generator and text-encoding tests.

use pathtracer::fixed::{ONE, HALF, fx_mul, fx_div, fx_sqrt, fx_add, fx_sub, FX_MAX};
use pathtracer::math::vec3::Vec3;
use pathtracer::math::time_utils::{CompoundTime, duration_to_string};
use pathtracer::io::ppm_file::{to_ppm_color, ppm_encode};
use pathtracer::rng::Rng64;
use pathtracer::math::vector_utils::{random_in_unit_sphere, random_in_unit_disk};

#[test]
fn scalar_products_truncate_toward_zero() {
    assert_eq!(fx_mul(ONE, ONE), ONE);
    assert_eq!(fx_mul(HALF, HALF), ONE / 4);
    assert_eq!(fx_mul(3 * ONE, -2 * ONE), -6 * ONE);
    assert_eq!(fx_mul(1, 1), 0);
    assert_eq!(fx_mul(-1, 1), 0);
}

#[test]
fn scalar_quotients_truncate_toward_zero() {
    assert_eq!(fx_div(ONE, 2 * ONE), HALF);
    assert_eq!(fx_div(-ONE, 2 * ONE), -HALF);
    assert_eq!(fx_div(ONE, 3), ONE * ONE / 3);
    assert_eq!(fx_div(ONE, 0), FX_MAX);
    assert_eq!(fx_div(-ONE, 0), -FX_MAX);
    assert_eq!(fx_div(0, 0), 0);
}

#[test]
fn scalar_roots_are_exact_on_squares() {
    assert_eq!(fx_sqrt(ONE), ONE);
    assert_eq!(fx_sqrt(4 * ONE), 2 * ONE);
    assert_eq!(fx_sqrt(ONE / 4), HALF);
    assert_eq!(fx_sqrt(0), 0);
    assert_eq!(fx_sqrt(-ONE), 0);
}

#[test]
fn saturating_addition_clips_at_the_extremes() {
    assert_eq!(fx_add(FX_MAX, FX_MAX), FX_MAX);
    assert_eq!(fx_sub(-FX_MAX, FX_MAX), -FX_MAX);
    assert_eq!(fx_add(ONE, ONE), 2 * ONE);
}

#[test]
fn vector_algebra_matches_hand_values() {
    let a = Vec3 { x: ONE, y: 2 * ONE, z: 3 * ONE };
    let b = Vec3 { x: -ONE, y: HALF, z: 0 };
    assert_eq!(a.add(&b), Vec3 { x: 0, y: 2 * ONE + HALF, z: 3 * ONE });
    assert_eq!(a.dot(&b), -ONE + ONE);
    assert_eq!(a.cross(&b).z, HALF + 2 * ONE);
    assert_eq!(a.scale(HALF), Vec3 { x: HALF, y: ONE, z: ONE + HALF });
    let u = Vec3 { x: 3 * ONE, y: 4 * ONE, z: 0 };
    assert_eq!(u.length(), 5 * ONE);
    let n = u.normalized();
    assert_eq!(n, Vec3 { x: ONE * 3 / 5, y: ONE * 4 / 5, z: 0 });
}

#[test]
fn reflect_mirrors_about_the_normal() {
    let d = Vec3 { x: ONE, y: -ONE, z: 0 };
    let n = Vec3 { x: 0, y: ONE, z: 0 };
    assert_eq!(d.reflect(&n), Vec3 { x: ONE, y: ONE, z: 0 });
}

#[test]
fn generator_streams_are_reproducible() {
    let mut a = Rng64::seeded(12345);
    let mut b = Rng64::seeded(12345);
    for _ in 0..100 {
        assert_eq!(a.next_u64(), b.next_u64());
    }
    let mut c = Rng64::seeded(12345);
    let mut d = Rng64::seeded(54321);
    assert_ne!(c.next_u64(), d.next_u64());
}

#[test]
fn generator_draws_stay_in_their_ranges() {
    let mut rng = Rng64::seeded(9);
    for _ in 0..500 {
        let u = rng.next_unit();
        assert!(0 <= u && u < ONE);
        let s = rng.next_sym();
        assert!(-ONE <= s && s <= ONE);
        let a = rng.next_axis();
        assert!(a < 3);
    }
}

#[test]
fn samplers_stay_strictly_inside_their_regions() {
    for seed in 1u64..100 {
        let mut rng = Rng64::seeded(seed);
        let p = random_in_unit_sphere(&mut rng);
        assert!(p.dot(&p) < ONE);
        let d = random_in_unit_disk(&mut rng);
        assert!(d.dot(&d) < ONE);
        assert_eq!(d.z, 0);
    }
}

#[test]
fn compound_time_balances_units() {
    let mut c = CompoundTime::new(0, 0, 0, 0, 3661);
    c.balance();
    assert_eq!((c.w, c.d, c.h, c.m, c.s), (0, 0, 1, 1, 1));
    let mut fortnight = CompoundTime::new(0, 0, 0, 0, 14 * 86400);
    fortnight.balance();
    assert_eq!((fortnight.w, fortnight.d, fortnight.h, fortnight.m, fortnight.s), (2, 0, 0, 0, 0));
}

#[test]
fn compound_time_text() {
    let c = CompoundTime::new(1, 2, 3, 4, 5);
    assert_eq!(c.to_text(), "1w 2d 3h 4m 5s");
}

#[test]
fn duration_text_pads_fields() {
    assert_eq!(duration_to_string(3661, 5_000_000), "1:01:01.005");
    assert_eq!(duration_to_string(0, 0), "0:00:00.000");
    assert_eq!(duration_to_string(90 * 3600 + 59, 999_999_999), "90:00:59.999");
}

#[test]
fn ppm_color_scales_by_255_99() {
    assert_eq!(to_ppm_color(&Vec3 { x: ONE, y: HALF, z: 0 }), (255, 127, 0));
    assert_eq!(to_ppm_color(&Vec3 { x: ONE / 4, y: 2 * ONE, z: -HALF }), (63, 511, -127));
}

#[test]
fn ppm_text_lists_header_then_pixels() {
    let pixels = vec![
        Vec3 { x: ONE, y: 0, z: 0 },
        Vec3 { x: 0, y: HALF, z: ONE },
    ];
    let text = ppm_encode(&pixels, 2, 1);
    assert_eq!(text, "P3\n2 1\n255\n255 0 0\n0 127 255\n");
}
