//! Intersection tests: slabs, spheres and box unions.

use pathtracer::fixed::{ONE, HALF};
use pathtracer::math::vec3::Vec3;
use pathtracer::math::ray::Ray;
use pathtracer::geometry::aabb::AABB;
use pathtracer::geometry::sphere::Sphere;
use pathtracer::geometry::movable_sphere::MovableSphere;

fn v(x: i64, y: i64, z: i64) -> Vec3 {
    Vec3 { x, y, z }
}

fn unit_box() -> AABB {
    AABB { min: v(0, 0, 0), max: v(ONE, ONE, ONE) }
}

#[test]
fn aabb_axis_ray_hits() {
    let b = unit_box();
    let r = Ray { origin: v(-ONE, HALF, HALF), direction: v(ONE, 0, 0), time: 0 };
    assert!(b.hit(&r, 0, 10 * ONE));
}

#[test]
fn aabb_axis_ray_pointing_away_misses() {
    let b = unit_box();
    let r = Ray { origin: v(-ONE, HALF, HALF), direction: v(-ONE, 0, 0), time: 0 };
    assert!(!b.hit(&r, 0, 10 * ONE));
}

#[test]
fn aabb_axis_ray_offset_misses() {
    let b = unit_box();
    let r = Ray { origin: v(-ONE, 3 * ONE, HALF), direction: v(ONE, 0, 0), time: 0 };
    assert!(!b.hit(&r, 0, 10 * ONE));
}

#[test]
fn aabb_axis_ray_window_too_short() {
    let b = unit_box();
    let r = Ray { origin: v(-ONE, HALF, HALF), direction: v(ONE, 0, 0), time: 0 };
    // The box starts at parameter one; a window ending there misses.
    assert!(!b.hit(&r, 0, ONE));
    assert!(b.hit(&r, 0, ONE + ONE / 4));
}

#[test]
fn aabb_diagonal_ray_hits() {
    let b = unit_box();
    // Entering the x slab at t = 1 .. 2 and the y slab at t = 0.5 .. 1.5:
    // the overlap (1, 1.5) is crossed.
    let r = Ray { origin: v(-ONE, -HALF, HALF), direction: v(ONE, ONE, 0), time: 0 };
    assert!(b.hit(&r, 0, 10 * ONE));
}

#[test]
fn aabb_diagonal_ray_misses() {
    let b = unit_box();
    // The x slab is crossed during t = 1 .. 2, the y slab during
    // t = 2 .. 3: the interiors never overlap.
    let r = Ray { origin: v(-ONE, -2 * ONE, HALF), direction: v(ONE, ONE, 0), time: 0 };
    assert!(!b.hit(&r, 0, 10 * ONE));
}

#[test]
fn sphere_head_on_hit_has_exact_root_and_normal() {
    let s = Sphere { center: v(0, 0, -ONE), radius: HALF, material: 0 };
    let r = Ray { origin: v(0, 0, 0), direction: v(0, 0, -ONE), time: 0 };
    let rec = s.hit(&r, 0, 100 * ONE).expect("the ray points straight at the sphere");
    assert_eq!(rec.t, HALF);
    assert_eq!(rec.normal, v(0, 0, ONE));
    assert_eq!(rec.position, v(0, 0, -HALF));
}

#[test]
fn sphere_miss_reports_none() {
    let s = Sphere { center: v(0, 0, -ONE), radius: HALF, material: 0 };
    let r = Ray { origin: v(0, 0, 0), direction: v(0, ONE, 0), time: 0 };
    assert!(s.hit(&r, 0, 100 * ONE).is_none());
}

#[test]
fn sphere_inside_origin_uses_far_root() {
    let s = Sphere { center: v(0, 0, 0), radius: ONE, material: 0 };
    let r = Ray { origin: v(0, 0, 0), direction: v(0, 0, -ONE), time: 0 };
    let rec = s.hit(&r, 0, 100 * ONE).expect("a ray from the center exits the sphere");
    assert_eq!(rec.t, ONE);
}

#[test]
fn movable_sphere_interpolates_center() {
    let m = MovableSphere {
        center0: v(0, 0, 0),
        center1: v(ONE, 0, 0),
        time0: 0,
        time1: ONE,
        radius: HALF,
        material: 0,
    };
    assert_eq!(m.get_center(0), v(0, 0, 0));
    assert_eq!(m.get_center(ONE), v(ONE, 0, 0));
    assert_eq!(m.get_center(HALF), v(HALF, 0, 0));
}

#[test]
fn movable_sphere_hit_follows_time() {
    let m = MovableSphere {
        center0: v(0, 0, -2 * ONE),
        center1: v(10 * ONE, 0, -2 * ONE),
        time0: 0,
        time1: ONE,
        radius: HALF,
        material: 0,
    };
    let at_start = Ray { origin: v(0, 0, 0), direction: v(0, 0, -ONE), time: 0 };
    let at_end = Ray { origin: v(0, 0, 0), direction: v(0, 0, -ONE), time: ONE };
    assert!(m.hit(&at_start, 0, 100 * ONE).is_some());
    assert!(m.hit(&at_end, 0, 100 * ONE).is_none());
}

#[test]
fn surrounding_box_takes_component_extremes() {
    let a = AABB { min: v(0, 0, 0), max: v(ONE, ONE, ONE) };
    let b = AABB { min: v(-ONE, HALF, 0), max: v(HALF, 3 * ONE, 2 * ONE) };
    let u = AABB::surrounding_box(&a, &b);
    assert_eq!(u.min, v(-ONE, 0, 0));
    assert_eq!(u.max, v(ONE, 3 * ONE, 2 * ONE));
}

#[test]
fn surrounding_box_contains_sampled_points_of_both() {
    let a = AABB { min: v(0, 0, 0), max: v(ONE, ONE, ONE) };
    let b = AABB { min: v(-3 * ONE, HALF, 0), max: v(HALF, 5 * ONE, 2 * ONE) };
    let u = AABB::surrounding_box(&a, &b);
    let samples = [
        v(0, 0, 0),
        v(ONE, ONE, ONE),
        v(HALF, HALF, HALF),
        v(-3 * ONE, HALF, 0),
        v(HALF, 5 * ONE, 2 * ONE),
        v(-ONE, ONE, ONE),
    ];
    for p in samples.iter() {
        let in_a = a.min.x <= p.x && p.x <= a.max.x && a.min.y <= p.y && p.y <= a.max.y
            && a.min.z <= p.z && p.z <= a.max.z;
        let in_b = b.min.x <= p.x && p.x <= b.max.x && b.min.y <= p.y && p.y <= b.max.y
            && b.min.z <= p.z && p.z <= b.max.z;
        if in_a || in_b {
            assert!(u.min.x <= p.x && p.x <= u.max.x);
            assert!(u.min.y <= p.y && p.y <= u.max.y);
            assert!(u.min.z <= p.z && p.z <= u.max.z);
        }
    }
}

#[test]
fn sphere_bounding_box_is_center_plus_minus_radius() {
    let s = Sphere { center: v(ONE, 2 * ONE, -ONE), radius: HALF, material: 0 };
    let b = s.bounding_box(0, ONE).unwrap();
    assert_eq!(b.min, v(HALF, 2 * ONE - HALF, -ONE - HALF));
    assert_eq!(b.max, v(ONE + HALF, 2 * ONE + HALF, -HALF));
}
