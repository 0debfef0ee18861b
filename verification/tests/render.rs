//! End-to-end rendering tests: buffer shape, channel range, determinism
//! and the row-major layout.

use pathtracer::fixed::{ONE, HALF};
use pathtracer::math::vec3::Vec3;
use pathtracer::math::camera::Camera;
use pathtracer::geometry::hittable::Hittable;
use pathtracer::geometry::sphere::Sphere;
use pathtracer::geometry::scene::HittableScene;
use pathtracer::geometry::bvh_node::BvhNode;
use pathtracer::material::{Material, lambertian::LambertianMaterial, metal::MetalMaterial};
use pathtracer::render::{render, render_row, get_ray_color, MAX_DEPTH};
use pathtracer::rng::Rng64;
use pathtracer::math::ray::Ray;

fn color(x: i64, y: i64, z: i64) -> Vec3 {
    Vec3 { x, y, z }
}

/// One large ground sphere plus one colored sphere, and a simple camera.
fn small_world() -> (BvhNode, Vec<Material>, Camera) {
    let mut scene = HittableScene::new();
    let ground = scene.add_material(Material::Lambertian(LambertianMaterial::create(&color(
        HALF,
        HALF,
        HALF,
    ))));
    let rosy = scene.add_material(Material::Metal(MetalMaterial::create(
        &color(ONE * 4 / 5, ONE * 3 / 5, ONE * 2 / 5),
        HALF,
    )));
    scene.add_hittable(Hittable::Sphere(Sphere {
        center: color(0, -1000 * ONE, 0),
        radius: 1000 * ONE,
        material: ground,
    }));
    scene.add_hittable(Hittable::Sphere(Sphere {
        center: color(0, ONE, 0),
        radius: ONE,
        material: rosy,
    }));
    let camera = Camera::new(
        color(3 * ONE, ONE, 2 * ONE),
        color(0, ONE, 0),
        Vec3::up(),
        23854,  // tan of half a 40 degree field of view
        2 * ONE,
        0,
        4 * ONE,
        0,
        ONE,
    );
    let mut build_rng = Rng64::seeded(7);
    let materials = scene.materials;
    let tree = BvhNode::new(scene.hittable_list, 0, ONE, &mut build_rng);
    (tree, materials, camera)
}

#[test]
fn render_buffer_has_width_times_height_entries_in_range() {
    let (tree, materials, camera) = small_world();
    let pixels = render(&tree, &materials, &camera, 20, 10, 4, 42);
    assert_eq!(pixels.len(), 200);
    for p in pixels.iter() {
        assert!(0 <= p.x && p.x <= ONE);
        assert!(0 <= p.y && p.y <= ONE);
        assert!(0 <= p.z && p.z <= ONE);
    }
}

#[test]
fn integrator_returns_black_at_max_depth_even_on_a_miss() {
    let (tree, materials, _camera) = small_world();
    // A ray pointing at the open sky: below the bound it earns the
    // background, at the bound the energy is fully absorbed.
    let up = Ray { origin: color(0, 10 * ONE, 0), direction: color(0, ONE, 0), time: 0 };
    let mut rng = Rng64::seeded(5);
    let sky = get_ray_color(&up, &tree, &materials, 0, &mut rng);
    assert!(sky != color(0, 0, 0));
    let black = get_ray_color(&up, &tree, &materials, MAX_DEPTH, &mut rng);
    assert_eq!(black, color(0, 0, 0));
}

#[test]
fn render_is_bit_identical_for_equal_seeds() {
    let (tree, materials, camera) = small_world();
    let first = render(&tree, &materials, &camera, 20, 10, 4, 42);
    let second = render(&tree, &materials, &camera, 20, 10, 4, 42);
    assert_eq!(first, second);
}

#[test]
fn render_differs_for_different_seeds() {
    let (tree, materials, camera) = small_world();
    let first = render(&tree, &materials, &camera, 20, 10, 4, 42);
    let second = render(&tree, &materials, &camera, 20, 10, 4, 43);
    assert_ne!(first, second);
}

#[test]
fn render_rows_assemble_the_buffer_top_down() {
    let (tree, materials, camera) = small_world();
    let width = 16usize;
    let height = 8usize;
    let pixels = render(&tree, &materials, &camera, width, height, 2, 99);
    for k in 0..height {
        let j = height - 1 - k;
        let row = render_row(&tree, &materials, &camera, width, height, j, 2, 99);
        assert_eq!(row.len(), width);
        for i in 0..width {
            // Buffer row k (from the top) and column i stand at offset
            // k * width + i and hold world row j = height - 1 - k.
            assert_eq!(pixels[k * width + i], row[i]);
        }
    }
}
