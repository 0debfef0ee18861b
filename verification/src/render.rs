//! The path integrator and the deterministic pixel-buffer driver.

use vstd::prelude::*;
use crate::fixed::{ONE, HALF, FX_MAX, cl, fm, fd, fx_mul, fx_div, fx_add, fx_sub};
use crate::math::vec3::{Vec3, ok3, v_add, v_scale, v_cmul, v_norm, v_divs, v_gamma};
use crate::math::ray::{Ray, ok_ray};
use crate::math::camera::{Camera, get_ray_spec};
use crate::math::vector_utils::gamma_color;
use crate::geometry::HitRecord;
use crate::geometry::hittable::prim_material;
use crate::geometry::scene::{prims_materials_in};
use crate::geometry::bvh_node::{BvhNode, BvhChild, bvh_hit_spec, child_hit_spec, tree_prims,
    child_prims, tree_ok};
use crate::material::{Material, material_scatter_spec};
use crate::rng::{Rng64, rng_next, unit_of, stream_seed};

verus! {

/// The lower ray-parameter bound of every intersection query: a small
/// positive value that keeps a scattered ray from re-hitting its own
/// surface through round-off ("shadow acne").
pub const EPS_T: i64 = 655;

/// The upper ray-parameter bound of every intersection query: the
/// representable scalar extreme, the model's stand-in for an unbounded
/// query.
pub const FAR_T: i64 = FX_MAX;

/// The recursion bound of the integrator: deeper light paths are treated
/// as fully absorbed.
pub const MAX_DEPTH: u32 = 50;

/// The sky color at the top of the background gradient.
pub open spec fn sky_blue() -> Vec3 {
    Vec3 { x: HALF, y: 45875i64, z: ONE }
}

/// The background gradient: blend white into sky blue by the normalized
/// direction's vertical component, `t = (dir.y + 1) / 2`.
pub open spec fn background_spec(r: Ray) -> Vec3 {
    let ud = v_norm(r.direction);
    let t = fm(HALF, cl(ud.y + ONE));
    v_add(v_scale(Vec3 { x: ONE, y: ONE, z: ONE }, cl(ONE - t)), v_scale(sky_blue(), t))
}

/// The recursive color integration: at the recursion bound, black,
/// before anything else is asked; on a miss the background; when the
/// material absorbs, black; otherwise the attenuation times the color of
/// the scattered ray.
pub open spec fn ray_color_spec(
    r: Ray,
    scene: BvhNode,
    mats: Seq<Material>,
    depth: u32,
    state: u64,
) -> (Vec3, u64)
    decreases MAX_DEPTH - depth,
{
    if depth >= MAX_DEPTH {
        (Vec3 { x: 0i64, y: 0i64, z: 0i64 }, state)
    } else {
        match bvh_hit_spec(scene, r, EPS_T, FAR_T) {
            Some(rec) => {
                if (rec.material as int) < mats.len() {
                    let sc = material_scatter_spec(mats[rec.material as int], r, rec, state);
                    match sc.0 {
                        Some(s) => {
                            let rc = ray_color_spec(
                                s.scattered,
                                scene,
                                mats,
                                (depth + 1) as u32,
                                sc.1,
                            );
                            (v_cmul(s.attenuation, rc.0), rc.1)
                        },
                        None => (Vec3 { x: 0i64, y: 0i64, z: 0i64 }, sc.1),
                    }
                } else {
                    (Vec3 { x: 0i64, y: 0i64, z: 0i64 }, state)
                }
            },
            None => (background_spec(r), state),
        }
    }
}

/// For a direction whose normalized vertical component stays within one
/// (every nondegenerate direction), the background gradient's channels
/// lie in the unit interval: the blend `(1 - t) * white + t * sky` of
/// unit-interval colors cannot leave it.
pub proof fn lemma_background_in_range(r: Ray)
    requires
        -ONE <= v_norm(r.direction).y <= ONE,
    ensures
        0 <= background_spec(r).x <= ONE,
        0 <= background_spec(r).y <= ONE,
        0 <= background_spec(r).z <= ONE,
{
    let y = v_norm(r.direction).y;
    let u = cl(y + ONE);
    let t = fm(HALF, u);
    assert(fm(HALF, u) == fm(u, HALF));
    assert(0 <= t <= ONE) by {
        crate::fixed::lemma_fm_mono(0, u, HALF);
        crate::fixed::lemma_fm_mono(u, 131072i64, HALF);
        assert(fm(0, HALF) == 0) by {
            vstd::arithmetic::div_mod::lemma_div_of0(ONE as int);
        }
        assert(fm(131072i64, HALF) == ONE) by {
            vstd::arithmetic::div_mod::lemma_div_multiples_vanish(ONE as int, ONE as int);
            assert((2 * (ONE as int)) * (HALF as int) == (ONE as int) * (ONE as int))
                by (nonlinear_arith);
        }
    }
    let w = cl(ONE - t);
    crate::fixed::lemma_fmul_one(w as int);
    assert(fm(ONE, w) == w);
    lemma_sky_term(sky_blue().x, t);
    lemma_sky_term(sky_blue().y, t);
    lemma_sky_term(sky_blue().z, t);
    crate::fixed::lemma_fmul_one(t as int);
}

/// One sky term of the background blend stays below the blend weight.
proof fn lemma_sky_term(c: i64, t: i64)
    requires
        0 <= c <= ONE,
        0 <= t <= ONE,
    ensures
        0 <= fm(c, t) <= t,
{
    crate::fixed::lemma_fm_mono(0, c, t);
    crate::fixed::lemma_fm_mono(c, ONE, t);
    assert(fm(0, t) == 0) by {
        vstd::arithmetic::div_mod::lemma_div_of0(ONE as int);
    }
    crate::fixed::lemma_fmul_one(t as int);
    assert(fm(ONE, t) == t);
}

/// Any record a child subtree reports has its vectors in the scalar
/// range: positions and normals are built from saturating operations.
pub proof fn lemma_child_hit_record_ok(c: BvhChild, r: Ray, tmin: i64, tmax: i64)
    ensures
        match child_hit_spec(c, r, tmin, tmax) {
            Some(rec) => ok3(rec.position) && ok3(rec.normal),
            None => true,
        },
    decreases c,
{
    match c {
        BvhChild::Leaf(h) => {
            crate::geometry::hittable::lemma_prim_hit_ok(h, r, tmin, tmax);
        },
        BvhChild::Node(b) => {
            lemma_bvh_hit_record_ok(*b, r, tmin, tmax);
        },
    }
}

pub proof fn lemma_bvh_hit_record_ok(n: BvhNode, r: Ray, tmin: i64, tmax: i64)
    ensures
        match bvh_hit_spec(n, r, tmin, tmax) {
            Some(rec) => ok3(rec.position) && ok3(rec.normal),
            None => true,
        },
    decreases n,
{
    lemma_child_hit_record_ok(n.left, r, tmin, tmax);
    lemma_child_hit_record_ok(n.right, r, tmin, tmax);
}

/// Any record a child subtree reports names the material of one of the
/// subtree's primitives, so a well-formed scene resolves it.
pub proof fn lemma_child_hit_material(c: BvhChild, r: Ray, tmin: i64, tmax: i64, len: int)
    requires
        prims_materials_in(child_prims(c), len),
    ensures
        match child_hit_spec(c, r, tmin, tmax) {
            Some(rec) => (rec.material as int) < len,
            None => true,
        },
    decreases c,
{
    match c {
        BvhChild::Leaf(h) => {
            assert(child_prims(c)[0] == h);
            crate::geometry::hittable::lemma_prim_hit_ok(h, r, tmin, tmax);
        },
        BvhChild::Node(b) => {
            lemma_bvh_hit_material(*b, r, tmin, tmax, len);
        },
    }
}

pub proof fn lemma_bvh_hit_material(n: BvhNode, r: Ray, tmin: i64, tmax: i64, len: int)
    requires
        prims_materials_in(tree_prims(n), len),
    ensures
        match bvh_hit_spec(n, r, tmin, tmax) {
            Some(rec) => (rec.material as int) < len,
            None => true,
        },
    decreases n,
{
    let lp = child_prims(n.left);
    let rp = child_prims(n.right);
    assert forall|i: int| 0 <= i < lp.len() implies (prim_material(#[trigger] lp[i]) as int)
        < len by {
        assert(tree_prims(n)[i] == lp[i]);
        assert((prim_material(tree_prims(n)[i]) as int) < len);
    }
    assert forall|i: int| 0 <= i < rp.len() implies (prim_material(#[trigger] rp[i]) as int)
        < len by {
        assert(tree_prims(n)[lp.len() + i] == rp[i]);
        assert((prim_material(tree_prims(n)[lp.len() + i]) as int) < len);
    }
    lemma_child_hit_material(n.left, r, tmin, tmax, len);
    lemma_child_hit_material(n.right, r, tmin, tmax, len);
}

/// The color carried back along one ray.
#[verifier::rlimit(100)]
pub fn get_ray_color(
    r: &Ray,
    scene: &BvhNode,
    materials: &Vec<Material>,
    depth: u32,
    rng: &mut Rng64,
) -> (res: Vec3)
    requires
        ok_ray(*r),
        tree_ok(*scene),
        prims_materials_in(tree_prims(*scene), materials@.len() as int),
    ensures
        res == ray_color_spec(*r, *scene, materials@, depth, old(rng).state).0,
        final(rng).state == ray_color_spec(*r, *scene, materials@, depth, old(rng).state).1,
    decreases MAX_DEPTH - depth,
{
    if depth >= MAX_DEPTH {
        return Vec3::zero();
    }
    match scene.hit(r, EPS_T, FAR_T) {
        Some(rec) => {
            proof {
                lemma_bvh_hit_material(*scene, *r, EPS_T, FAR_T, materials@.len() as int);
                lemma_bvh_hit_record_ok(*scene, *r, EPS_T, FAR_T);
            }
            let m = &materials[rec.material];
            match m.scatter(r, &rec, rng) {
                Some(sc) => {
                    let rest = get_ray_color(&sc.scattered, scene, materials, depth + 1, rng);
                    sc.attenuation.comp_mul(&rest)
                },
                None => Vec3::zero(),
            }
        },
        None => {
            let ud = r.get_direction().normalized();
            let t = fx_mul(HALF, fx_add(ud.y, ONE));
            Vec3::one().scale(fx_sub(ONE, t)).add(&Vec3 { x: HALF, y: 45875, z: ONE }.scale(t))
        },
    }
}

/// One stochastic sample of pixel `(i, j)`: jitter the image-plane
/// coordinates by half a pixel, cast the camera ray and integrate.
pub open spec fn sample_spec(
    cam: Camera,
    scene: BvhNode,
    mats: Seq<Material>,
    i: int,
    j: int,
    width: int,
    height: int,
    state: u64,
) -> (Vec3, u64) {
    let s1 = rng_next(state);
    let ju = cl(unit_of(s1) - (HALF as int));
    let s2 = rng_next(s1);
    let jv = cl(unit_of(s2) - (HALF as int));
    let u = fd(cl(i * (ONE as int) + ju), cl(width * (ONE as int)));
    let v = fd(cl(j * (ONE as int) + jv), cl(height * (ONE as int)));
    let gr = get_ray_spec(cam, u, v, s2);
    ray_color_spec(gr.0, scene, mats, 0, gr.1)
}

/// The sum of `count` further samples of pixel `(i, j)`.
pub open spec fn sample_sum_spec(
    cam: Camera,
    scene: BvhNode,
    mats: Seq<Material>,
    i: int,
    j: int,
    width: int,
    height: int,
    count: nat,
    state: u64,
    acc: Vec3,
) -> (Vec3, u64)
    decreases count,
{
    if count == 0 {
        (acc, state)
    } else {
        let sc = sample_spec(cam, scene, mats, i, j, width, height, state);
        sample_sum_spec(
            cam,
            scene,
            mats,
            i,
            j,
            width,
            height,
            (count - 1) as nat,
            sc.1,
            v_add(acc, sc.0),
        )
    }
}

/// The finished pixel `(i, j)`: the average of `samples` samples, under
/// the square-root tone curve.
pub open spec fn pixel_spec(
    cam: Camera,
    scene: BvhNode,
    mats: Seq<Material>,
    i: int,
    j: int,
    width: int,
    height: int,
    samples: u32,
    state: u64,
) -> (Vec3, u64) {
    let ss = sample_sum_spec(
        cam,
        scene,
        mats,
        i,
        j,
        width,
        height,
        samples as nat,
        state,
        Vec3 { x: 0i64, y: 0i64, z: 0i64 },
    );
    (v_gamma(v_divs(ss.0, cl((samples as int) * (ONE as int)))), ss.1)
}

/// The pixels of world row `j` from column `i` on, threading one
/// generator across the row.
pub open spec fn row_from_spec(
    cam: Camera,
    scene: BvhNode,
    mats: Seq<Material>,
    i: int,
    j: int,
    width: int,
    height: int,
    samples: u32,
    state: u64,
) -> (Seq<Vec3>, u64)
    decreases width - i,
{
    if i < 0 || i >= width {
        (Seq::empty(), state)
    } else {
        let p = pixel_spec(cam, scene, mats, i, j, width, height, samples, state);
        let rest = row_from_spec(cam, scene, mats, i + 1, j, width, height, samples, p.1);
        (seq![p.0] + rest.0, rest.1)
    }
}

/// World row `j`, rendered under its own worker stream of the master
/// seed; rows are independent, so workers need not communicate.
pub open spec fn row_spec(
    cam: Camera,
    scene: BvhNode,
    mats: Seq<Material>,
    j: int,
    width: int,
    height: int,
    samples: u32,
    seed: u64,
) -> Seq<Vec3> {
    row_from_spec(cam, scene, mats, 0, j, width, height, samples, stream_seed(seed, j as u64)).0
}

/// The pixel buffer from buffer row `k` down: buffer row `k` holds world
/// row `height - 1 - k`, so the image is written top-down.
pub open spec fn buffer_from_spec(
    cam: Camera,
    scene: BvhNode,
    mats: Seq<Material>,
    k: int,
    width: int,
    height: int,
    samples: u32,
    seed: u64,
) -> Seq<Vec3>
    decreases height - k,
{
    if k < 0 || k >= height {
        Seq::empty()
    } else {
        row_spec(cam, scene, mats, height - 1 - k, width, height, samples, seed)
            + buffer_from_spec(cam, scene, mats, k + 1, width, height, samples, seed)
    }
}

/// The whole image: `width * height` pixels in row-major order, top row
/// first, as a function of scene, camera, sampling parameters and seed.
pub open spec fn render_spec(
    cam: Camera,
    scene: BvhNode,
    mats: Seq<Material>,
    width: int,
    height: int,
    samples: u32,
    seed: u64,
) -> Seq<Vec3> {
    buffer_from_spec(cam, scene, mats, 0, width, height, samples, seed)
}

/// Render world row `j` into a vector of `width` pixels.
#[verifier::rlimit(100)]
pub fn render_row(
    scene: &BvhNode,
    materials: &Vec<Material>,
    camera: &Camera,
    width: usize,
    height: usize,
    j: usize,
    samples: u32,
    seed: u64,
) -> (row: Vec<Vec3>)
    requires
        tree_ok(*scene),
        prims_materials_in(tree_prims(*scene), materials@.len() as int),
        width <= 0x7FFF_FFFF,
        height <= 0x7FFF_FFFF,
        j < height,
    ensures
        row@ == row_spec(
            *camera,
            *scene,
            materials@,
            j as int,
            width as int,
            height as int,
            samples,
            seed,
        ),
{
    let mut rng = Rng64::stream(seed, j as u64);
    let mut out: Vec<Vec3> = Vec::new();
    let ghost full = row_from_spec(
        *camera,
        *scene,
        materials@,
        0,
        j as int,
        width as int,
        height as int,
        samples,
        stream_seed(seed, j as u64),
    );
    let mut i: usize = 0;
    while i < width
        invariant
            i <= width,
            width <= 0x7FFF_FFFF,
            height <= 0x7FFF_FFFF,
            j < height,
            tree_ok(*scene),
            prims_materials_in(tree_prims(*scene), materials@.len() as int),
            out@.len() == i,
            out@ + row_from_spec(
                *camera,
                *scene,
                materials@,
                i as int,
                j as int,
                width as int,
                height as int,
                samples,
                rng.state,
            ).0 == full.0,
            row_from_spec(
                *camera,
                *scene,
                materials@,
                i as int,
                j as int,
                width as int,
                height as int,
                samples,
                rng.state,
            ).1 == full.1,
        decreases width - i,
    {
        let p = render_pixel(scene, materials, camera, i, j, width, height, samples, &mut rng);
        out.push(p);
        i = i + 1;
    }
    out
}

/// Render one pixel: average `samples` jittered samples and apply the
/// square-root tone curve.
pub fn render_pixel(
    scene: &BvhNode,
    materials: &Vec<Material>,
    camera: &Camera,
    i: usize,
    j: usize,
    width: usize,
    height: usize,
    samples: u32,
    rng: &mut Rng64,
) -> (pix: Vec3)
    requires
        tree_ok(*scene),
        prims_materials_in(tree_prims(*scene), materials@.len() as int),
        i < width,
        j < height,
        width <= 0x7FFF_FFFF,
        height <= 0x7FFF_FFFF,
    ensures
        pix == pixel_spec(
            *camera,
            *scene,
            materials@,
            i as int,
            j as int,
            width as int,
            height as int,
            samples,
            old(rng).state,
        ).0,
        final(rng).state == pixel_spec(
            *camera,
            *scene,
            materials@,
            i as int,
            j as int,
            width as int,
            height as int,
            samples,
            old(rng).state,
        ).1,
{
    let mut acc = Vec3::zero();
    let mut s: u32 = 0;
    let ghost goal = sample_sum_spec(
        *camera,
        *scene,
        materials@,
        i as int,
        j as int,
        width as int,
        height as int,
        samples as nat,
        old(rng).state,
        Vec3 { x: 0i64, y: 0i64, z: 0i64 },
    );
    while s < samples
        invariant
            s <= samples,
            i < width,
            j < height,
            width <= 0x7FFF_FFFF,
            height <= 0x7FFF_FFFF,
            tree_ok(*scene),
            prims_materials_in(tree_prims(*scene), materials@.len() as int),
            sample_sum_spec(
                *camera,
                *scene,
                materials@,
                i as int,
                j as int,
                width as int,
                height as int,
                (samples - s) as nat,
                rng.state,
                acc,
            ) == goal,
        decreases samples - s,
    {
        let ju = fx_sub(rng.next_unit(), HALF);
        let jv = fx_sub(rng.next_unit(), HALF);
        let u = fx_div(fx_add((i as i64) * ONE, ju), (width as i64) * ONE);
        let v = fx_div(fx_add((j as i64) * ONE, jv), (height as i64) * ONE);
        let ray = camera.get_ray(u, v, rng);
        let c = get_ray_color(&ray, scene, materials, 0, rng);
        acc = acc.add(&c);
        s = s + 1;
    }
    gamma_color(&acc.div_scalar(samples_scalar(samples)))
}

/// The sample count as a scalar, for the averaging division.
fn samples_scalar(samples: u32) -> (r: i64)
    ensures
        r == cl((samples as int) * (ONE as int)),
{
    proof {
        assert((samples as int) * (ONE as int) < 0x1_0000_0000_0000_0000) by (nonlinear_arith)
            requires
                0 <= (samples as int) && (samples as int) < 0x1_0000_0000,
        ;
    }
    crate::fixed::clip128((samples as i128) * (ONE as i128))
}

/// Append buffer row `k` (world row `height - 1 - k`) to the buffer.
#[verifier::rlimit(100)]
fn append_buffer_row(
    pixels: &mut Vec<Vec3>,
    scene: &BvhNode,
    materials: &Vec<Material>,
    camera: &Camera,
    width: usize,
    height: usize,
    k: usize,
    samples: u32,
    seed: u64,
)
    requires
        tree_ok(*scene),
        prims_materials_in(tree_prims(*scene), materials@.len() as int),
        width <= 0x7FFF_FFFF,
        height <= 0x7FFF_FFFF,
        k < height,
        old(pixels)@.len() == k * width,
        old(pixels)@ + buffer_from_spec(
            *camera,
            *scene,
            materials@,
            k as int,
            width as int,
            height as int,
            samples,
            seed,
        ) == render_spec(*camera, *scene, materials@, width as int, height as int, samples, seed),
    ensures
        final(pixels)@.len() == (k + 1) * width,
        final(pixels)@ + buffer_from_spec(
            *camera,
            *scene,
            materials@,
            k + 1,
            width as int,
            height as int,
            samples,
            seed,
        ) == render_spec(*camera, *scene, materials@, width as int, height as int, samples, seed),
{
    let j = height - 1 - k;
    let mut row = render_row(scene, materials, camera, width, height, j, samples, seed);
    proof {
        lemma_row_len(
            *camera,
            *scene,
            materials@,
            0,
            j as int,
            width as int,
            height as int,
            samples,
            stream_seed(seed, j as u64),
        );
    }
    pixels.append(&mut row);
    proof {
        assert((k + 1) * (width as int) == k * (width as int) + width) by (nonlinear_arith);
    }
}

/// Render the whole image sequentially: buffer row `k` (from the top)
/// holds world row `height - 1 - k`, each rendered under its own worker
/// stream of the master seed.
#[verifier::rlimit(100)]
pub fn render(
    scene: &BvhNode,
    materials: &Vec<Material>,
    camera: &Camera,
    width: usize,
    height: usize,
    samples: u32,
    seed: u64,
) -> (pixels: Vec<Vec3>)
    requires
        tree_ok(*scene),
        prims_materials_in(tree_prims(*scene), materials@.len() as int),
        width <= 0x7FFF_FFFF,
        height <= 0x7FFF_FFFF,
    ensures
        pixels@ == render_spec(
            *camera,
            *scene,
            materials@,
            width as int,
            height as int,
            samples,
            seed,
        ),
        pixels@.len() == width * height,
{
    let mut pixels: Vec<Vec3> = Vec::new();
    let mut k: usize = 0;
    while k < height
        invariant
            k <= height,
            width <= 0x7FFF_FFFF,
            height <= 0x7FFF_FFFF,
            tree_ok(*scene),
            prims_materials_in(tree_prims(*scene), materials@.len() as int),
            pixels@.len() == k * width,
            pixels@ + buffer_from_spec(
                *camera,
                *scene,
                materials@,
                k as int,
                width as int,
                height as int,
                samples,
                seed,
            ) == render_spec(
                *camera,
                *scene,
                materials@,
                width as int,
                height as int,
                samples,
                seed,
            ),
        decreases height - k,
    {
        append_buffer_row(&mut pixels, scene, materials, camera, width, height, k, samples, seed);
        k = k + 1;
    }
    proof {
        lemma_buffer_empty_tail(
            *camera,
            *scene,
            materials@,
            height as int,
            width as int,
            height as int,
            samples,
            seed,
        );
        assert(pixels@ + Seq::<Vec3>::empty() == pixels@);
        assert((height as int) * (width as int) == (width as int) * (height as int))
            by (nonlinear_arith);
    }
    pixels
}

/// A row holds one pixel per remaining column.
proof fn lemma_row_len(
    cam: Camera,
    scene: BvhNode,
    mats: Seq<Material>,
    i: int,
    j: int,
    width: int,
    height: int,
    samples: u32,
    state: u64,
)
    ensures
        row_from_spec(cam, scene, mats, i, j, width, height, samples, state).0.len() == if i < 0
            || i >= width {
            0
        } else {
            width - i
        },
    decreases width - i,
{
    if 0 <= i < width {
        let p = pixel_spec(cam, scene, mats, i, j, width, height, samples, state);
        lemma_row_len(cam, scene, mats, i + 1, j, width, height, samples, p.1);
    }
}

proof fn lemma_buffer_empty_tail(
    cam: Camera,
    scene: BvhNode,
    mats: Seq<Material>,
    k: int,
    width: int,
    height: int,
    samples: u32,
    seed: u64,
)
    requires
        k >= height,
    ensures
        buffer_from_spec(cam, scene, mats, k, width, height, samples, seed) == Seq::<
            Vec3,
        >::empty(),
{
}

/// The buffer offset of column `i` in buffer row `kk`, counted from
/// buffer row `k`.
pub open spec fn buf_off(k: int, kk: int, i: int, width: int) -> int {
    (kk - k) * width + i
}

/// The buffer holds `width * height` pixels, and the pixel of buffer row
/// `kk` and column `i` stands at offset `kk * width + i`: the row-major
/// layout, top row first.
#[verifier::rlimit(100)]
pub proof fn lemma_render_layout(
    cam: Camera,
    scene: BvhNode,
    mats: Seq<Material>,
    k: int,
    width: int,
    height: int,
    samples: u32,
    seed: u64,
)
    requires
        0 <= k <= height,
        width >= 0,
    ensures
        buffer_from_spec(cam, scene, mats, k, width, height, samples, seed).len() == (height - k)
            * width,
        forall|kk: int, i: int|
            k <= kk < height && 0 <= i < width ==> #[trigger] buffer_from_spec(
                cam,
                scene,
                mats,
                k,
                width,
                height,
                samples,
                seed,
            )[buf_off(k, kk, i, width)] == row_spec(
                cam,
                scene,
                mats,
                height - 1 - kk,
                width,
                height,
                samples,
                seed,
            )[i],
    decreases height - k,
{
    if k < height {
        lemma_render_layout(cam, scene, mats, k + 1, width, height, samples, seed);
        lemma_row_len(
            cam,
            scene,
            mats,
            0,
            height - 1 - k,
            width,
            height,
            samples,
            stream_seed(seed, (height - 1 - k) as u64),
        );
        let buf = buffer_from_spec(cam, scene, mats, k, width, height, samples, seed);
        let row = row_spec(cam, scene, mats, height - 1 - k, width, height, samples, seed);
        let rest = buffer_from_spec(cam, scene, mats, k + 1, width, height, samples, seed);
        assert(buf == row + rest);
        assert forall|kk: int, i: int| k <= kk < height && 0 <= i < width implies #[trigger] buf[
            buf_off(k, kk, i, width)
        ] == row_spec(
            cam,
            scene,
            mats,
            height - 1 - kk,
            width,
            height,
            samples,
            seed,
        )[i] by {
            if kk == k {
                assert(buf[buf_off(k, kk, i, width)] == row[i]);
            } else {
                assert(buf_off(k, kk, i, width) - width == buf_off(k + 1, kk, i, width))
                    by (nonlinear_arith);
                assert(buf_off(k, kk, i, width) >= width) by (nonlinear_arith)
                    requires
                        kk > k,
                        width > 0,
                        i >= 0,
                ;
                assert(buf_off(k + 1, kk, i, width) < (height - (k + 1)) * width)
                    by (nonlinear_arith)
                    requires
                        k + 1 <= kk < height,
                        0 <= i < width,
                ;
                assert(buf[buf_off(k, kk, i, width)] == rest[buf_off(k + 1, kk, i, width)]);
            }
        }
        assert((height - k) * width == (height - (k + 1)) * width + width) by (nonlinear_arith);
    }
}

/// Rendering is a function of the scene, the camera, the sampling
/// parameters and the seed alone: two renders of the same inputs are
/// bit-identical.
pub proof fn lemma_render_idempotent(
    first: Seq<Vec3>,
    second: Seq<Vec3>,
    cam: Camera,
    scene: BvhNode,
    mats: Seq<Material>,
    width: int,
    height: int,
    samples: u32,
    seed: u64,
)
    requires
        first == render_spec(cam, scene, mats, width, height, samples, seed),
        second == render_spec(cam, scene, mats, width, height, samples, seed),
    ensures
        first == second,
{
}

} // verus!
