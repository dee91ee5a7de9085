//! The camera and the sampling driver: deterministic rays, the exact
//! background image, depth exhaustion, single-sample averaging, and the
//! seeded end-to-end regression.

use rand::SeedableRng;
use ray_tracing_utility::hittable::Sphere;
use ray_tracing_utility::materials::Lambertian;
use ray_tracing_utility::materials::Material;
use ray_tracing_utility::render::render;
use ray_tracing_utility::render::sample_pixel;
use ray_tracing_utility::Camera;
use ray_tracing_utility::Fx;
use ray_tracing_utility::HittableList;
use ray_tracing_utility::Vec3;

const S: i64 = 65536;

fn v(x: i64, y: i64, z: i64) -> Vec3 {
    Vec3::new(Fx::from_raw(x), Fx::from_raw(y), Fx::from_raw(z))
}

fn rng_from(seed: u64) -> rand::rngs::StdRng {
    rand::rngs::StdRng::seed_from_u64(seed)
}

fn two_sphere_scene() -> HittableList {
    let gray = Material::Lambertian(Lambertian { albedo: v(32768, 32768, 32768) });
    let mut world = HittableList::default();
    world.add(Sphere {
        center: v(0, -6586368, -S),
        radius: Fx::from_int(100),
        material: gray,
    });
    world.add(Sphere { center: Vec3::from_ints(0, 0, -1), radius: Fx::from_raw(32768), material: gray });
    world
}

fn fnv1a(s: &str) -> u64 {
    let mut h: u64 = 0xcbf29ce484222325;
    for b in s.bytes() {
        h ^= b as u64;
        h = h.wrapping_mul(0x100000001b3);
    }
    h
}

#[test]
fn default_camera_geometry_and_center_ray() {
    let cam = Camera::new();
    assert_eq!(cam.origin, v(0, 0, 0));
    assert_eq!(cam.lower_left_corner, v(-116508, -S, -S));
    assert_eq!(cam.horizontal, v(233016, 0, 0));
    assert_eq!(cam.vertical, v(0, 2 * S, 0));
    let ray = cam.get_ray(Fx::from_raw(32768), Fx::from_raw(32768));
    assert_eq!(ray.origin, v(0, 0, 0));
    assert_eq!(ray.direction, v(0, 0, -S));
}

#[test]
fn aimed_camera_builds_an_orthonormal_viewport() {
    let cam = Camera::look_from_at(
        Vec3::from_ints(0, 0, 0),
        Vec3::from_ints(0, 0, -1),
        Vec3::from_ints(0, 1, 0),
        Fx::one(),
        Fx::one(),
        Fx::one(),
    );
    assert_eq!(cam.origin, v(0, 0, 0));
    assert_eq!(cam.horizontal, v(2 * S, 0, 0));
    assert_eq!(cam.vertical, v(0, 2 * S, 0));
    assert_eq!(cam.lower_left_corner, v(-S, -S, -S));
    let ray = cam.get_ray(Fx::from_raw(32768), Fx::from_raw(32768));
    assert_eq!(ray.direction, v(0, 0, -S));
    // a degenerate view direction falls back to the default camera
    let degenerate = Camera::look_from_at(
        Vec3::from_ints(1, 2, 3),
        Vec3::from_ints(1, 2, 3),
        Vec3::from_ints(0, 1, 0),
        Fx::one(),
        Fx::one(),
        Fx::one(),
    );
    assert_eq!(degenerate, Camera::new());
}

#[test]
fn degrees_to_radians_of_a_half_turn_is_pi() {
    assert_eq!(ray_tracing_utility::degrees_to_radians(Fx::from_int(180)).raw, 205887);
}

#[test]
fn background_rays_hit_the_exact_gradient_colors() {
    let world = HittableList::default();
    let mut rng = rng_from(1);
    let up = ray_tracing_utility::Ray::new(v(0, 0, 0), v(0, S, 0));
    let down = ray_tracing_utility::Ray::new(v(0, 0, 0), v(0, -S, 0));
    let sky = up.calc_color(&world, 10, &mut rng);
    let ground = down.calc_color(&world, 10, &mut rng);
    assert_eq!(sky, v(32768, 45875, S));
    assert_eq!(ground, v(S, S, S));
    assert_eq!(sky.to_color_string(1), "181 214 255");
    assert_eq!(ground.to_color_string(1), "255 255 255");
}

#[test]
fn background_only_render_is_byte_exact() {
    let world = HittableList::default();
    let cam = Camera::new();
    let mut rng = rng_from(5);
    let img = render(&world, &cam, 2, 2, 1, 10, false, &mut rng);
    assert_eq!(img, "P3\n2 2\n255\n221 236 255\n221 236 255\n237 245 255\n246 250 255\n");
}

#[test]
fn single_sample_average_equals_the_raw_sample() {
    let world = HittableList::default();
    let cam = Camera::new();
    let mut rng = rng_from(9);
    let c = sample_pixel(&world, &cam, 0, 0, 2, 2, 1, 10, false, &mut rng);
    // the same deterministic ray, traced once by hand
    let u = Fx::from_int(0).div(Fx::from_int(2));
    let w = Fx::from_int(0).div(Fx::from_int(2));
    let single = cam.get_ray(u, w).calc_color(&world, 10, &mut rng);
    assert_eq!(c, single);
    assert_eq!(c.to_color_string(1), single.to_color_string(1));
}

#[test]
fn depth_exhaustion_yields_black_everywhere() {
    let world = two_sphere_scene();
    let cam = Camera::new();
    let mut rng = rng_from(3);
    // a ray that squarely hits the unit sphere still comes back black
    let ray = ray_tracing_utility::Ray::new(v(0, 0, 0), v(0, 0, -S));
    assert_eq!(ray.calc_color(&world, 0, &mut rng), v(0, 0, 0));
    let c = sample_pixel(&world, &cam, 1, 1, 2, 2, 4, 0, false, &mut rng);
    assert_eq!(c.to_color_string(4), "0 0 0");
}

#[test]
fn random_scene_is_reproducible_per_seed() {
    let mut a = rng_from(2022);
    let mut b = rng_from(2022);
    let wa = ray_tracing_utility::random_scene(&mut a);
    let wb = ray_tracing_utility::random_scene(&mut b);
    assert!(wa.len() >= 4);
    assert_eq!(wa.len(), wb.len());
}

#[test]
fn traced_colors_stay_near_the_display_range() {
    // over a scene of bounded albedos no bounce amplifies radiance: every
    // traced channel stays within one unit below zero and three above
    let world = two_sphere_scene();
    let mut rng = rng_from(13);
    for k in 0..200i64 {
        let dir = v(((k * 37) % 131 - 65) * 997, ((k * 53) % 131 - 65) * 997, -S);
        let ray = ray_tracing_utility::Ray::new(v(0, 0, 0), dir);
        let c = ray.calc_color(&world, 50, &mut rng);
        for ch in [c.x.raw, c.y.raw, c.z.raw] {
            assert!(-S <= ch && ch <= 3 * S, "channel {} out of bounds", ch);
        }
    }
}

#[test]
fn two_sphere_regression_small_image() {
    let world = two_sphere_scene();
    let cam = Camera::new();
    let mut rng = rng_from(7);
    let img = render(&world, &cam, 4, 2, 1, 50, false, &mut rng);
    println!("small image:\n{}", img);
    assert_eq!(
        img,
        "P3\n4 2\n255\n221 236 255\n221 236 255\n77 82 90\n221 236 255\n130 152 181\n128 151 181\n128 151 181\n130 152 181\n"
    );
}

#[test]
fn two_sphere_regression_full_frame_checksum() {
    let world = two_sphere_scene();
    let cam = Camera::new();
    let mut rng = rng_from(20220101);
    let img = render(&world, &cam, 400, 225, 1, 50, false, &mut rng);
    assert!(img.starts_with("P3\n400 225\n255\n"));
    assert_eq!(img.lines().count(), 3 + 400 * 225);
    let sum = fnv1a(&img);
    assert_eq!(sum, 0xf482bc2108482421);
}
