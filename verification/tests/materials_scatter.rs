//! The scattering rules: diffuse rays always survive with a usable
//! direction, metal absorbs exactly the rays that would enter the surface,
//! and a dielectric reflects or refracts as the Fresnel draw and total
//! internal reflection dictate.

use rand::SeedableRng;
use ray_tracing_utility::materials::Dielectric;
use ray_tracing_utility::materials::Lambertian;
use ray_tracing_utility::materials::Metal;
use ray_tracing_utility::Fx;
use ray_tracing_utility::HitRecord;
use ray_tracing_utility::Ray;
use ray_tracing_utility::Vec3;

const S: i64 = 65536;

fn v(x: i64, y: i64, z: i64) -> Vec3 {
    Vec3::new(Fx::from_raw(x), Fx::from_raw(y), Fx::from_raw(z))
}

fn record_at(point: Vec3, normal: Vec3, front_face: bool) -> HitRecord {
    let mut rec = HitRecord::default();
    rec.point = point;
    rec.normal = normal;
    rec.front_face = front_face;
    rec
}

#[test]
fn lambertian_never_absorbs_and_never_degenerates() {
    let m = Lambertian::new(128, 64, 32);
    let rec = record_at(Vec3::from_ints(0, 0, -1), v(0, 0, S), true);
    let ray_in = Ray::new(Vec3::from_ints(0, 0, 0), v(0, 0, -S));
    for seed in 0..100u64 {
        let mut rng = rand::rngs::StdRng::seed_from_u64(seed);
        let mut attenuation = Vec3::from_ints(0, 0, 0);
        let mut scattered = Ray::new(Vec3::from_ints(0, 0, 0), Vec3::from_ints(0, 0, 0));
        let ok = m.scatter(&ray_in, &rec, &mut attenuation, &mut scattered, &mut rng);
        assert!(ok);
        assert_eq!(attenuation, m.albedo);
        assert_eq!(scattered.origin, rec.point);
        assert!(!scattered.direction.near_zero());
    }
}

#[test]
fn metal_absorbs_exactly_the_rays_that_stay_under_the_surface() {
    let rec = record_at(Vec3::from_ints(0, 0, -1), v(0, S, 0), true);
    for seed in 0..50u64 {
        let mut rng = rand::rngs::StdRng::seed_from_u64(seed);
        // fuzz one: the perturbed reflection may or may not leave the
        // surface, but the verdict always matches the sign of the dot
        let m = Metal::new(200, 200, 200, Fx::one());
        let ray_in = Ray::new(Vec3::from_ints(0, 1, 0), v(S, -S, 0));
        let mut attenuation = Vec3::from_ints(0, 0, 0);
        let mut scattered = Ray::new(Vec3::from_ints(0, 0, 0), Vec3::from_ints(0, 0, 0));
        let ok = m.scatter(&ray_in, &rec, &mut attenuation, &mut scattered, &mut rng);
        assert_eq!(ok, scattered.direction.dot(rec.normal).raw > 0);
        assert_eq!(attenuation, m.albedo);
    }
}

#[test]
fn polished_metal_reflects_about_the_normal() {
    let m = Metal::new(200, 200, 200, Fx::zero());
    let rec = record_at(Vec3::from_ints(0, 0, 0), v(0, S, 0), true);
    let ray_in = Ray::new(Vec3::from_ints(-1, 1, 0), v(S, -S, 0));
    let mut rng = rand::rngs::StdRng::seed_from_u64(3);
    let mut attenuation = Vec3::from_ints(0, 0, 0);
    let mut scattered = Ray::new(Vec3::from_ints(0, 0, 0), Vec3::from_ints(0, 0, 0));
    assert!(m.scatter(&ray_in, &rec, &mut attenuation, &mut scattered, &mut rng));
    // the unit reflection of (1,-1,0)/|..| about +y
    assert_eq!(scattered.direction, v(46341, 46341, 0));
}

#[test]
fn metal_fuzz_is_clamped_to_one() {
    assert_eq!(Metal::new(1, 2, 3, Fx::from_int(5)).fuzz.raw, S);
    assert_eq!(Metal::new(1, 2, 3, Fx::from_raw(100)).fuzz.raw, 100);
}

#[test]
fn index_matched_dielectric_keeps_a_head_on_ray() {
    let m = Dielectric::new(Fx::one());
    let rec = record_at(Vec3::from_ints(0, 0, -1), v(0, 0, S), true);
    let ray_in = Ray::new(Vec3::from_ints(0, 0, 0), v(0, 0, -S));
    for seed in 0..20u64 {
        let mut rng = rand::rngs::StdRng::seed_from_u64(seed);
        let mut attenuation = Vec3::from_ints(0, 0, 0);
        let mut scattered = Ray::new(Vec3::from_ints(0, 0, 0), Vec3::from_ints(0, 0, 0));
        assert!(m.scatter(&ray_in, &rec, &mut attenuation, &mut scattered, &mut rng));
        // opaque white attenuation, and no bending whatever the draw
        assert_eq!(attenuation, Vec3::from_ints(1, 1, 1));
        assert_eq!(scattered.direction, v(0, 0, -S));
    }
}

#[test]
fn total_internal_reflection_forces_a_reflection() {
    // leaving glass (back face, ratio 1.5) at a grazing angle: the
    // refraction ratio times the sine exceeds one, so the ray must
    // reflect, whatever the random draw
    let m = Dielectric::new(Fx::from_raw(98304));
    let n = v(0, S, 0);
    let rec = record_at(Vec3::from_ints(0, 0, 0), n, false);
    let dir = v(52429, -39322, 0);
    let ray_in = Ray::new(Vec3::from_ints(0, 1, 0), dir);
    let expected = dir.unit().reflect(n);
    for seed in 0..20u64 {
        let mut rng = rand::rngs::StdRng::seed_from_u64(seed);
        let mut attenuation = Vec3::from_ints(0, 0, 0);
        let mut scattered = Ray::new(Vec3::from_ints(0, 0, 0), Vec3::from_ints(0, 0, 0));
        assert!(m.scatter(&ray_in, &rec, &mut attenuation, &mut scattered, &mut rng));
        assert_eq!(scattered.direction, expected);
        assert!(scattered.direction.y.raw > 0);
    }
}

#[test]
fn shared_references_keep_their_value() {
    let l = Lambertian::new(10, 20, 30);
    assert_eq!(*l.as_ref(), l);
    let m = Metal::new(1, 2, 3, Fx::zero());
    assert_eq!(*m.as_ref(), m);
    let d = Dielectric::new(Fx::from_raw(98304));
    assert_eq!(*d.as_ref(), d);
}
