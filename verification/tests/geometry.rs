//! Ray/sphere intersection and the scene scan: nearest roots, range
//! rejection, normal orientation, and tie-breaking.

use ray_tracing_utility::materials::Lambertian;
use ray_tracing_utility::materials::Material;
use ray_tracing_utility::Fx;
use ray_tracing_utility::HitRecord;
use ray_tracing_utility::HittableList;
use ray_tracing_utility::Ray;
use ray_tracing_utility::Vec3;

const S: i64 = 65536;

fn v(x: i64, y: i64, z: i64) -> Vec3 {
    Vec3::new(Fx::from_raw(x), Fx::from_raw(y), Fx::from_raw(z))
}

fn sphere(center: Vec3, radius_raw: i64, m: Material) -> ray_tracing_utility::hittable::Sphere {
    ray_tracing_utility::hittable::Sphere { center, radius: Fx::from_raw(radius_raw), material: m }
}

fn gray() -> Material {
    Material::Lambertian(Lambertian { albedo: v(32768, 32768, 32768) })
}

fn red() -> Material {
    Material::Lambertian(Lambertian { albedo: v(S, 0, 0) })
}

fn head_on_ray() -> Ray {
    Ray::new(Vec3::from_ints(0, 0, 0), v(0, 0, -S))
}

#[test]
fn head_on_hit_reports_distance_minus_radius() {
    // sphere two units away with radius one half: t == 1.5, normal back
    // along the axis of fire, front face struck
    let s = sphere(Vec3::from_ints(0, 0, -2), 32768, gray());
    let mut rec = HitRecord::default();
    let hit = s.hit(&head_on_ray(), Fx::zero(), Fx::from_raw(i64::MAX), &mut rec);
    assert!(hit);
    assert_eq!(rec.t.raw, 98304);
    assert_eq!(rec.point, v(0, 0, -98304));
    assert_eq!(rec.normal, v(0, 0, S));
    assert!(rec.front_face);
    assert_eq!(rec.material, gray());
}

#[test]
fn normal_is_unit_length_within_tolerance_and_front_face_matches() {
    let s = sphere(Vec3::from_ints(0, 0, -2), 32768, gray());
    let ray = Ray::new(Vec3::from_ints(0, 0, 0), v(6554, 0, -S));
    let mut rec = HitRecord::default();
    assert!(s.hit(&ray, Fx::from_raw(66), Fx::from_raw(i64::MAX), &mut rec));
    assert_eq!(rec.t.raw, 99861);
    assert_eq!(rec.normal, v(19972, 0, 62422));
    let err = (rec.normal.length_squared().raw - S).abs();
    assert!(err <= 8, "normal length squared off by {} raw steps", err);
    // the ray flies toward negative z, the outward normal toward positive
    // z, so their inner product is negative and the front face is struck
    assert!(rec.front_face);
    assert!(ray.direction.dot(rec.normal).raw < 0);
}

#[test]
fn ray_from_inside_strikes_the_back_face_with_a_flipped_normal() {
    let s = sphere(Vec3::from_ints(0, 0, 0), S, gray());
    let mut rec = HitRecord::default();
    assert!(s.hit(&head_on_ray(), Fx::zero(), Fx::from_raw(i64::MAX), &mut rec));
    assert_eq!(rec.t.raw, S);
    assert!(!rec.front_face);
    // the geometric outward normal points along -z there; the stored
    // normal is flipped to face the ray
    assert_eq!(rec.normal, v(0, 0, S));
}

#[test]
fn roots_outside_the_range_are_rejected() {
    let s = sphere(Vec3::from_ints(0, 0, -2), 32768, gray());
    let mut rec = HitRecord::default();
    let before = rec;
    // both roots (1.5 and 2.5) lie above this t_max: no hit, record kept
    assert!(!s.hit(&head_on_ray(), Fx::zero(), Fx::one(), &mut rec));
    assert_eq!(rec, before);
    // a t_min above the near root picks the far one
    assert!(s.hit(&head_on_ray(), Fx::from_raw(100000), Fx::from_raw(i64::MAX), &mut rec));
    assert_eq!(rec.t.raw, 163840);
}

#[test]
fn negative_discriminant_and_degenerate_direction_miss() {
    let s = sphere(Vec3::from_ints(0, 5, -2), 32768, gray());
    let mut rec = HitRecord::default();
    assert!(!s.hit(&head_on_ray(), Fx::zero(), Fx::from_raw(i64::MAX), &mut rec));
    let zero_ray = Ray::new(Vec3::from_ints(0, 0, 0), v(0, 0, 0));
    assert!(!s.hit(&zero_ray, Fx::zero(), Fx::from_raw(i64::MAX), &mut rec));
}

#[test]
fn scene_scan_keeps_the_closest_hit() {
    let mut world = HittableList::default();
    world.add(sphere(Vec3::from_ints(0, 0, -3), 32768, red()));
    world.add(sphere(Vec3::from_ints(0, 0, -2), 32768, gray()));
    let mut rec = HitRecord::default();
    assert!(world.hit(&head_on_ray(), Fx::from_raw(66), Fx::from_raw(i64::MAX), &mut rec));
    // the nearer sphere wins although it was added later
    assert_eq!(rec.t.raw, 98304);
    assert_eq!(rec.material, gray());
}

#[test]
fn exact_distance_ties_go_to_the_later_object() {
    let mut world = HittableList::default();
    world.add(sphere(Vec3::from_ints(0, 0, -2), 32768, red()));
    world.add(sphere(Vec3::from_ints(0, 0, -2), 32768, gray()));
    let mut rec = HitRecord::default();
    assert!(world.hit(&head_on_ray(), Fx::from_raw(66), Fx::from_raw(i64::MAX), &mut rec));
    assert_eq!(rec.t.raw, 98304);
    assert_eq!(rec.material, gray());
}

#[test]
fn empty_scene_misses_and_clear_empties() {
    let mut world = HittableList::default();
    assert_eq!(world.len(), 0);
    let mut rec = HitRecord::default();
    assert!(!world.hit(&head_on_ray(), Fx::zero(), Fx::from_raw(i64::MAX), &mut rec));
    world.add(sphere(Vec3::from_ints(0, 0, -2), 32768, gray()));
    assert_eq!(world.len(), 1);
    world.clear();
    assert_eq!(world.len(), 0);
    assert!(!world.hit(&head_on_ray(), Fx::zero(), Fx::from_raw(i64::MAX), &mut rec));
}

#[test]
fn bare_quadratic_probe_returns_the_near_root_or_minus_one() {
    let ray = head_on_ray();
    let center = Vec3::from_ints(0, 0, -2);
    assert_eq!(ray.hit(&center, Fx::from_raw(32768)).raw, 98304);
    let off_axis = Vec3::from_ints(0, 5, -2);
    assert_eq!(ray.hit(&off_axis, Fx::from_raw(32768)).raw, -S);
}

#[test]
fn default_record_is_blank() {
    let rec = HitRecord::default();
    assert_eq!(rec.point, v(0, 0, 0));
    assert_eq!(rec.normal, v(0, 0, 0));
    assert_eq!(rec.t.raw, 0);
    assert!(rec.front_face);
    assert_eq!(rec.material, Material::Lambertian(Lambertian { albedo: v(0, 0, 0) }));
}

#[test]
fn set_face_normal_flips_against_the_ray() {
    let ray = head_on_ray();
    let mut rec = HitRecord::default();
    rec.set_face_normal(&ray, v(0, 0, S));
    assert!(rec.front_face);
    assert_eq!(rec.normal, v(0, 0, S));
    rec.set_face_normal(&ray, v(0, 0, -S));
    assert!(!rec.front_face);
    assert_eq!(rec.normal, v(0, 0, S));
}
