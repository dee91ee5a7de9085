//! Vector algebra and color helpers: exact expected values for every
//! formula, and the near-zero and display-byte edge cases.

use rand::SeedableRng;
use ray_tracing_utility::Fx;
use ray_tracing_utility::Vec3;

const S: i64 = 65536;

fn v(x: i64, y: i64, z: i64) -> Vec3 {
    Vec3::new(Fx::from_raw(x), Fx::from_raw(y), Fx::from_raw(z))
}

#[test]
fn componentwise_algebra() {
    let a = Vec3::from_ints(1, 2, 3);
    let b = Vec3::from_ints(4, -5, 6);
    assert_eq!(a.add(b), Vec3::from_ints(5, -3, 9));
    assert_eq!(a.sub(b), Vec3::from_ints(-3, 7, -3));
    assert_eq!(a.neg(), Vec3::from_ints(-1, -2, -3));
    assert_eq!(a.mul(b), Vec3::from_ints(4, -10, 18));
    assert_eq!(a.scale(Fx::from_int(2)), Vec3::from_ints(2, 4, 6));
    assert_eq!(b.div(Fx::from_int(2)), v(2 * S, -(5 * S) / 2, 3 * S));
}

#[test]
fn dot_and_cross() {
    let a = Vec3::from_ints(1, 2, 3);
    let b = Vec3::from_ints(4, 5, 6);
    assert_eq!(a.dot(b).raw, 32 * S);
    assert_eq!(a.cross(b), Vec3::from_ints(-3, 6, -3));
    assert_eq!(a.cross(a), Vec3::from_ints(0, 0, 0));
}

#[test]
fn length_of_a_pythagorean_triple_is_exact() {
    let a = Vec3::from_ints(3, 4, 0);
    assert_eq!(a.length_squared().raw, 25 * S);
    assert_eq!(a.length().raw, 5 * S);
}

#[test]
fn unit_vector_has_length_one_within_tolerance() {
    let u = Vec3::from_ints(1, 2, 3).unit();
    assert_eq!(u, v(17515, 35030, 52545));
    let err = (u.length_squared().raw - S).abs();
    assert!(err <= 4, "unit length squared off by {} raw steps", err);
}

#[test]
fn near_zero_uses_magnitudes() {
    assert!(v(0, 0, 0).near_zero());
    assert!(v(15, -15, 15).near_zero());
    assert!(!v(16, 0, 0).near_zero());
    // components far below zero are not "near zero"
    assert!(!Vec3::from_ints(-5, -5, -5).near_zero());
}

#[test]
fn reflect_about_an_axis() {
    let incoming = Vec3::from_ints(1, -1, 0);
    let n = Vec3::from_ints(0, 1, 0);
    assert_eq!(incoming.reflect(n), Vec3::from_ints(1, 1, 0));
}

#[test]
fn refract_head_on_with_matched_index_keeps_the_direction() {
    let d = v(0, 0, -S);
    let n = v(0, 0, S);
    assert_eq!(d.refract(n, Fx::one()), d);
}

#[test]
fn rgb_channels_map_to_the_unit_range() {
    let c = Vec3::rgb(255, 128, 0);
    assert_eq!(c.x.raw, 65280);
    assert_eq!(c.y.raw, 32768);
    assert_eq!(c.z.raw, 0);
}

#[test]
fn to_color_string_gamma_encodes_and_clamps() {
    // the sky-blue color (0.5, 0.7, 1.0) with a single sample
    let c = v(32768, 45875, S);
    assert_eq!(c.to_color_string(1), "181 214 255");
    // black stays black
    assert_eq!(v(0, 0, 0).to_color_string(1), "0 0 0");
    // channels above one clamp to 255, negatives flatten to 0
    assert_eq!(v(10 * S, -S, S).to_color_string(1), "255 0 255");
    // averaging over four samples of 4.0 gives 1.0 -> 255
    assert_eq!(v(4 * S, 0, 4 * S).to_color_string(4), "255 0 255");
}

#[test]
fn ball_and_hemisphere_draws_respect_their_bounds() {
    let mut rng = rand::rngs::StdRng::seed_from_u64(11);
    for _ in 0..50 {
        let p = Vec3::random_in_unit_sphere(&mut rng);
        assert!(p.length_squared().raw < S);
        let n = Vec3::from_ints(0, 1, 0);
        let h = n.random_in_hemisphere(&mut rng);
        assert!(h.dot(n).raw >= 0);
        let q = Vec3::random_in_range(Fx::from_raw(-S), Fx::from_raw(S), &mut rng);
        assert!(q.x.raw.abs() <= S && q.y.raw.abs() <= S && q.z.raw.abs() <= S);
    }
}
