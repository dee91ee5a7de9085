//! The fixed-point scalar: exact arithmetic, saturation, and the seeded
//! random draws.

use rand::SeedableRng;
use ray_tracing_utility::fixed::clamp;
use ray_tracing_utility::fixed::Fx;
use ray_tracing_utility::fixed::SCALE;
use ray_tracing_utility::rand_fx;
use ray_tracing_utility::rand_fx_in_range;

fn fx(raw: i64) -> Fx {
    Fx::from_raw(raw)
}

#[test]
fn add_sub_neg_exact() {
    assert_eq!(fx(100).add(fx(28)).raw, 128);
    assert_eq!(fx(100).sub(fx(228)).raw, -128);
    assert_eq!(fx(-300).neg().raw, 300);
    assert_eq!(Fx::from_int(3).raw, 3 * SCALE);
    assert_eq!(Fx::one().raw, SCALE);
    assert_eq!(Fx::zero().raw, 0);
}

#[test]
fn add_saturates_at_the_rails() {
    assert_eq!(fx(i64::MAX).add(fx(1)).raw, i64::MAX);
    assert_eq!(fx(i64::MIN).add(fx(-1)).raw, i64::MIN);
    assert_eq!(fx(i64::MIN).neg().raw, i64::MAX);
}

#[test]
fn mul_truncates_toward_zero() {
    // 2.0 * 3.0 == 6.0
    assert_eq!(Fx::from_int(2).mul(Fx::from_int(3)).raw, 6 * SCALE);
    // 0.5 * 0.5 == 0.25 exactly on the grid
    assert_eq!(fx(32768).mul(fx(32768)).raw, 16384);
    // a positive product below one grid step truncates to zero
    assert_eq!(fx(1).mul(fx(1)).raw, 0);
    // ... and so does its negation (toward zero, not toward minus infinity)
    assert_eq!(fx(-1).mul(fx(1)).raw, 0);
    assert_eq!(fx(-3).mul(fx(65536)).raw, -3);
}

#[test]
fn div_is_exact_on_multiples() {
    assert_eq!(Fx::from_int(6).div(Fx::from_int(3)).raw, 2 * SCALE);
    assert_eq!(Fx::one().div(Fx::from_int(2)).raw, 32768);
    // 16/9 as the default camera computes it
    assert_eq!(Fx::from_int(16).div(Fx::from_int(9)).raw, 116508);
}

#[test]
fn sqrt_matches_floor_square_root() {
    assert_eq!(Fx::from_int(4).sqrt().raw, 2 * SCALE);
    assert_eq!(Fx::from_int(2).sqrt().raw, 92681);
    assert_eq!(Fx::zero().sqrt().raw, 0);
    assert_eq!(Fx::one().sqrt().raw, SCALE);
    // 0.5 -> sqrt(0.5)
    assert_eq!(fx(32768).sqrt().raw, 46340);
}

#[test]
fn comparisons_and_clamp() {
    assert!(fx(5).lt(fx(6)));
    assert!(fx(6).le(fx(6)));
    assert!(fx(7).gt(fx(6)));
    assert!(fx(6).ge(fx(6)));
    assert_eq!(fx(5).min(fx(9)).raw, 5);
    assert_eq!(fx(5).max(fx(9)).raw, 9);
    assert_eq!(fx(-5).abs().raw, 5);
    assert_eq!(clamp(fx(10), fx(0), fx(7)).raw, 7);
    assert_eq!(clamp(fx(-10), fx(0), fx(7)).raw, 0);
    assert_eq!(clamp(fx(3), fx(0), fx(7)).raw, 3);
}

#[test]
fn random_draws_stay_in_their_ranges() {
    let mut rng = rand::rngs::StdRng::seed_from_u64(7);
    for _ in 0..200 {
        let u = rand_fx(&mut rng);
        assert!(0 <= u.raw && u.raw < SCALE);
        // the interval is half-open: its upper end is never drawn
        let v = rand_fx_in_range(fx(-SCALE), fx(SCALE), &mut rng);
        assert!(-SCALE <= v.raw && v.raw < SCALE);
        // an empty interval draws its single point
        let w = rand_fx_in_range(fx(42), fx(42), &mut rng);
        assert_eq!(w.raw, 42);
    }
}

#[test]
fn random_draws_are_reproducible_per_seed() {
    let mut a = rand::rngs::StdRng::seed_from_u64(42);
    let mut b = rand::rngs::StdRng::seed_from_u64(42);
    for _ in 0..32 {
        assert_eq!(rand_fx(&mut a).raw, rand_fx(&mut b).raw);
    }
}
