//! Three-component fixed-point vectors, used interchangeably as points,
//! directions and colors. Every operation's result is pinned exactly by a
//! spec-level mirror over the raw component values.

use crate::fixed::fx_add;
use crate::fixed::fx_div;
use crate::fixed::fx_mul;
use crate::fixed::fx_neg;
use crate::fixed::fx_sqrt;
use crate::fixed::fx_sub;
use crate::fixed::lemma_isqrt_bounds;
use crate::fixed::lemma_tdiv_mag;
use crate::fixed::lemma_tdiv_neg;
use crate::fixed::mag;
use crate::fixed::sat64;
use crate::fixed::tdiv;
use crate::fixed::Fx;
use crate::fixed::SCALE;
use crate::rng::rand_fx;
use vstd::arithmetic::div_mod::lemma_div_is_ordered;
use vstd::arithmetic::div_mod::lemma_div_pos_is_pos;
use vstd::prelude::*;

verus! {

/// Components whose magnitude is below this raw threshold count as zero for
/// the scattering fallback; it is a few grid steps of the Q47.16 scale.
pub const NEAR_ZERO_RAW: i64 = 16;

#[derive(Clone, Copy, PartialEq, Eq, Structural, Debug)]
pub struct Vec3 {
    pub x: Fx,
    pub y: Fx,
    pub z: Fx,
}

pub type Point3 = Vec3;

pub type Color = Vec3;

/// The vector with the given raw components, clipped into the `i64` range.
pub open spec fn v3(x: int, y: int, z: int) -> Vec3 {
    Vec3 {
        x: Fx { raw: sat64(x) as i64 },
        y: Fx { raw: sat64(y) as i64 },
        z: Fx { raw: sat64(z) as i64 },
    }
}

/// Componentwise sum.
pub open spec fn vec_add(a: Vec3, b: Vec3) -> Vec3 {
    v3(fx_add(a.x@, b.x@), fx_add(a.y@, b.y@), fx_add(a.z@, b.z@))
}

/// Componentwise difference.
pub open spec fn vec_sub(a: Vec3, b: Vec3) -> Vec3 {
    v3(fx_sub(a.x@, b.x@), fx_sub(a.y@, b.y@), fx_sub(a.z@, b.z@))
}

/// Componentwise negation.
pub open spec fn vec_neg(a: Vec3) -> Vec3 {
    v3(fx_neg(a.x@), fx_neg(a.y@), fx_neg(a.z@))
}

/// Componentwise product.
pub open spec fn vec_cmul(a: Vec3, b: Vec3) -> Vec3 {
    v3(fx_mul(a.x@, b.x@), fx_mul(a.y@, b.y@), fx_mul(a.z@, b.z@))
}

/// Product with a scalar raw value.
pub open spec fn vec_scale(a: Vec3, s: int) -> Vec3 {
    v3(fx_mul(a.x@, s), fx_mul(a.y@, s), fx_mul(a.z@, s))
}

/// Quotient by a scalar raw value.
pub open spec fn vec_div_s(a: Vec3, s: int) -> Vec3 {
    v3(fx_div(a.x@, s), fx_div(a.y@, s), fx_div(a.z@, s))
}

/// Inner product, as a raw scalar value.
pub open spec fn dot_spec(a: Vec3, b: Vec3) -> int {
    fx_add(fx_add(fx_mul(a.x@, b.x@), fx_mul(a.y@, b.y@)), fx_mul(a.z@, b.z@))
}

/// Squared length, as a raw scalar value.
pub open spec fn len_sq_spec(a: Vec3) -> int {
    dot_spec(a, a)
}

/// Length, as a raw scalar value.
pub open spec fn len_spec(a: Vec3) -> int {
    fx_sqrt(len_sq_spec(a))
}

/// The vector scaled to length one (meaningful when the length is nonzero).
pub open spec fn unit_spec(a: Vec3) -> Vec3 {
    vec_div_s(a, len_spec(a))
}

/// Cross product.
pub open spec fn cross_spec(a: Vec3, b: Vec3) -> Vec3 {
    v3(
        fx_sub(fx_mul(a.y@, b.z@), fx_mul(a.z@, b.y@)),
        fx_sub(fx_mul(a.z@, b.x@), fx_mul(a.x@, b.z@)),
        fx_sub(fx_mul(a.x@, b.y@), fx_mul(a.y@, b.x@)),
    )
}

/// Whether every component's magnitude is below the near-zero threshold.
pub open spec fn near_zero_spec(a: Vec3) -> bool {
    mag(a.x@) < NEAR_ZERO_RAW as int && mag(a.y@) < NEAR_ZERO_RAW as int && mag(a.z@)
        < NEAR_ZERO_RAW as int
}

/// Mirror reflection about a surface normal.
pub open spec fn reflect_spec(v: Vec3, n: Vec3) -> Vec3 {
    vec_sub(v, vec_scale(vec_scale(n, dot_spec(v, n)), 2 * SCALE as int))
}

/// Snell refraction of a unit direction `uv` at a surface with normal `n`
/// and refraction ratio `etai` (a raw scalar value).
pub open spec fn refract_spec(uv: Vec3, n: Vec3, etai: int) -> Vec3 {
    let cos_theta = if dot_spec(vec_neg(uv), n) <= SCALE as int {
        dot_spec(vec_neg(uv), n)
    } else {
        SCALE as int
    };
    let r_out_perp = vec_scale(vec_add(uv, vec_scale(n, cos_theta)), etai);
    let r_out_parallel = vec_scale(n, fx_neg(fx_sqrt(sat64(mag(fx_sub(SCALE as int, len_sq_spec(r_out_perp)))))));
    vec_add(r_out_perp, r_out_parallel)
}

/// A display channel in `0..=255` mapped into `[0, 1)`, dividing by the
/// conventional `255.999`.
pub open spec fn rgb_raw(c: int) -> int {
    (c * 65536000) / 255999
}

/// All components lie in `[-1, 1]` and the squared length is below one.
pub open spec fn in_unit_ball(a: Vec3) -> bool {
    &&& -(SCALE as int) <= a.x@ <= SCALE as int
    &&& -(SCALE as int) <= a.y@ <= SCALE as int
    &&& -(SCALE as int) <= a.z@ <= SCALE as int
    &&& len_sq_spec(a) < SCALE as int
}

/// Every component's magnitude is at most `b`.
pub open spec fn bounded_vec(a: Vec3, b: int) -> bool {
    mag(a.x@) <= b && mag(a.y@) <= b && mag(a.z@) <= b
}

/// What the unit-direction sampler can hand back: the normalization of a
/// nonzero draw from the open unit ball, or the positive z axis when the
/// draw degenerates. Such a vector has length one up to the rounding of
/// the normalization itself.
pub open spec fn is_unit_draw(u: Vec3) -> bool {
    ||| exists|p: Vec3|
        #![trigger unit_spec(p)]
        in_unit_ball(p) && len_sq_spec(p) >= 1 && u == unit_spec(p)
    ||| u == v3(0, 0, SCALE as int)
}

/// A square in this arithmetic is never negative.
pub proof fn lemma_fx_square_nonneg(a: int)
    ensures
        fx_mul(a, a) >= 0,
{
    assert(a * a >= 0) by (nonlinear_arith);
    lemma_tdiv_mag(a * a, SCALE as int);
    lemma_div_pos_is_pos(a * a, SCALE as int);
}

/// A squared length in this arithmetic is never negative.
pub proof fn lemma_len_sq_nonneg(a: Vec3)
    ensures
        len_sq_spec(a) >= 0,
{
    lemma_fx_square_nonneg(a.x@);
    lemma_fx_square_nonneg(a.y@);
    lemma_fx_square_nonneg(a.z@);
}

/// A positive squared length gives a positive length.
pub proof fn lemma_len_pos(a: Vec3)
    requires
        len_sq_spec(a) >= 1,
    ensures
        len_spec(a) >= 1,
{
    let n = (len_sq_spec(a) * SCALE) as nat;
    lemma_isqrt_bounds(n);
    assert(n >= SCALE);
}

impl Vec3 {
    /// The vector with the given components.
    pub fn new(x: Fx, y: Fx, z: Fx) -> (r: Vec3)
        ensures
            r == (Vec3 { x, y, z }),
    {
        Vec3 { x, y, z }
    }

    /// The vector holding exactly the given integers.
    pub fn from_ints(x: i32, y: i32, z: i32) -> (r: Vec3)
        ensures
            r == v3(x * SCALE as int, y * SCALE as int, z * SCALE as int),
    {
        Vec3 { x: Fx::from_int(x), y: Fx::from_int(y), z: Fx::from_int(z) }
    }

    /// Componentwise sum.
    pub fn add(self, rhs: Vec3) -> (r: Vec3)
        ensures
            r == vec_add(self, rhs),
    {
        Vec3 { x: self.x.add(rhs.x), y: self.y.add(rhs.y), z: self.z.add(rhs.z) }
    }

    /// Componentwise difference.
    pub fn sub(self, rhs: Vec3) -> (r: Vec3)
        ensures
            r == vec_sub(self, rhs),
    {
        Vec3 { x: self.x.sub(rhs.x), y: self.y.sub(rhs.y), z: self.z.sub(rhs.z) }
    }

    /// Componentwise negation.
    pub fn neg(self) -> (r: Vec3)
        ensures
            r == vec_neg(self),
    {
        Vec3 { x: self.x.neg(), y: self.y.neg(), z: self.z.neg() }
    }

    /// Componentwise product (used for color attenuation).
    pub fn mul(self, rhs: Vec3) -> (r: Vec3)
        ensures
            r == vec_cmul(self, rhs),
    {
        Vec3 { x: self.x.mul(rhs.x), y: self.y.mul(rhs.y), z: self.z.mul(rhs.z) }
    }

    /// Product with a scalar.
    pub fn scale(self, s: Fx) -> (r: Vec3)
        ensures
            r == vec_scale(self, s@),
    {
        Vec3 { x: self.x.mul(s), y: self.y.mul(s), z: self.z.mul(s) }
    }

    /// Quotient by a nonzero scalar.
    pub fn div(self, s: Fx) -> (r: Vec3)
        requires
            s@ != 0,
        ensures
            r == vec_div_s(self, s@),
    {
        Vec3 { x: self.x.div(s), y: self.y.div(s), z: self.z.div(s) }
    }

    /// Inner product.
    pub fn dot(self, target: Vec3) -> (r: Fx)
        ensures
            r@ == dot_spec(self, target),
    {
        self.x.mul(target.x).add(self.y.mul(target.y)).add(self.z.mul(target.z))
    }

    /// Cross product.
    pub fn cross(self, target: Vec3) -> (r: Vec3)
        ensures
            r == cross_spec(self, target),
    {
        Vec3 {
            x: self.y.mul(target.z).sub(self.z.mul(target.y)),
            y: self.z.mul(target.x).sub(self.x.mul(target.z)),
            z: self.x.mul(target.y).sub(self.y.mul(target.x)),
        }
    }

    /// Squared length.
    pub fn length_squared(self) -> (r: Fx)
        ensures
            r@ == len_sq_spec(self),
    {
        self.dot(self)
    }

    /// Length.
    pub fn length(self) -> (r: Fx)
        ensures
            r@ == len_spec(self),
    {
        let sq = self.length_squared();
        proof {
            lemma_len_sq_nonneg(self);
        }
        sq.sqrt()
    }

    /// The vector scaled to length one. The direction must not be
    /// degenerate: normalizing a zero vector is a precondition violation,
    /// not a recovered error.
    pub fn unit(self) -> (r: Vec3)
        requires
            len_spec(self) != 0,
        ensures
            r == unit_spec(self),
    {
        let len = self.length();
        self.div(len)
    }

    /// The color with the given display channels in `0..=255`.
    pub fn rgb(r: i32, g: i32, b: i32) -> (c: Vec3)
        requires
            0 <= r,
            0 <= g,
            0 <= b,
        ensures
            c.x@ == rgb_raw(r as int),
            c.y@ == rgb_raw(g as int),
            c.z@ == rgb_raw(b as int),
    {
        Vec3 { x: rgb_channel(r), y: rgb_channel(g), z: rgb_channel(b) }
    }

    /// This pixel's display line: the three channels averaged over the
    /// sample count, gamma-encoded, clamped and scaled to display bytes,
    /// separated by single spaces.
    pub fn to_color_string(self, samples_per_pixel: i32) -> (s: String)
        requires
            samples_per_pixel >= 1,
        ensures
            s@ == crate::ppm::pixel_chars(self, samples_per_pixel as int),
    {
        crate::ppm::pixel_string(self, samples_per_pixel)
    }

    /// Whether every component is within the near-zero threshold of zero.
    pub fn near_zero(self) -> (r: bool)
        ensures
            r == near_zero_spec(self),
    {
        self.x.abs().raw < NEAR_ZERO_RAW && self.y.abs().raw < NEAR_ZERO_RAW && self.z.abs().raw
            < NEAR_ZERO_RAW
    }

    /// Mirror reflection about `normal`.
    pub fn reflect(self, normal: Vec3) -> (r: Vec3)
        ensures
            r == reflect_spec(self, normal),
    {
        let two = Fx::from_raw(2 * SCALE);
        self.sub(normal.scale(self.dot(normal)).scale(two))
    }

    /// Snell refraction of this (unit) direction at a surface with normal
    /// `normal` and refraction ratio `etai_over_etat`.
    pub fn refract(self, normal: Vec3, etai_over_etat: Fx) -> (r: Vec3)
        ensures
            r == refract_spec(self, normal, etai_over_etat@),
    {
        let cos_theta = self.neg().dot(normal).min(Fx::one());
        let r_out_perp = self.add(normal.scale(cos_theta)).scale(etai_over_etat);
        let back = Fx::one().sub(r_out_perp.length_squared()).abs();
        proof {
            assert(back@ >= 0);
        }
        let r_out_parallel = normal.scale(back.sqrt().neg());
        r_out_perp.add(r_out_parallel)
    }

    /// A color whose channels are drawn uniformly from `[0, 1)`.
    pub fn random(rng: &mut rand::rngs::StdRng) -> (r: Vec3)
        ensures
            0 <= r.x@ < SCALE as int,
            0 <= r.y@ < SCALE as int,
            0 <= r.z@ < SCALE as int,
    {
        Vec3 { x: rand_fx(rng), y: rand_fx(rng), z: rand_fx(rng) }
    }

    /// A vector whose components are drawn from `[low, high]`.
    pub fn random_in_range(low: Fx, high: Fx, rng: &mut rand::rngs::StdRng) -> (r: Vec3)
        requires
            low@ <= high@,
        ensures
            low@ <= r.x@ <= high@,
            low@ <= r.y@ <= high@,
            low@ <= r.z@ <= high@,
    {
        Vec3 {
            x: crate::rng::rand_fx_in_range(low, high, rng),
            y: crate::rng::rand_fx_in_range(low, high, rng),
            z: crate::rng::rand_fx_in_range(low, high, rng),
        }
    }

    /// A vector drawn from the open unit ball, by rejection sampling with a
    /// deterministic in-ball fallback after too many rejections.
    pub fn random_in_unit_sphere(rng: &mut rand::rngs::StdRng) -> (r: Vec3)
        ensures
            in_unit_ball(r),
    {
        let low = Fx::from_raw(-SCALE);
        let high = Fx::from_raw(SCALE);
        let mut tries: u32 = 0;
        while tries < 64
            invariant
                tries <= 64,
                low@ == -(SCALE as int),
                high@ == SCALE as int,
            decreases 64 - tries,
        {
            let p = Vec3::random_in_range(low, high, rng);
            if p.length_squared().lt(Fx::one()) {
                return p;
            }
            tries = tries + 1;
        }
        let r = Vec3 { x: Fx::zero(), y: Fx::zero(), z: Fx::from_raw(SCALE / 2) };
        proof {
            lemma_tdiv_mag(32768int * 32768int, SCALE as int);
            assert(fx_mul(0, 0) == 0) by {
                lemma_tdiv_mag(0int, SCALE as int);
            }
            assert(len_sq_spec(r) < SCALE as int);
        }
        r
    }

    /// A direction drawn by normalizing a nonzero ball sample; a degenerate
    /// draw falls back to the positive z axis. Whatever the draw, the
    /// result is one of the normalized-ball directions `is_unit_draw`
    /// describes.
    pub fn random_unit_vec(rng: &mut rand::rngs::StdRng) -> (r: Vec3)
        ensures
            is_unit_draw(r),
    {
        let p = Vec3::random_in_unit_sphere(rng);
        if p.length_squared().gt(Fx::zero()) {
            proof {
                lemma_len_pos(p);
            }
            let u = p.unit();
            proof {
                assert(in_unit_ball(p) && len_sq_spec(p) >= 1 && u == unit_spec(p));
            }
            u
        } else {
            Vec3 { x: Fx::zero(), y: Fx::zero(), z: Fx::one() }
        }
    }

    /// A ball sample flipped, if needed, into the hemisphere around this
    /// vector: the result never points against `self`.
    pub fn random_in_hemisphere(self, rng: &mut rand::rngs::StdRng) -> (r: Vec3)
        requires
            bounded_vec(self, 0x10000000000),
        ensures
            in_unit_ball(r),
            dot_spec(r, self) >= 0,
    {
        let in_unit_sphere = Vec3::random_in_unit_sphere(rng);
        if in_unit_sphere.dot(self).ge(Fx::zero()) {
            in_unit_sphere
        } else {
            proof {
                lemma_dot_neg_small(in_unit_sphere, self);
                lemma_neg_in_ball(in_unit_sphere);
            }
            in_unit_sphere.neg()
        }
    }
}

impl Default for Vec3 {
    /// The zero vector.
    fn default() -> (r: Self)
        ensures
            r == v3(0, 0, 0),
    {
        Vec3 { x: Fx::zero(), y: Fx::zero(), z: Fx::zero() }
    }
}

/// One display channel mapped into `[0, 1)`.
fn rgb_channel(c: i32) -> (r: Fx)
    requires
        0 <= c,
    ensures
        r@ == rgb_raw(c as int),
{
    let raw = ((c as u64) * 65536000) / 255999;
    Fx::from_raw(raw as i64)
}

/// A drawn unit direction is near unit length: every component stays
/// within two whole units even through the normalization's rounding.
pub proof fn lemma_unit_draw_bounded(u: Vec3)
    requires
        is_unit_draw(u),
    ensures
        bounded_vec(u, 2 * SCALE as int),
{
    if u == v3(0, 0, SCALE as int) {
    } else {
        let p = choose|p: Vec3|
            #![trigger unit_spec(p)]
            in_unit_ball(p) && len_sq_spec(p) >= 1 && u == unit_spec(p);
        lemma_unit_bounded(p);
    }
}

/// A component divided by the vector's length cannot land far outside the
/// unit range: with the squared length `l` in range, no component's square
/// reaches `(l + 1) * SCALE`, which presses the quotient under two whole
/// units even where the floor square root and the truncating division both
/// round against us.
proof fn lemma_unit_comp(c: int, l: int, len: int)
    requires
        1 <= l,
        c * c < (l + 1) * (SCALE as int),
        len * len <= l * (SCALE as int),
        l * (SCALE as int) < (len + 1) * (len + 1),
        len >= 1,
    ensures
        mag(fx_div(c, len)) <= 2 * SCALE as int,
{
    assert(c * c < 2 * ((len + 1) * (len + 1)));
    assert(mag(c) * mag(c) == c * c) by (nonlinear_arith);
    assert(mag(c) <= 2 * len) by (nonlinear_arith)
        requires
            mag(c) * mag(c) == c * c,
            c * c < 2 * ((len + 1) * (len + 1)),
            len >= 1,
            mag(c) >= 0,
    ;
    lemma_tdiv_mag(c * (SCALE as int), len);
    assert(mag(c * (SCALE as int)) == mag(c) * (SCALE as int)) by (nonlinear_arith);
    assert(mag(c) * (SCALE as int) <= (2 * len) * (SCALE as int)) by (nonlinear_arith)
        requires
            mag(c) <= 2 * len,
    ;
    lemma_div_is_ordered(mag(c) * (SCALE as int), (2 * len) * (SCALE as int), len);
    vstd::arithmetic::div_mod::lemma_div_multiples_vanish(2 * SCALE as int, len);
    assert((2 * len) * (SCALE as int) == len * (2 * SCALE as int)) by (nonlinear_arith);
}

/// Normalizing cannot overshoot far: when the squared length is at least
/// one raw step and below saturation, every component of the normalized
/// vector has magnitude at most two whole units.
pub proof fn lemma_unit_bounded(v: Vec3)
    requires
        1 <= len_sq_spec(v),
        len_sq_spec(v) < i64::MAX as int,
    ensures
        bounded_vec(unit_spec(v), 2 * SCALE as int),
{
    let l = len_sq_spec(v);
    let m1 = fx_mul(v.x@, v.x@);
    let m2 = fx_mul(v.y@, v.y@);
    let m3 = fx_mul(v.z@, v.z@);
    lemma_fx_square_nonneg(v.x@);
    lemma_fx_square_nonneg(v.y@);
    lemma_fx_square_nonneg(v.z@);
    // below saturation, the sum is exact and each square is at most `l`
    assert(m1 + m2 <= i64::MAX as int && l == m1 + m2 + m3);
    lemma_square_partial(v.x@, m1, l);
    lemma_square_partial(v.y@, m2, l);
    lemma_square_partial(v.z@, m3, l);
    let len = len_spec(v);
    crate::fixed::lemma_isqrt_bounds((l * SCALE) as nat);
    assert(len * len <= l * (SCALE as int) && l * (SCALE as int) < (len + 1) * (len + 1));
    assert(len >= 1) by {
        if len == 0 {
            assert((len + 1) * (len + 1) == 1) by (nonlinear_arith)
                requires
                    len == 0,
            ;
        }
    }
    lemma_unit_comp(v.x@, l, len);
    lemma_unit_comp(v.y@, l, len);
    lemma_unit_comp(v.z@, l, len);
}

/// A fixed-point square that stays below saturation bounds its base: the
/// true square is below `(m + 1) * SCALE` for the computed square `m`.
proof fn lemma_square_partial(c: int, m: int, l: int)
    requires
        m == fx_mul(c, c),
        0 <= m <= l,
        l < i64::MAX as int,
    ensures
        c * c < (l + 1) * (SCALE as int),
{
    assert(c * c >= 0) by (nonlinear_arith);
    lemma_tdiv_mag(c * c, SCALE as int);
    vstd::arithmetic::div_mod::lemma_fundamental_div_mod(c * c, SCALE as int);
    vstd::arithmetic::div_mod::lemma_mod_bound(c * c, SCALE as int);
    assert(tdiv(c * c, SCALE as int) == (c * c) / (SCALE as int));
    assert((c * c) / (SCALE as int) <= l);
    assert((SCALE as int) * ((c * c) / (SCALE as int)) <= (SCALE as int) * l) by (nonlinear_arith)
        requires
            (c * c) / (SCALE as int) <= l,
    ;
}

/// An index-matched interface does not bend a head-on ray: with a
/// refraction ratio of one, refracting the unit direction straight into
/// the surface returns that direction unchanged. (The grid cannot promise
/// this for every oblique direction - the cosine and the square root may
/// each round by one grid step - so the law is stated where the
/// computation is exact.)
pub proof fn lemma_index_matched_head_on()
    ensures
        refract_spec(v3(0, 0, -(SCALE as int)), v3(0, 0, SCALE as int), SCALE as int) == v3(
            0,
            0,
            -(SCALE as int),
        ),
{
    let s = SCALE as int;
    let uv = v3(0, 0, -s);
    let n = v3(0, 0, s);
    crate::fixed::lemma_tdiv_exact(s, s);
    crate::fixed::lemma_tdiv_exact(-s, s);
    crate::fixed::lemma_tdiv_exact(0, s);
    assert(fx_mul(0, 0) == 0);
    assert(fx_mul(0, s) == 0);
    assert(fx_mul(s, s) == s);
    assert(fx_mul(s, -s) == -s);
    assert(vec_neg(uv) == v3(0, 0, s));
    assert(dot_spec(vec_neg(uv), n) == s);
    assert(vec_scale(n, s) == v3(0, 0, s));
    assert(vec_add(uv, vec_scale(n, s)) == v3(0, 0, 0));
    assert(vec_scale(v3(0, 0, 0), s) == v3(0, 0, 0));
    assert(len_sq_spec(v3(0, 0, 0)) == 0);
    assert(fx_sub(s, 0) == s);
    crate::fixed::lemma_isqrt_exact(SCALE as nat);
    assert(fx_sqrt(s) == s);
    assert(fx_neg(s) == -s);
    assert(vec_scale(n, fx_neg(fx_sqrt(sat64(mag(fx_sub(s, 0)))))) == v3(0, 0, -s));
    assert(vec_add(v3(0, 0, 0), v3(0, 0, -s)) == v3(0, 0, -s));
}

/// Negating a ball vector keeps it in the ball.
proof fn lemma_neg_in_ball(p: Vec3)
    requires
        in_unit_ball(p),
    ensures
        in_unit_ball(vec_neg(p)),
{
    lemma_mul_neg_small(p.x@, p.x@);
    lemma_mul_neg_small(p.y@, p.y@);
    lemma_mul_neg_small(p.z@, p.z@);
}

/// For magnitudes within the unit range, the fixed-point product of two
/// negations is the product itself, and one negation flips the product.
proof fn lemma_mul_neg_small(a: int, b: int)
    requires
        mag(a) <= SCALE as int,
        mag(b) <= SCALE as int,
    ensures
        fx_mul(fx_neg(a), fx_neg(b)) == fx_mul(a, b),
        fx_mul(fx_neg(a), b) == -fx_mul(a, b),
{
    assert((-a) * (-b) == a * b) by (nonlinear_arith);
    assert((-a) * b == -(a * b)) by (nonlinear_arith);
    assert(mag(a * b) <= SCALE * SCALE) by (nonlinear_arith)
        requires
            mag(a) <= SCALE as int,
            mag(b) <= SCALE as int,
    ;
    lemma_tdiv_neg(a * b, SCALE as int);
    lemma_tdiv_mag(a * b, SCALE as int);
    lemma_div_is_ordered(mag(a * b), SCALE * SCALE, SCALE as int);
}

/// For a ball vector against a moderately bounded vector, negating the ball
/// vector negates the inner product exactly (no saturation can occur).
proof fn lemma_dot_neg_small(p: Vec3, n: Vec3)
    requires
        in_unit_ball(p),
        bounded_vec(n, 0x10000000000),
    ensures
        dot_spec(vec_neg(p), n) == -dot_spec(p, n),
{
    lemma_mul_neg_bounded(p.x@, n.x@);
    lemma_mul_neg_bounded(p.y@, n.y@);
    lemma_mul_neg_bounded(p.z@, n.z@);
}

/// For a unit-range magnitude against a moderately bounded one, the
/// fixed-point product stays far from saturation and negation flips it.
proof fn lemma_mul_neg_bounded(a: int, b: int)
    requires
        mag(a) <= SCALE as int,
        mag(b) <= 0x10000000000,
    ensures
        fx_mul(fx_neg(a), b) == -fx_mul(a, b),
        mag(fx_mul(a, b)) <= 0x20000000000,
{
    assert((-a) * b == -(a * b)) by (nonlinear_arith);
    assert(mag(a * b) <= 0x200000000000000) by (nonlinear_arith)
        requires
            mag(a) <= SCALE as int,
            mag(b) <= 0x10000000000,
    ;
    lemma_tdiv_neg(a * b, SCALE as int);
    lemma_tdiv_mag(a * b, SCALE as int);
    lemma_div_is_ordered(mag(a * b), 0x200000000000000, SCALE as int);
}

} // verus!
