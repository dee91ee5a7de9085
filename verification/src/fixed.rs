//! The scalar type of the tracer: a Q47.16 fixed-point number stored in an
//! `i64`. All operations saturate at the `i64` range instead of overflowing,
//! and every operation's result is pinned exactly, as an integer expression
//! over the raw representations.

use vstd::arithmetic::div_mod::lemma_fundamental_div_mod;
use vstd::arithmetic::div_mod::lemma_mod_bound;
use vstd::prelude::*;

verus! {

/// Number of raw units per 1.0; the scalar has 16 fractional bits.
pub const SCALE: i64 = 65536;

/// Magnitude of an unbounded integer.
pub open spec fn mag(a: int) -> int {
    if a >= 0 {
        a
    } else {
        -a
    }
}

/// Saturation of an unbounded integer into the `i64` range.
pub open spec fn sat64(x: int) -> int {
    if x > i64::MAX as int {
        i64::MAX as int
    } else if x < i64::MIN as int {
        i64::MIN as int
    } else {
        x
    }
}

/// Division rounding toward zero, as the hardware divides; meaningful for
/// `b != 0`.
pub open spec fn tdiv(a: int, b: int) -> int {
    if (a >= 0) == (b >= 0) {
        mag(a) / mag(b)
    } else {
        -(mag(a) / mag(b))
    }
}

/// Floor of the square root of a natural number, by the classical
/// digit-by-digit recurrence.
pub open spec fn isqrt_spec(n: nat) -> nat
    decreases n,
{
    if n < 1 {
        0
    } else {
        let s = isqrt_spec(n / 4);
        if (2 * s + 1) * (2 * s + 1) <= n {
            2 * s + 1
        } else {
            2 * s
        }
    }
}

/// `isqrt_spec` is the floor square root: it is the unique `r` with
/// `r * r <= n < (r + 1) * (r + 1)`.
pub proof fn lemma_isqrt_bounds(n: nat)
    ensures
        isqrt_spec(n) * isqrt_spec(n) <= n,
        n < (isqrt_spec(n) + 1) * (isqrt_spec(n) + 1),
    decreases n,
{
    if n < 1 {
        assert(isqrt_spec(n) == 0);
        assert((isqrt_spec(n) + 1) * (isqrt_spec(n) + 1) == 1) by (nonlinear_arith)
            requires
                isqrt_spec(n) == 0,
        ;
    } else {
        let m = n / 4;
        lemma_isqrt_bounds(m);
        let s = isqrt_spec(m);
        lemma_fundamental_div_mod(n as int, 4);
        lemma_mod_bound(n as int, 4);
        assert(n == 4 * m + n % 4 && n % 4 < 4);
        assert((2 * s) * (2 * s) == 4 * (s * s)) by (nonlinear_arith);
        assert((2 * s + 2) * (2 * s + 2) == 4 * ((s + 1) * (s + 1))) by (nonlinear_arith);
        assert(4 * (s * s) <= 4 * m) by (nonlinear_arith)
            requires
                s * s <= m,
        ;
        assert(4 * m + 4 <= 4 * ((s + 1) * (s + 1))) by (nonlinear_arith)
            requires
                m < (s + 1) * (s + 1),
        ;
        let r = isqrt_spec(n);
        if (2 * s + 1) * (2 * s + 1) <= n {
            assert(r == 2 * s + 1);
            assert(r * r == (2 * s + 1) * (2 * s + 1)) by (nonlinear_arith)
                requires
                    r == 2 * s + 1,
            ;
            assert((r + 1) * (r + 1) == (2 * s + 2) * (2 * s + 2)) by (nonlinear_arith)
                requires
                    r == 2 * s + 1,
            ;
            assert(n < (2 * s + 2) * (2 * s + 2));
        } else {
            assert(r == 2 * s);
            assert(r * r == (2 * s) * (2 * s)) by (nonlinear_arith)
                requires
                    r == 2 * s,
            ;
            assert((r + 1) * (r + 1) == (2 * s + 1) * (2 * s + 1)) by (nonlinear_arith)
                requires
                    r == 2 * s,
            ;
        }
        assert(r * r <= n);
        assert(n < (r + 1) * (r + 1));
    }
}

/// The floor square root of a perfect square is its root.
pub proof fn lemma_isqrt_exact(k: nat)
    ensures
        isqrt_spec(k * k) == k,
{
    lemma_isqrt_bounds(k * k);
    let r = isqrt_spec(k * k);
    assert(r == k) by (nonlinear_arith)
        requires
            r * r <= k * k,
            k * k < (r + 1) * (r + 1),
    ;
}

/// Truncating division flips sign with its dividend.
pub proof fn lemma_tdiv_neg(a: int, b: int)
    requires
        b > 0,
    ensures
        tdiv(-a, b) == -tdiv(a, b),
{
}

/// The magnitude of a truncating quotient is the quotient of the magnitudes.
pub proof fn lemma_tdiv_mag(a: int, b: int)
    requires
        b > 0,
    ensures
        mag(tdiv(a, b)) == mag(a) / b,
{
    vstd::arithmetic::div_mod::lemma_div_pos_is_pos(mag(a), b);
}

/// A truncating division of an exact multiple recovers the factor.
pub proof fn lemma_tdiv_exact(x: int, d: int)
    requires
        d > 0,
    ensures
        tdiv(x * d, d) == x,
{
    if x >= 0 {
        assert(x * d >= 0) by (nonlinear_arith)
            requires
                x >= 0,
                d > 0,
        ;
        vstd::arithmetic::div_mod::lemma_div_multiples_vanish(x, d);
        assert(d * x == x * d) by (nonlinear_arith);
    } else {
        assert(x * d < 0) by (nonlinear_arith)
            requires
                x < 0,
                d > 0,
        ;
        assert((-x) * d == -(x * d)) by (nonlinear_arith);
        vstd::arithmetic::div_mod::lemma_div_multiples_vanish(-x, d);
        assert(d * (-x) == (-x) * d) by (nonlinear_arith);
    }
}

/// Multiplying by a factor in `[0, 1]` contracts: the product's magnitude
/// never exceeds the other operand's bound, and the product keeps that
/// operand's sign.
pub proof fn lemma_fx_mul_contract(a: int, x: int, b: int)
    requires
        0 <= a <= SCALE as int,
        mag(x) <= b,
        b <= i64::MAX as int,
    ensures
        mag(fx_mul(a, x)) <= b,
        x >= 0 ==> 0 <= fx_mul(a, x),
        x <= 0 ==> fx_mul(a, x) <= 0,
{
    lemma_tdiv_mag(a * x, SCALE as int);
    if x >= 0 {
        assert(a * x >= 0) by (nonlinear_arith)
            requires
                a >= 0,
                x >= 0,
        ;
        assert(a * x <= SCALE * b) by (nonlinear_arith)
            requires
                0 <= a <= SCALE as int,
                0 <= x <= b,
        ;
    } else {
        assert(a * x <= 0) by (nonlinear_arith)
            requires
                a >= 0,
                x <= 0,
        ;
        assert(-(a * x) <= SCALE * b) by (nonlinear_arith)
            requires
                0 <= a <= SCALE as int,
                x < 0,
                -x <= b,
        ;
    }
    assert(mag(a * x) <= SCALE * b);
    vstd::arithmetic::div_mod::lemma_div_is_ordered(mag(a * x), SCALE * b, SCALE as int);
    vstd::arithmetic::div_mod::lemma_div_multiples_vanish(b, SCALE as int);
}

/// Saturating fixed-point addition on raw values.
pub open spec fn fx_add(a: int, b: int) -> int {
    sat64(a + b)
}

/// Saturating fixed-point subtraction on raw values.
pub open spec fn fx_sub(a: int, b: int) -> int {
    sat64(a - b)
}

/// Saturating fixed-point negation on raw values.
pub open spec fn fx_neg(a: int) -> int {
    sat64(-a)
}

/// Saturating fixed-point product on raw values: the full product, scaled
/// back down with truncation toward zero.
pub open spec fn fx_mul(a: int, b: int) -> int {
    sat64(tdiv(a * b, SCALE as int))
}

/// Saturating fixed-point quotient on raw values (`b != 0`): the dividend is
/// scaled up before the truncating division.
pub open spec fn fx_div(a: int, b: int) -> int {
    sat64(tdiv(a * (SCALE as int), b))
}

/// Fixed-point square root on raw values (`a >= 0`): exact floor square root
/// of the scaled-up radicand.
pub open spec fn fx_sqrt(a: int) -> int {
    isqrt_spec((a * (SCALE as int)) as nat) as int
}

/// The Q47.16 fixed-point scalar. `raw` counts units of `1 / 65536`.
#[derive(Clone, Copy, PartialEq, Eq, Structural, Debug)]
pub struct Fx {
    pub raw: i64,
}

impl View for Fx {
    type V = int;

    open spec fn view(&self) -> int {
        self.raw as int
    }
}

/// Floor square root of `n`, for radicands below `2^96`.
fn isqrt_u128(n: u128) -> (r: u128)
    requires
        n < 0x1000000000000000000000000u128,
    ensures
        r == isqrt_spec(n as nat),
    decreases n,
{
    if n < 1 {
        0
    } else {
        let s = isqrt_u128(n / 4);
        proof {
            lemma_isqrt_bounds((n / 4) as nat);
            assert(s < 0x800000000000u128) by (nonlinear_arith)
                requires
                    s * s <= n / 4,
                    n / 4 < 0x400000000000000000000000int,
            ;
            assert((2 * s + 1) * (2 * s + 1) < 0x1000000000000000000000000000000int)
                by (nonlinear_arith)
                requires
                    s < 0x800000000000u128,
            ;
        }
        let cand = 2 * s + 1;
        if cand * cand <= n {
            cand
        } else {
            2 * s
        }
    }
}

/// Saturating reassembly of a sign bit and a magnitude into an `i64`.
fn sat_signed(neg: bool, m: u128) -> (r: i64)
    ensures
        r as int == sat64(
            if neg {
                -(m as int)
            } else {
                m as int
            },
        ),
{
    if neg {
        if m >= 9223372036854775808u128 {
            i64::MIN
        } else {
            -(m as i64)
        }
    } else {
        if m > 9223372036854775807u128 {
            i64::MAX
        } else {
            m as i64
        }
    }
}

impl Fx {
    /// The scalar holding exactly the integer `n`.
    pub fn from_int(n: i32) -> (r: Fx)
        ensures
            r@ == n * (SCALE as int),
    {
        Fx { raw: (n as i64) * SCALE }
    }

    /// The scalar with the given raw representation.
    pub fn from_raw(raw: i64) -> (r: Fx)
        ensures
            r@ == raw as int,
    {
        Fx { raw }
    }

    /// Zero.
    pub fn zero() -> (r: Fx)
        ensures
            r@ == 0,
    {
        Fx { raw: 0 }
    }

    /// One.
    pub fn one() -> (r: Fx)
        ensures
            r@ == SCALE as int,
    {
        Fx { raw: SCALE }
    }

    /// Saturating addition.
    pub fn add(self, rhs: Fx) -> (r: Fx)
        ensures
            r@ == fx_add(self@, rhs@),
    {
        let s: i128 = self.raw as i128 + rhs.raw as i128;
        let neg = s < 0;
        let m: u128 = if s < 0 {
            (-s) as u128
        } else {
            s as u128
        };
        Fx { raw: sat_signed(neg, m) }
    }

    /// Saturating subtraction.
    pub fn sub(self, rhs: Fx) -> (r: Fx)
        ensures
            r@ == fx_sub(self@, rhs@),
    {
        let s: i128 = self.raw as i128 - rhs.raw as i128;
        let neg = s < 0;
        let m: u128 = if s < 0 {
            (-s) as u128
        } else {
            s as u128
        };
        Fx { raw: sat_signed(neg, m) }
    }

    /// Saturating negation.
    pub fn neg(self) -> (r: Fx)
        ensures
            r@ == fx_neg(self@),
    {
        if self.raw == i64::MIN {
            Fx { raw: i64::MAX }
        } else {
            Fx { raw: -self.raw }
        }
    }

    /// Saturating product.
    pub fn mul(self, rhs: Fx) -> (r: Fx)
        ensures
            r@ == fx_mul(self@, rhs@),
    {
        let a: i128 = self.raw as i128;
        let b: i128 = rhs.raw as i128;
        proof {
            assert(-0x40000000000000000000000000000000int <= a * b
                <= 0x40000000000000000000000000000000int) by (nonlinear_arith)
                requires
                    -0x8000000000000000int <= a <= 0x7fffffffffffffffint,
                    -0x8000000000000000int <= b <= 0x7fffffffffffffffint,
            ;
        }
        let p: i128 = a * b;
        let neg = p < 0;
        let m: u128 = if p < 0 {
            (-p) as u128
        } else {
            p as u128
        };
        let q: u128 = m / 65536u128;
        Fx { raw: sat_signed(neg, q) }
    }

    /// Saturating quotient; the divisor must be nonzero.
    pub fn div(self, rhs: Fx) -> (r: Fx)
        requires
            rhs@ != 0,
        ensures
            r@ == fx_div(self@, rhs@),
    {
        let a: i128 = (self.raw as i128) * 65536;
        let b: i128 = rhs.raw as i128;
        let neg = (a < 0) != (b < 0);
        let ma: u128 = if a < 0 {
            (-a) as u128
        } else {
            a as u128
        };
        let mb: u128 = if b < 0 {
            (-b) as u128
        } else {
            b as u128
        };
        let q: u128 = ma / mb;
        Fx { raw: sat_signed(neg, q) }
    }

    /// Floor square root; the radicand must be nonnegative.
    pub fn sqrt(self) -> (r: Fx)
        requires
            self@ >= 0,
        ensures
            r@ == fx_sqrt(self@),
    {
        let n: u128 = (self.raw as u128) * 65536;
        let s = isqrt_u128(n);
        proof {
            lemma_isqrt_bounds(n as nat);
            assert(s <= 0x7fffffffffffffffu128) by (nonlinear_arith)
                requires
                    s * s <= n,
                    n < 0x1000000000000000000000000int,
            ;
        }
        Fx { raw: s as i64 }
    }

    /// Magnitude.
    pub fn abs(self) -> (r: Fx)
        ensures
            r@ == sat64(mag(self@)),
    {
        if self.raw < 0 {
            self.neg()
        } else {
            self
        }
    }

    /// Strictly below.
    pub fn lt(self, rhs: Fx) -> (b: bool)
        ensures
            b == (self@ < rhs@),
    {
        self.raw < rhs.raw
    }

    /// At or below.
    pub fn le(self, rhs: Fx) -> (b: bool)
        ensures
            b == (self@ <= rhs@),
    {
        self.raw <= rhs.raw
    }

    /// Strictly above.
    pub fn gt(self, rhs: Fx) -> (b: bool)
        ensures
            b == (self@ > rhs@),
    {
        self.raw > rhs.raw
    }

    /// At or above.
    pub fn ge(self, rhs: Fx) -> (b: bool)
        ensures
            b == (self@ >= rhs@),
    {
        self.raw >= rhs.raw
    }

    /// The smaller of the two scalars.
    pub fn min(self, rhs: Fx) -> (r: Fx)
        ensures
            r@ == if self@ <= rhs@ {
                self@
            } else {
                rhs@
            },
    {
        if self.raw <= rhs.raw {
            self
        } else {
            rhs
        }
    }

    /// The larger of the two scalars.
    pub fn max(self, rhs: Fx) -> (r: Fx)
        ensures
            r@ == if self@ >= rhs@ {
                self@
            } else {
                rhs@
            },
    {
        if self.raw >= rhs.raw {
            self
        } else {
            rhs
        }
    }
}

/// What `clamp` returns: `x` pressed into `[lo, hi]`.
pub open spec fn clamp_spec(x: int, lo: int, hi: int) -> int {
    if x < lo {
        lo
    } else if x > hi {
        hi
    } else {
        x
    }
}

/// Presses `x` into the interval `[lo, hi]`.
pub fn clamp(x: Fx, lo: Fx, hi: Fx) -> (r: Fx)
    ensures
        r@ == clamp_spec(x@, lo@, hi@),
{
    if x.raw < lo.raw {
        lo
    } else if x.raw > hi.raw {
        hi
    } else {
        x
    }
}

} // verus!
