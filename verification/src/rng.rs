//! The tracer's source of randomness: a seeded generator from the `rand`
//! crate, passed explicitly through every sampling routine so that a render
//! is reproducible per seed and workers never share a generator.

use crate::fixed::{Fx, SCALE};
use rand::RngCore;
use vstd::prelude::*;

verus! {

#[verifier::external_type_specification]
#[verifier::external_body]
pub struct ExStdRng(rand::rngs::StdRng);

/// Relies on rand's `RngCore::next_u64` on `StdRng`: an arbitrary 64-bit
/// draw; nothing is assumed about its value.
#[verifier::external_body]
fn next_u64(rng: &mut rand::rngs::StdRng) -> u64 {
    rng.next_u64()
}

/// A scalar drawn uniformly from the representable grid of `[0, 1)`.
pub fn rand_fx(rng: &mut rand::rngs::StdRng) -> (r: Fx)
    ensures
        0 <= r@ < SCALE as int,
{
    let bits = next_u64(rng);
    Fx::from_raw((bits % 65536) as i64)
}

/// A scalar drawn from `[low, high)`: `low` plus a truncated fraction of
/// the interval. The draw's fraction is below one, so the upper end is
/// never reached when the interval is nonempty; for an empty interval the
/// draw is `low` itself.
pub fn rand_fx_in_range(low: Fx, high: Fx, rng: &mut rand::rngs::StdRng) -> (r: Fx)
    requires
        low@ <= high@,
    ensures
        low@ <= r@ <= high@,
        low@ < high@ ==> r@ < high@,
{
    let u = rand_fx(rng);
    let d = high.sub(low);
    let t = u.mul(d);
    proof {
        crate::fixed::lemma_tdiv_mag(u@ * d@, SCALE as int);
        assert(u@ * d@ <= SCALE * d@) by (nonlinear_arith)
            requires
                0 <= u@ <= SCALE as int,
                d@ >= 0,
        ;
        vstd::arithmetic::div_mod::lemma_div_is_ordered(u@ * d@, SCALE * d@, SCALE as int);
        assert(SCALE * d@ / (SCALE as int) == d@) by (nonlinear_arith)
            requires
                d@ >= 0,
        ;
        if low@ < high@ {
            // the drawn fraction is at most (SCALE - 1) / SCALE, so the
            // scaled offset stays at least one raw step under the interval
            assert(u@ * d@ <= SCALE * d@ - d@) by (nonlinear_arith)
                requires
                    0 <= u@ <= SCALE - 1,
                    d@ >= 1,
            ;
            vstd::arithmetic::div_mod::lemma_div_is_ordered(
                u@ * d@,
                SCALE * d@ - 1,
                SCALE as int,
            );
            vstd::arithmetic::div_mod::lemma_fundamental_div_mod_converse(
                SCALE * d@ - 1,
                SCALE as int,
                d@ - 1,
                SCALE - 1,
            );
            assert(t@ <= d@ - 1);
        }
    }
    low.add(t)
}

} // verus!
