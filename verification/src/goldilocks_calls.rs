//! Trusted bindings to `p3-goldilocks` for the field operations that the
//! library takes from Plonky3 rather than computing itself.
use vstd::prelude::*;

use p3_field::{Field, PrimeField64, TwoAdicField};
use p3_goldilocks::Goldilocks;

use crate::field_arith::{exp_pow2, prime, GOLDILOCKS_PRIME, TWO_ADICITY};

verus! {

/// The value of `Goldilocks::two_adic_generator(bits)` (an entry of the
/// fixed table `TWO_ADIC_GENERATORS` of p3-goldilocks).
pub uninterp spec fn two_adic_generator_value(bits: nat) -> int;

/// Calls `Field::try_inverse` on `Goldilocks::new(v)` and reads the result
/// back with `as_canonical_u64`. Trusted: that p3 returns `None` exactly for
/// zero and otherwise the canonical inverse of `v` modulo `p`.
#[verifier::external_body]
pub(crate) fn goldilocks_try_inverse(v: u64) -> (r: Option<u64>)
    requires
        v < GOLDILOCKS_PRIME,
    ensures
        r is None <==> v == 0,
        r matches Some(y) ==> y < GOLDILOCKS_PRIME && ((v as int) * (y as int)) % prime() == 1,
{
    match Goldilocks::new(v).try_inverse() {
        Some(y) => Some(y.as_canonical_u64()),
        None => None,
    }
}

/// Calls `TwoAdicField::two_adic_generator(bits)` of p3-goldilocks, which
/// asserts `bits <= 32` and returns the table entry `TWO_ADIC_GENERATORS[bits]`.
/// Trusted: that the entry is canonical, that squaring it `bits` times gives
/// one and, for `bits > 0`, squaring it `bits - 1` times gives `-1` (the
/// table's documented property that it generates the subgroup of order `2^bits`).
#[verifier::external_body]
pub(crate) fn goldilocks_two_adic_generator(bits: usize) -> (r: u64)
    requires
        bits <= TWO_ADICITY,
    ensures
        r < GOLDILOCKS_PRIME,
        r == two_adic_generator_value(bits as nat),
        exp_pow2(r as int, bits as nat) == 1,
        bits > 0 ==> exp_pow2(r as int, (bits - 1) as nat) == prime() - 1,
{
    Goldilocks::two_adic_generator(bits).as_canonical_u64()
}

} // verus!
