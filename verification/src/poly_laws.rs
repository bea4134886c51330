//! Algebraic laws of the polynomial operations, stated over the model of
//! `crate::poly_spec` that the operations' contracts use.
use vstd::prelude::*;
use vstd::arithmetic::div_mod::*;

use crate::field_arith::prime;
use crate::poly_spec::{
    canonical, coeff, lemma_add_coeff, lemma_canonical_ext, lemma_neg_coeff, lemma_scale_coeff,
    lemma_sub_coeff, lemma_trim_canonical, poly_add, poly_mul, poly_neg,
    poly_scale, poly_sub,
};

verus! {

/// Adding the negation of a polynomial gives the zero polynomial: `f + (-f) = 0`.
pub proof fn law_add_neg_is_zero(f: Seq<int>)
    requires
        canonical(f),
    ensures
        poly_add(f, poly_neg(f)) == Seq::<int>::empty(),
{
    let n = poly_neg(f);
    lemma_neg_coeff(f);
    lemma_add_coeff(f, n);
    lemma_trim_canonical(Seq::<int>::empty());
    assert forall|i: int| 0 <= i implies #[trigger] coeff(poly_add(f, n), i) == coeff(Seq::<int>::empty(), i) by {
        let c = coeff(f, i);
        lemma_add_mod_noop_right(c, 0 - c, prime());
        lemma_small_mod(0, prime() as nat);
    }
    lemma_canonical_ext(poly_add(f, n), Seq::<int>::empty());
}

/// Subtraction is addition of the negation: `f - g = f + (-g)`.
pub proof fn law_sub_is_add_neg(f: Seq<int>, g: Seq<int>)
    requires
        canonical(f),
        canonical(g),
    ensures
        poly_sub(f, g) == poly_add(f, poly_neg(g)),
{
    let n = poly_neg(g);
    lemma_neg_coeff(g);
    lemma_add_coeff(f, n);
    lemma_sub_coeff(f, g);
    assert forall|i: int| 0 <= i implies #[trigger] coeff(poly_sub(f, g), i) == coeff(poly_add(f, n), i) by {
        lemma_add_mod_noop_right(coeff(f, i), 0 - coeff(g, i), prime());
    }
    lemma_canonical_ext(poly_sub(f, g), poly_add(f, n));
}

/// A polynomial minus itself is zero: `f - f = 0`.
pub proof fn law_sub_self_is_zero(f: Seq<int>)
    requires
        canonical(f),
    ensures
        poly_sub(f, f) == Seq::<int>::empty(),
{
    lemma_sub_coeff(f, f);
    lemma_trim_canonical(Seq::<int>::empty());
    assert forall|i: int| 0 <= i implies #[trigger] coeff(poly_sub(f, f), i) == coeff(Seq::<int>::empty(), i) by {
        lemma_small_mod(0, prime() as nat);
    }
    lemma_canonical_ext(poly_sub(f, f), Seq::<int>::empty());
}

/// Multiplying by the zero polynomial, on either side, gives zero.
pub proof fn law_mul_by_zero(f: Seq<int>)
    ensures
        poly_mul(f, Seq::<int>::empty()) == Seq::<int>::empty(),
        poly_mul(Seq::<int>::empty(), f) == Seq::<int>::empty(),
{
}

/// Scaling by the zero scalar gives the zero polynomial.
pub proof fn law_scale_by_zero(f: Seq<int>)
    ensures
        poly_scale(f, 0) == Seq::<int>::empty(),
{
    lemma_scale_coeff(f, 0);
    lemma_trim_canonical(Seq::<int>::empty());
    assert forall|i: int| 0 <= i implies #[trigger] coeff(poly_scale(f, 0), i) == coeff(Seq::<int>::empty(), i) by {
        assert(coeff(f, i) * 0 == 0);
        lemma_small_mod(0, prime() as nat);
    }
    lemma_canonical_ext(poly_scale(f, 0), Seq::<int>::empty());
}

/// Adding the zero polynomial leaves a polynomial unchanged: `f + 0 = f`.
pub proof fn law_add_zero(f: Seq<int>)
    requires
        canonical(f),
    ensures
        poly_add(f, Seq::<int>::empty()) == f,
        poly_add(Seq::<int>::empty(), f) == f,
{
    let e = Seq::<int>::empty();
    lemma_add_coeff(f, e);
    lemma_add_coeff(e, f);
    assert forall|i: int| 0 <= i implies #[trigger] coeff(poly_add(f, e), i) == coeff(f, i) by {
        lemma_small_mod(coeff(f, i) as nat, prime() as nat);
    }
    assert forall|i: int| 0 <= i implies #[trigger] coeff(poly_add(e, f), i) == coeff(f, i) by {
        lemma_small_mod(coeff(f, i) as nat, prime() as nat);
    }
    lemma_canonical_ext(poly_add(f, e), f);
    lemma_canonical_ext(poly_add(e, f), f);
}

} // verus!
