use plonky3_experiments::field_arith::{from_u64, two_adic_generator, Felt};
use plonky3_experiments::poly::DensePoly;

fn p(cs: &[u64]) -> DensePoly {
    DensePoly::new(cs.iter().copied().map(from_u64).collect())
}

#[test]
fn zero_polynomial() {
    let z = DensePoly::zero();
    assert!(z.is_zero());
    assert_eq!(z.degree(), None);
    assert_eq!(z.evaluate(from_u64(42)), Felt::zero());
}

#[test]
fn new_strips_trailing_zeros() {
    let q = p(&[3, 0, 0]);
    assert_eq!(q.degree(), Some(0));
    assert_eq!(q, p(&[3]));
}

#[test]
fn evaluate_via_horner() {
    // f(x) = 1 + 2x + 3x^2 ; f(5) = 1 + 10 + 75 = 86
    let f = p(&[1, 2, 3]);
    assert_eq!(f.evaluate(from_u64(5)), from_u64(86));
    assert_eq!(f.degree(), Some(2));
}

#[test]
fn addition_pads_and_cancels() {
    // (1 + 2x + 3x^2) + (4 + 5x) = 5 + 7x + 3x^2
    assert_eq!(p(&[1, 2, 3]).add(&p(&[4, 5])), p(&[5, 7, 3]));
    // Cancellation strips leading zeros: x^2 + (-x^2) = 0
    let x2 = p(&[0, 0, 1]);
    let neg_x2 = DensePoly::new(vec![Felt::zero(), Felt::zero(), Felt::one().neg()]);
    assert!(x2.add(&neg_x2).is_zero());
}

#[test]
fn neg_inverts_addition() {
    let f = p(&[1, 2, 3]);
    assert!(f.add(&f.neg()).is_zero());
}

#[test]
fn sub_matches_add_negation() {
    let f = p(&[1, 2, 3]);
    let g = p(&[4, 5]);
    assert_eq!(f.sub(&g), f.add(&g.neg()));
    assert!(f.sub(&f).is_zero());
}

#[test]
fn mul_polynomial_schoolbook() {
    // (1 + x)(1 - x) = 1 - x^2
    let one_plus_x = p(&[1, 1]);
    let one_minus_x = DensePoly::new(vec![Felt::one(), Felt::one().neg()]);
    let expected = DensePoly::new(vec![Felt::one(), Felt::zero(), Felt::one().neg()]);
    assert_eq!(one_plus_x.mul(&one_minus_x), expected);
}

#[test]
fn mul_distributes_over_evaluation() {
    // (f * g)(x) = f(x) * g(x) for any x
    let f = p(&[1, 2, 3]);
    let g = p(&[4, 5]);
    let x = from_u64(7);
    assert_eq!(f.mul(&g).evaluate(x), f.evaluate(x).mul(g.evaluate(x)));
}

#[test]
fn mul_with_zero_is_zero() {
    assert!(p(&[1, 2, 3]).mul(&DensePoly::zero()).is_zero());
    assert!(DensePoly::zero().mul(&p(&[1, 2, 3])).is_zero());
}

#[test]
fn mul_scalar_scales_each_coefficient() {
    assert_eq!(p(&[1, 2, 3]).mul_scalar(from_u64(3)), p(&[3, 6, 9]));
    assert!(p(&[1, 2, 3]).mul_scalar(Felt::zero()).is_zero());
}

#[test]
fn divmod_exact_division() {
    // x^3 - 1 = (x - 1)(x^2 + x + 1)
    let x3_minus_1 =
        DensePoly::new(vec![Felt::one().neg(), Felt::zero(), Felt::zero(), Felt::one()]);
    let x_minus_1 = DensePoly::new(vec![Felt::one().neg(), Felt::one()]);
    let (q, r) = x3_minus_1.divmod(&x_minus_1);
    assert_eq!(q, p(&[1, 1, 1]));
    assert!(r.is_zero());
}

#[test]
fn divmod_with_remainder_round_trips() {
    // From the Add test: 1 + 2x + 3x^2 = q*(4 + 5x) + r should round-trip
    let f = p(&[1, 2, 3]);
    let g = p(&[4, 5]);
    let (q, r) = f.divmod(&g);
    assert!(r.degree() < g.degree(), "deg(r) must be < deg(divisor)");
    assert_eq!(f, q.mul(&g).add(&r));
}

#[test]
fn divmod_smaller_dividend_returns_self() {
    let f = p(&[1, 2]);
    let g = p(&[1, 2, 3]);
    let (q, r) = f.divmod(&g);
    assert!(q.is_zero());
    assert_eq!(r, f);
}

#[test]
fn divmod_by_constant_scales_by_inverse() {
    // (2 + 4x) / 2 = 1 + 2x, remainder 0
    let (q, r) = p(&[2, 4]).divmod(&p(&[2]));
    assert_eq!(q, p(&[1, 2]));
    assert!(r.is_zero());
}

#[test]
fn divmod_remainder_value() {
    // x^2 + 1 = (x + 1)(x - 1) + 2
    let f = p(&[1, 0, 1]);
    let g = p(&[1, 1]);
    let (q, r) = f.divmod(&g);
    assert_eq!(q, DensePoly::new(vec![Felt::one().neg(), Felt::one()]));
    assert_eq!(r, p(&[2]));
}

#[test]
fn clone_is_equal() {
    let f = p(&[9, 8, 7]);
    assert_eq!(f.clone(), f);
}

#[test]
fn new_of_all_zeros_is_zero() {
    assert!(p(&[0, 0, 0]).is_zero());
    assert_eq!(p(&[0, 0, 0]), DensePoly::zero());
}

#[test]
fn sub_cancels_leading_terms() {
    let r = p(&[1, 2, 3]).sub(&p(&[0, 0, 3]));
    assert_eq!(r, p(&[1, 2]));
    assert_eq!(r.degree(), Some(1));
}

#[test]
fn ntt_evaluates_on_the_two_adic_subgroup() {
    let f = p(&[7, 11, 13, 17]);
    let evals = f.ntt();
    assert_eq!(evals.len(), 4);
    let g = two_adic_generator(2);
    let mut x = Felt::one();
    for e in evals.iter() {
        assert_eq!(*e, f.evaluate(x));
        x = x.mul(g);
    }
    // f(1) = 7 + 11 + 13 + 17 = 48
    assert_eq!(evals[0], from_u64(48));
}

#[test]
fn ntt_pads_to_the_next_power_of_two() {
    assert_eq!(p(&[1, 2, 3]).ntt().len(), 4);
    assert_eq!(p(&[1, 2, 3, 4, 5]).ntt().len(), 8);
    assert_eq!(p(&[5]).ntt(), vec![from_u64(5)]);
    assert_eq!(DensePoly::zero().ntt(), vec![Felt::zero()]);
}

#[test]
fn divmod_of_product_recovers_factor() {
    let f = p(&[1, 2, 3]);
    let g = p(&[4, 5]);
    let (q, r) = f.mul(&g).divmod(&g);
    assert_eq!(q, f);
    assert!(r.is_zero());
    // A non-monic divisor of higher degree.
    let g2 = p(&[7, 0, 9, 11]);
    let (q2, r2) = f.mul(&g2).divmod(&g2);
    assert_eq!(q2, f);
    assert!(r2.is_zero());
}

#[test]
fn leading_coefficient_inverse_inverts_the_top_coefficient() {
    let g = p(&[4, 5]);
    let inv = g.leading_coefficient_inverse();
    assert_eq!(inv.mul(from_u64(5)), Felt::one());
    let g2 = p(&[7, 0, 9, 11]);
    assert_eq!(g2.leading_coefficient_inverse().mul(from_u64(11)), Felt::one());
}
