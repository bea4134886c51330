use p3_field::{Field, PrimeField64};
use p3_goldilocks::Goldilocks;
use plonky3_experiments::field_arith::{
    from_u64, to_canonical_u64, try_inverse, two_adic_generator, Felt, GOLDILOCKS_PRIME,
};

#[test]
fn prime_modulus_value() {
    assert_eq!(GOLDILOCKS_PRIME as u128, (1u128 << 64) - (1u128 << 32) + 1);
    assert_eq!(GOLDILOCKS_PRIME, 0xFFFF_FFFF_0000_0001);
}

#[test]
fn add_wraps_around_prime() {
    let a = from_u64(GOLDILOCKS_PRIME - 1);
    let b = from_u64(2);
    assert_eq!(to_canonical_u64(a.add(b)), 1);
}

#[test]
fn neg_and_sub_agree() {
    let a = from_u64(123_456_789);
    let b = from_u64(987_654_321);
    assert_eq!(a.sub(b), a.add(b.neg()));
    assert_eq!(to_canonical_u64(a.sub(a)), 0);
}

#[test]
fn mul_and_inverse_round_trip() {
    let a = from_u64(0xDEAD_BEEF_DEAD_BEEF);
    let inv = try_inverse(a).expect("nonzero elements are invertible");
    assert_eq!(to_canonical_u64(a.mul(inv)), 1);
    assert!(try_inverse(Felt::zero()).is_none());
}

#[test]
fn two_adic_generator_has_correct_order() {
    let bits = 5usize;
    let g = two_adic_generator(bits);
    assert_eq!(g.exp_power_of_2(bits), Felt::one());
    assert_eq!(g.exp_power_of_2(bits - 1), Felt::neg_one());
}

#[test]
fn sum_iter_matches_fold() {
    let xs: Vec<Felt> = (1u64..=10).map(from_u64).collect();
    let folded = xs.iter().copied().fold(Felt::zero(), |a, b| a.add(b));
    let mut summed = Felt::zero();
    for x in xs.iter() {
        summed = summed.add(*x);
    }
    assert_eq!(summed, folded);
    assert_eq!(to_canonical_u64(summed), 55);
}

#[test]
fn from_u64_reduces_values_at_or_above_the_prime() {
    assert_eq!(to_canonical_u64(from_u64(GOLDILOCKS_PRIME)), 0);
    assert_eq!(to_canonical_u64(from_u64(u64::MAX)), u64::MAX - GOLDILOCKS_PRIME);
    assert_eq!(to_canonical_u64(from_u64(7)), 7);
}

#[test]
fn sub_wraps_below_zero() {
    let r = from_u64(3).sub(from_u64(5));
    assert_eq!(to_canonical_u64(r), GOLDILOCKS_PRIME - 2);
    assert_eq!(to_canonical_u64(from_u64(5).neg()), GOLDILOCKS_PRIME - 5);
    assert_eq!(to_canonical_u64(Felt::zero().neg()), 0);
}

#[test]
fn mul_reduces_wide_products() {
    // (p - 1)^2 = 1 mod p
    let m = Felt::neg_one().mul(Felt::neg_one());
    assert_eq!(to_canonical_u64(m), 1);
    // 2^32 * 2^32 = 2^64 = 2^32 - 1 mod p
    let t = from_u64(1u64 << 32);
    assert_eq!(to_canonical_u64(t.mul(t)), (1u64 << 32) - 1);
}

#[test]
fn inverse_of_two_is_half_of_p_plus_one() {
    let inv = try_inverse(from_u64(2)).unwrap();
    assert_eq!(to_canonical_u64(inv), (GOLDILOCKS_PRIME + 1) / 2);
    assert_eq!(try_inverse(Felt::one()), Some(Felt::one()));
}

#[test]
fn two_adic_generators_square_to_the_previous_one() {
    assert_eq!(two_adic_generator(0), Felt::one());
    assert_eq!(two_adic_generator(1), Felt::neg_one());
    for bits in 1..=32usize {
        let g = two_adic_generator(bits);
        assert_eq!(g.mul(g), two_adic_generator(bits - 1));
        assert_eq!(g.exp_power_of_2(bits), Felt::one());
        assert_eq!(g.exp_power_of_2(bits - 1), Felt::neg_one());
    }
}

#[test]
fn equals_compares_values() {
    assert!(from_u64(GOLDILOCKS_PRIME + 4).equals(&from_u64(4)));
    assert!(!from_u64(4).equals(&from_u64(5)));
    assert!(Felt::zero().is_zero());
    assert!(!Felt::one().is_zero());
}

#[test]
fn arithmetic_agrees_with_plonky3_goldilocks() {
    let samples: [u64; 8] = [
        0,
        1,
        2,
        GOLDILOCKS_PRIME - 1,
        GOLDILOCKS_PRIME,
        u64::MAX,
        0xDEAD_BEEF_DEAD_BEEF,
        (1u64 << 32) + 12345,
    ];
    for &a in samples.iter() {
        for &b in samples.iter() {
            let (x, y) = (from_u64(a), from_u64(b));
            let (gx, gy) = (Goldilocks::new(a), Goldilocks::new(b));
            assert_eq!(to_canonical_u64(x.add(y)), (gx + gy).as_canonical_u64());
            assert_eq!(to_canonical_u64(x.sub(y)), (gx - gy).as_canonical_u64());
            assert_eq!(to_canonical_u64(x.mul(y)), (gx * gy).as_canonical_u64());
        }
        assert_eq!(to_canonical_u64(from_u64(a).neg()), (-Goldilocks::new(a)).as_canonical_u64());
        let inv = try_inverse(from_u64(a)).map(to_canonical_u64);
        assert_eq!(inv, Goldilocks::new(a).try_inverse().map(|g| g.as_canonical_u64()));
    }
}
