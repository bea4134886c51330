use plonky3_experiments::field_arith::{from_u64, two_adic_generator, Felt, GOLDILOCKS_PRIME};
use plonky3_experiments::fri::{
    low_degree_evaluations, make_challenger, make_fri_params, make_pcs, prove_low_degree, verify_low_degree,
};
use plonky3_experiments::poly::DensePoly;

#[test]
fn fri_params_have_expected_blowup() {
    let params = make_fri_params(0, 0);
    assert_eq!(params.log_blowup(), 2);
    assert_eq!(params.blowup(), 4);
}

#[test]
fn fri_params_have_expected_query_count() {
    let params = make_fri_params(0, 0);
    assert_eq!(params.num_queries(), 2);
}

#[test]
fn conjectured_soundness_bits_match_formula() {
    let params = make_fri_params(0, 0);
    // log_blowup * num_queries + query_proof_of_work_bits = 2*2 + 1 = 5
    assert_eq!(params.conjectured_soundness_bits(), 5);
}

#[test]
fn final_poly_len_tracks_parameter() {
    for log_final in 0..4 {
        let params = make_fri_params(0, log_final);
        assert_eq!(params.final_poly_len(), 1 << log_final);
        assert_eq!(params.log_final_poly_len(), log_final);
    }
}

fn small_poly() -> DensePoly {
    // 8 coefficients: log_height = 3.
    DensePoly::new((1u64..=8).map(from_u64).collect())
}

#[test]
fn low_degree_evaluations_of_eight_coefficients() {
    let poly = small_poly();
    let (evals, log_height) = low_degree_evaluations(&poly);
    assert_eq!(log_height, 3);
    assert_eq!(evals.len(), 8);
    assert_eq!(evals, poly.ntt());
    let g = two_adic_generator(3);
    let mut x = Felt::one();
    for e in evals.iter() {
        assert_eq!(*e, poly.evaluate(x));
        x = x.mul(g);
    }
    // f(1) = 1 + 2 + ... + 8 = 36
    assert_eq!(evals[0], from_u64(36));
}

#[test]
fn low_degree_evaluations_round_up_to_a_power_of_two() {
    let (evals, log_height) = low_degree_evaluations(&DensePoly::new(vec![from_u64(1), from_u64(2)]));
    assert_eq!((evals.len(), log_height), (2, 1));
    let (evals, log_height) = low_degree_evaluations(&DensePoly::new((1u64..=5).map(from_u64).collect()));
    assert_eq!((evals.len(), log_height), (8, 3));
}

#[test]
fn fri_params_have_binary_folding_and_one_bit_of_work() {
    let params = make_fri_params(3, 1);
    assert_eq!(params.max_log_arity(), 1);
    assert_eq!(params.commit_proof_of_work_bits(), 1);
    assert_eq!(params.query_proof_of_work_bits(), 1);
    assert_eq!(params.inner().log_blowup, 2);
    assert_eq!(params.inner().log_final_poly_len, 1);
}

#[test]
fn pcs_is_constructible_for_multiple_seeds() {
    for seed in [0u64, 1, 7, 42, 1 << 32] {
        let _pcs = make_pcs(seed, 0);
    }
}

#[test]
fn challenger_is_deterministic_per_seed() {
    let mut a = make_challenger(11);
    let mut b = make_challenger(11);
    for _ in 0..4 {
        assert_eq!(a.sample_bits(16), b.sample_bits(16));
    }
}

#[test]
fn challenger_diverges_on_different_seeds() {
    let mut a = make_challenger(1);
    let mut b = make_challenger(2);
    // Sample several rounds — the probability of all-equal across 4 16-bit
    // samples by chance is 2^-64.
    let collisions = (0..4).filter(|_| a.sample_bits(16) == b.sample_bits(16)).count();
    assert!(collisions < 4, "challengers from different seeds should not all agree");
}

#[test]
fn sampled_bits_stay_below_the_bound() {
    let mut a = make_challenger(5);
    for bits in [0usize, 1, 3, 16, 40] {
        assert!(a.sample_bits(bits) < (1usize << bits));
    }
}

#[test]
fn round_trip_proves_and_verifies() {
    let seed = 7;
    let pcs = make_pcs(seed, 0);
    let mut p_chal = make_challenger(seed);
    let proof = prove_low_degree(&pcs, &small_poly(), &mut p_chal).expect("opening point outside the domain");

    let mut v_chal = make_challenger(seed);
    verify_low_degree(&pcs, &proof, &mut v_chal).expect("honest proof should verify");
}

#[test]
fn proof_commits_to_one_canonical_root_at_log_height_three() {
    let pcs = make_pcs(7, 0);
    let mut p_chal = make_challenger(7);
    let proof = prove_low_degree(&pcs, &small_poly(), &mut p_chal).expect("opening point outside the domain");
    assert_eq!(proof.log_height, 3);
    assert_eq!(proof.commitment.digests.len(), 1);
    assert!(proof.commitment.digests[0].iter().all(|w| *w < GOLDILOCKS_PRIME));
}

#[test]
fn round_trip_with_a_longer_final_polynomial() {
    let pcs = make_pcs(3, 1);
    let poly = DensePoly::new((1u64..=16).map(from_u64).collect());
    let mut p_chal = make_challenger(3);
    let proof = prove_low_degree(&pcs, &poly, &mut p_chal).expect("opening point outside the domain");
    assert_eq!(proof.log_height, 4);
    let mut v_chal = make_challenger(3);
    verify_low_degree(&pcs, &proof, &mut v_chal).expect("honest proof should verify");
}

#[test]
fn prover_and_verifier_derive_the_same_zeta() {
    let seed = 13;
    let pcs = make_pcs(seed, 0);
    let mut p_chal = make_challenger(seed);
    let proof = prove_low_degree(&pcs, &small_poly(), &mut p_chal).expect("opening point outside the domain");

    // Replay the verifier's transcript prefix to confirm zeta agreement.
    let mut v_chal = make_challenger(seed);
    v_chal.observe_commitment(&proof.commitment);
    let zeta_v: [u64; 2] = v_chal.sample_challenge();
    assert_eq!(proof.zeta, zeta_v, "Fiat-Shamir transcripts must agree on zeta");
}

#[test]
fn tampered_opened_value_is_rejected() {
    let seed = 7;
    let pcs = make_pcs(seed, 0);
    let mut p_chal = make_challenger(seed);
    let mut proof = prove_low_degree(&pcs, &small_poly(), &mut p_chal).expect("opening point outside the domain");

    proof.opened_value[0] = (proof.opened_value[0] + 1) % GOLDILOCKS_PRIME;

    let mut v_chal = make_challenger(seed);
    verify_low_degree(&pcs, &proof, &mut v_chal).expect_err("tampering with opened_value must fail verification");
}

#[test]
fn tampered_proof_final_poly_is_rejected() {
    let seed = 7;
    let pcs = make_pcs(seed, 0);
    let mut p_chal = make_challenger(seed);
    let mut proof = prove_low_degree(&pcs, &small_poly(), &mut p_chal).expect("opening point outside the domain");

    let c = proof.proof.final_poly_coefficient(0);
    proof.proof.set_final_poly_coefficient(0, [(c[0] + 1) % GOLDILOCKS_PRIME, c[1]]);

    let mut v_chal = make_challenger(seed);
    verify_low_degree(&pcs, &proof, &mut v_chal).expect_err("tampering with proof.final_poly must fail verification");
}

#[test]
fn tampered_commitment_is_rejected() {
    let seed = 7;
    let pcs = make_pcs(seed, 0);
    let mut p_chal = make_challenger(seed);
    let mut proof = prove_low_degree(&pcs, &small_poly(), &mut p_chal).expect("opening point outside the domain");

    proof.commitment.digests[0][0] = (proof.commitment.digests[0][0] + 1) % GOLDILOCKS_PRIME;

    let mut v_chal = make_challenger(seed);
    assert!(verify_low_degree(&pcs, &proof, &mut v_chal).is_err());
}

#[test]
fn opened_value_is_the_polynomial_at_zeta() {
    // f(X) = 1 + 2X + ... + 8X^7 evaluated at zeta = z0 + z1 X, X^2 = 7.
    let p = GOLDILOCKS_PRIME as u128;
    let pcs = make_pcs(21, 0);
    let mut p_chal = make_challenger(21);
    let proof = prove_low_degree(&pcs, &small_poly(), &mut p_chal).expect("opening point outside the domain");
    let (z0, z1) = (proof.zeta[0] as u128, proof.zeta[1] as u128);
    let mut acc = (0u128, 0u128);
    for c in (1u128..=8).rev() {
        let (a0, a1) = acc;
        let m0 = (a0 * z0 % p + 7 * (a1 * z1 % p)) % p;
        let m1 = (a0 * z1 % p + a1 * z0 % p) % p;
        acc = ((m0 + c) % p, m1);
    }
    assert_eq!(proof.opened_value, [acc.0 as u64, acc.1 as u64]);
}

#[test]
fn final_poly_coefficient_round_trips() {
    let pcs = make_pcs(7, 0);
    let mut p_chal = make_challenger(7);
    let mut proof = prove_low_degree(&pcs, &small_poly(), &mut p_chal).expect("opening point outside the domain");
    let c = proof.proof.final_poly_coefficient(0);
    assert!(c[0] < GOLDILOCKS_PRIME && c[1] < GOLDILOCKS_PRIME);
    proof.proof.set_final_poly_coefficient(0, [3, 4]);
    assert_eq!(proof.proof.final_poly_coefficient(0), [3, 4]);
}
