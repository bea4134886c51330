use plonky3_experiments::field_arith::{from_u64, Felt, GOLDILOCKS_PRIME};
use plonky3_experiments::merkle::{commit_evaluations, make_mmcs};
use plonky3_experiments::poly::DensePoly;

fn evals(vs: &[u64]) -> Vec<Felt> {
    vs.iter().copied().map(from_u64).collect()
}

#[test]
fn commitment_is_deterministic() {
    let mmcs = make_mmcs(0);
    let v = evals(&[1, 2, 3, 4, 5, 6, 7, 8]);
    let c1 = commit_evaluations(&mmcs, v.clone());
    let c2 = commit_evaluations(&mmcs, v);
    assert_eq!(c1.commitment, c2.commitment);
}

#[test]
fn different_inputs_yield_different_commitments() {
    let mmcs = make_mmcs(0);
    let a = commit_evaluations(&mmcs, evals(&[1, 2, 3, 4, 5, 6, 7, 8]));
    let b = commit_evaluations(&mmcs, evals(&[1, 2, 3, 4, 5, 6, 7, 9]));
    assert_ne!(a.commitment, b.commitment);
}

#[test]
fn different_seeds_yield_different_commitments() {
    let v = evals(&[1, 2, 3, 4, 5, 6, 7, 8]);
    let a = commit_evaluations(&make_mmcs(1), v.clone());
    let b = commit_evaluations(&make_mmcs(2), v);
    assert_ne!(a.commitment, b.commitment);
}

#[test]
fn commits_polynomial_ntt_evaluations() {
    let mmcs = make_mmcs(42);
    let p1 = DensePoly::new(evals(&[7, 11, 13, 17]));
    let p2 = DensePoly::new(evals(&[7, 11, 13, 18]));
    assert_ne!(
        commit_evaluations(&mmcs, p1.ntt()).commitment,
        commit_evaluations(&mmcs, p2.ntt()).commitment,
    );
}

#[test]
fn commitment_is_a_single_canonical_root() {
    let mmcs = make_mmcs(3);
    assert_eq!(mmcs.seed(), 3);
    assert_eq!(mmcs.cap_height(), 0);
    let c = commit_evaluations(&mmcs, evals(&[5, 6, 7, 8]));
    assert_eq!(c.commitment.digests.len(), 1);
    assert!(c.commitment.digests[0].iter().all(|w| *w < GOLDILOCKS_PRIME));
}

#[test]
fn same_seed_separate_instances_agree() {
    let v = evals(&[9, 8, 7, 6]);
    let a = commit_evaluations(&make_mmcs(5), v.clone());
    let b = commit_evaluations(&make_mmcs(5), v);
    assert_eq!(a.commitment, b.commitment);
}

#[test]
fn equal_values_commit_equally() {
    // Values are committed modulo p: p + 1 and 1 are the same field element.
    let mmcs = make_mmcs(0);
    let a = commit_evaluations(&mmcs, evals(&[1, 2]));
    let b = commit_evaluations(&mmcs, evals(&[GOLDILOCKS_PRIME + 1, 2]));
    assert_eq!(a.commitment, b.commitment);
}

#[test]
fn commits_columns_of_any_nonzero_height() {
    let mmcs = make_mmcs(11);
    for n in 1u64..=9 {
        let v: Vec<Felt> = (0..n).map(from_u64).collect();
        let c = commit_evaluations(&mmcs, v);
        assert_eq!(c.commitment.digests.len(), 1);
    }
}
