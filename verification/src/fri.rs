//! The FRI low-degree test over Goldilocks.
//!
//! FRI parameters built on the Merkle MMCS of `crate::merkle`, the FRI
//! polynomial commitment scheme of `p3-fri`, a Fiat-Shamir challenger, and
//! the single-polynomial round trip: commit to the polynomial's evaluations
//! on the natural two-adic subgroup, sample an opening point from the
//! transcript, open there with a FRI proof, and verify.
use vstd::prelude::*;
use vstd::arithmetic::div_mod::lemma_small_mod;

use p3_commit::ExtensionMmcs;
use p3_field::extension::BinomialExtensionField;
use p3_fri::verifier::FriError;
use p3_fri::FriParameters;
use p3_goldilocks::Goldilocks;
use p3_merkle_tree::MerkleTreeError;

use crate::field_arith::{exp_pow2, from_u64, prime, Felt, GOLDILOCKS_PRIME, TWO_ADICITY};
use crate::merkle::{cap_words, make_mmcs, Commitment, MerkleMmcs, MERKLE_CAP_HEIGHT};
use crate::plonky3_calls::{
    absorb_events, duplex_challenger_new, extension_mmcs_new, pcs_commit_column, pcs_open_at, pcs_verify_at,
    poseidon2_from_rng, small_rng_from_seed, test_fri_params, two_adic_fri_pcs_new,
};
use crate::poly::DensePoly;
use crate::poly_spec::{ceil_log2, is_pow2, lemma_pow2_mono, lemma_pow2_props, ntt_spec, pow2, vals};

pub use crate::plonky3_calls::{FriParams, FriPcs, FsChallenger, OpeningProof};

verus! {

#[verifier::external_type_specification]
#[verifier::external_body]
#[verifier::reject_recursive_types(F)]
#[verifier::reject_recursive_types(A)]
pub struct ExBinomialExtensionField<F, const D: usize, A>(BinomialExtensionField<F, D, A>);

#[verifier::external_type_specification]
#[verifier::external_body]
#[verifier::reject_recursive_types(F)]
#[verifier::reject_recursive_types(EF)]
#[verifier::reject_recursive_types(InnerMmcs)]
pub struct ExExtensionMmcs<F, EF, InnerMmcs>(ExtensionMmcs<F, EF, InnerMmcs>);

#[verifier::external_type_specification]
#[verifier::external_body]
#[verifier::reject_recursive_types(M)]
pub struct ExFriParameters<M>(FriParameters<M>);

#[verifier::external_type_specification]
#[verifier::external_body]
pub struct ExMerkleTreeError(MerkleTreeError);

#[verifier::external_type_specification]
#[verifier::reject_recursive_types(CommitMmcsErr)]
#[verifier::reject_recursive_types(InputError)]
pub struct ExFriError<CommitMmcsErr: core::fmt::Debug, InputError: core::fmt::Debug>(
    FriError<CommitMmcsErr, InputError>,
);

/// Base field for trace polynomials.
pub type Val = Goldilocks;

/// Degree-2 binomial extension of Goldilocks (`W = 7`), the field of the
/// FRI challenges: about 128 bits of soundness.
pub type Challenge = BinomialExtensionField<Val, 2>;

/// MMCS for FRI commit-phase commitments: the input Merkle tree shape,
/// lifted over the extension field.
pub type ChallengeMmcs = ExtensionMmcs<Val, Challenge, MerkleMmcs>;

/// The scalar settings of a set of FRI parameters.
#[derive(Clone, Copy, Debug, PartialEq, Eq)]
pub struct FriShape {
    pub log_blowup: usize,
    pub log_final_poly_len: usize,
    pub max_log_arity: usize,
    pub num_queries: usize,
    pub commit_proof_of_work_bits: usize,
    pub query_proof_of_work_bits: usize,
}

/// The settings of `create_test_fri_params`: log blowup 2, the given log
/// final polynomial length, binary folding, two queries, one bit of proof of
/// work before the commit-phase challenges and one before the queries.
pub open spec fn test_fri_shape(log_final_poly_len: usize) -> FriShape {
    FriShape {
        log_blowup: 2,
        log_final_poly_len,
        max_log_arity: 1,
        num_queries: 2,
        commit_proof_of_work_bits: 1,
        query_proof_of_work_bits: 1,
    }
}

/// `2^k` as a `usize`.
pub(crate) fn pow2_usize(k: usize) -> (r: usize)
    requires
        pow2(k as nat) <= usize::MAX,
    ensures
        r == pow2(k as nat),
{
    let mut r: usize = 1;
    let mut i: usize = 0;
    while i < k
        invariant
            i <= k,
            r == pow2(i as nat),
            pow2(k as nat) <= usize::MAX,
        decreases k - i,
    {
        proof {
            crate::poly_spec::lemma_pow2_mono((i + 1) as nat, k as nat);
        }
        r = r * 2;
        i = i + 1;
    }
    r
}

/// Build FRI parameters with the `create_test_fri_params` settings of
/// `p3-fri` (log blowup 2, two queries, binary folding, one bit of proof of
/// work for commits and for queries, the given log final polynomial length).
/// The seed picks the Poseidon2 round constants of the commit-phase MMCS.
pub fn make_fri_params(seed: u64, log_final_poly_len: usize) -> (r: FriParams)
    ensures
        r@ == (test_fri_shape(log_final_poly_len), seed),
{
    test_fri_params(extension_mmcs_new(make_mmcs(seed)), log_final_poly_len)
}

/// The evaluations that the low-degree prover commits to, with the base-two
/// logarithm of their number: the polynomial's values on the natural
/// two-adic subgroup of order `2^log_height`, the least power of two not
/// below its number of coefficients. The polynomial must have at least two
/// coefficients, so that there are at least two evaluations.
pub fn low_degree_evaluations(poly: &DensePoly) -> (r: (Vec<Felt>, usize))
    requires
        poly@.len() >= 2,
        poly@.len() <= pow2(TWO_ADICITY as nat),
        poly@.len() <= usize::MAX / 2,
    ensures
        vals(r.0@) == ntt_spec(poly@),
        r.1 == ceil_log2(poly@.len()),
        r.0@.len() == pow2(r.1 as nat),
        1 <= r.1 <= TWO_ADICITY,
{
    let evals = poly.ntt();
    let height = evals.len();
    let ghost k = ceil_log2(poly@.len());
    let mut m = height;
    let mut log: usize = 0;
    proof {
        lemma_pow2_props(k);
        assert(pow2(0) == 1);
        assert(m * 1 == m);
    }
    while m > 1
        invariant
            height == pow2(k),
            is_pow2(m as nat),
            m >= 1,
            m * pow2(log as nat) == height,
            log <= k,
            k <= TWO_ADICITY,
        decreases m,
    {
        proof {
            assert(pow2((log + 1) as nat) == 2 * pow2(log as nat));
            assert((m / 2) * 2 == m);
            assert((m / 2) * pow2((log + 1) as nat) == height) by (nonlinear_arith)
                requires
                    (m / 2) * 2 == m,
                    pow2((log + 1) as nat) == 2 * pow2(log as nat),
                    m * pow2(log as nat) == height,
            ;
            if log + 1 > k {
                crate::poly_spec::lemma_pow2_mono(k, (log + 1) as nat);
                assert(m / 2 >= 1);
                assert((m / 2) * pow2((log + 1) as nat) >= pow2((log + 1) as nat)) by (nonlinear_arith)
                    requires
                        m / 2 >= 1,
                ;
                assert(pow2((log + 1) as nat) > pow2(k)) by {
                    crate::poly_spec::lemma_pow2_mono(k + 1, (log + 1) as nat);
                    assert(pow2(k + 1) == 2 * pow2(k));
                    lemma_pow2_props(k);
                }
            }
        }
        m = m / 2;
        log = log + 1;
    }
    proof {
        lemma_pow2_props(log as nat);
        lemma_pow2_props(k);
        assert(pow2(log as nat) == pow2(k));
    }
    (evals, log)
}

/// If `2^k` reaches `n`, the least such exponent is at most `k`.
proof fn lemma_ceil_log2_le(n: nat, k: nat)
    requires
        pow2(k) >= n,
    ensures
        ceil_log2(n) <= k,
    decreases n,
{
    if n > 1 {
        assert(k > 0);
        let j = (k - 1) as nat;
        assert(pow2(k) == 2 * pow2(j));
        lemma_ceil_log2_le(((n + 1) / 2) as nat, j);
    }
}

/// `2^ceil_log2(n)` reaches `n`.
proof fn lemma_ceil_log2_covers(n: nat)
    ensures
        pow2(ceil_log2(n)) >= n,
    decreases n,
{
    if n > 1 {
        lemma_ceil_log2_covers(((n + 1) / 2) as nat);
        assert(pow2(ceil_log2(n)) == 2 * pow2(ceil_log2(((n + 1) / 2) as nat)));
    }
}

/// Largest base-two logarithm of a committed column. Its low-degree
/// extension is four times as tall, and a query into it samples
/// `log_height + 2` bits, which must stay below the width of `usize`
/// (32 on the smallest targets).
pub const MAX_LOG_HEIGHT: usize = 29usize;

/// The multiplicative generator of Goldilocks (`Goldilocks::GENERATOR`):
/// the shift of the coset on which the committed evaluations are extended.
pub const COSET_SHIFT: u64 = 7u64;

/// The non-residue `W` of the degree-2 extension `F[X] / (X^2 - W)`.
pub const EXT_W: u64 = 7u64;

/// An element `c0 + c1 X` of the degree-2 extension, as the pair of its
/// coefficients.
pub open spec fn ext_pair(w: [u64; 2]) -> (int, int) {
    (w[0] as int, w[1] as int)
}

/// Both coefficients are canonical.
pub open spec fn ext_canonical(w: [u64; 2]) -> bool {
    w[0] < GOLDILOCKS_PRIME && w[1] < GOLDILOCKS_PRIME
}

/// Sum in the extension.
pub open spec fn ext_add(a: (int, int), b: (int, int)) -> (int, int) {
    ((a.0 + b.0) % prime(), (a.1 + b.1) % prime())
}

/// Product in the extension, with `X^2 = W`.
pub open spec fn ext_mul(a: (int, int), b: (int, int)) -> (int, int) {
    ((a.0 * b.0 + EXT_W * (a.1 * b.1)) % prime(), (a.0 * b.1 + a.1 * b.0) % prime())
}

/// The polynomial with base-field coefficients `s` evaluated at the
/// extension element `z` (Horner's rule).
pub open spec fn ext_horner(s: Seq<int>, z: (int, int)) -> (int, int)
    decreases s.len(),
{
    if s.len() == 0 {
        (0, 0)
    } else {
        ext_add(ext_mul(ext_horner(s.drop_first(), z), z), (s[0] % prime(), 0))
    }
}

/// The extension element `z` (with canonical coefficients) lies in the
/// coset `COSET_SHIFT * K` of the subgroup `K` of order `2^log_size`: it is
/// in the base field, and its `2^log_size`-th power is that of the shift.
pub open spec fn in_lde_coset(z: [u64; 2], log_size: nat) -> bool {
    z[1] == 0 && exp_pow2(z[0] as int, log_size) == exp_pow2(COSET_SHIFT as int, log_size)
}

/// Whether `z` lies in the coset `COSET_SHIFT * K`, `|K| = 2^log_size`.
fn lies_in_lde_coset(z: [u64; 2], log_size: usize) -> (r: bool)
    requires
        ext_canonical(z),
    ensures
        r == in_lde_coset(z, log_size as nat),
{
    if z[1] != 0 {
        return false;
    }
    let a = from_u64(z[0]).exp_power_of_2(log_size);
    let b = from_u64(COSET_SHIFT).exp_power_of_2(log_size);
    proof {
        lemma_small_mod(z[0] as nat, prime() as nat);
        lemma_small_mod(COSET_SHIFT as nat, prime() as nat);
    }
    a.equals(&b)
}

/// Build a FRI PCS. The one seed parameterises both the input MMCS and the
/// FRI commit-phase MMCS; commitments are a single Merkle root.
pub fn make_pcs(seed: u64, log_final_poly_len: usize) -> (r: FriPcs)
    ensures
        r@ == (seed, log_final_poly_len, MERKLE_CAP_HEIGHT),
{
    two_adic_fri_pcs_new(make_mmcs(seed), make_fri_params(seed, log_final_poly_len))
}

/// Build a fresh challenger over the Poseidon2 permutation that
/// [`make_mmcs`] and [`make_pcs`] draw from the same seed. It has absorbed
/// and sampled nothing.
pub fn make_challenger(seed: u64) -> (r: FsChallenger)
    ensures
        r@ == (seed, Seq::<u64>::empty(), Seq::<(Seq<u64>, [u64; 2])>::empty()),
        r.transcript() == Seq::<Option<u64>>::empty(),
{
    let mut rng = small_rng_from_seed(seed);
    let perm = poseidon2_from_rng(&mut rng);
    duplex_challenger_new(perm)
}

/// Why a low-degree proof was rejected: the variants of `FriError`, and an
/// opening point sampled inside the extension coset.
#[derive(Clone, Copy, Debug, PartialEq, Eq)]
pub enum VerifyError {
    InvalidProofShape,
    CommitPhaseMmcsError,
    InputError,
    FinalPolyMismatch,
    InvalidPowWitness,
    MissingInput,
    OpeningPointInDomain,
}

/// Why no low-degree proof was made: the opening point sampled from the
/// transcript lies in the coset on which the evaluations are extended.
#[derive(Clone, Copy, Debug, PartialEq, Eq)]
pub enum ProveError {
    OpeningPointInDomain,
}

/// Output of [`prove_low_degree`].
pub struct LowDegreeProof {
    /// The Merkle cap over the extended evaluations.
    pub commitment: Commitment,
    /// Claimed value `f(zeta)` at the opening point, `[c0, c1]`.
    pub opened_value: [u64; 2],
    /// The FRI proof produced by `TwoAdicFriPcs::open`.
    pub proof: OpeningProof,
    /// `log2` of the number of evaluations committed to.
    pub log_height: usize,
    /// The opening point the prover sampled (the verifier samples its own).
    pub zeta: [u64; 2],
}

/// The transcript `t` continued by absorbing the cap `digests` and squeezing
/// out one extension-field challenge.
pub open spec fn after_commit_and_point(t: Seq<Option<u64>>, digests: Seq<[u64; 4]>) -> Seq<Option<u64>> {
    t + absorb_events(cap_words(digests)) + seq![None::<u64>, None::<u64>]
}

/// `p` is, as it stands, a proof made with a scheme of view `pcs` on a
/// challenger of seed `seed` and transcript `t`: its FRI opening is intact
/// and began on that challenger right after absorbing `p`'s commitment and
/// sampling `p`'s point, which lies outside the extension coset, and it
/// opens the committed column at that point for `p`'s value.
pub open spec fn made_from(p: LowDegreeProof, pcs: (u64, usize, usize), seed: u64, t: Seq<Option<u64>>) -> bool {
    &&& p.proof.intact()
    &&& p.proof.origin() == (
        pcs,
        seed,
        after_commit_and_point(t, p.commitment.digests@),
        p.zeta,
        p.opened_value,
        p.commitment.digests@,
        p.log_height,
    )
    &&& !in_lde_coset(p.zeta, (p.log_height + 2) as nat)
}

/// The library's error for each variant of `FriError`.
fn verify_error_of(e: FriError<MerkleTreeError, MerkleTreeError>) -> (r: VerifyError)
    ensures
        r != VerifyError::OpeningPointInDomain,
        e is InvalidProofShape ==> r == VerifyError::InvalidProofShape,
        e is CommitPhaseMmcsError ==> r == VerifyError::CommitPhaseMmcsError,
        e is InputError ==> r == VerifyError::InputError,
        e is FinalPolyMismatch ==> r == VerifyError::FinalPolyMismatch,
        e is InvalidPowWitness ==> r == VerifyError::InvalidPowWitness,
        e is MissingInput ==> r == VerifyError::MissingInput,
{
    match e {
        FriError::InvalidProofShape => VerifyError::InvalidProofShape,
        FriError::CommitPhaseMmcsError(_) => VerifyError::CommitPhaseMmcsError,
        FriError::InputError(_) => VerifyError::InputError,
        FriError::FinalPolyMismatch => VerifyError::FinalPolyMismatch,
        FriError::InvalidPowWitness => VerifyError::InvalidPowWitness,
        FriError::MissingInput => VerifyError::MissingInput,
    }
}

/// Commit to the polynomial through its evaluations on the natural two-adic
/// subgroup, absorb the commitment into the transcript, sample an opening
/// point `zeta`, and open there with a FRI proof of the value `f(zeta)`.
/// Fails, where Plonky3 would panic, exactly when the sampled point lies in
/// the coset on which the evaluations are extended.
pub fn prove_low_degree(pcs: &FriPcs, poly: &DensePoly, challenger: &mut FsChallenger) -> (r: Result<
    LowDegreeProof,
    ProveError,
>)
    requires
        2 <= poly@.len() <= pow2(MAX_LOG_HEIGHT as nat),
        pcs@.2 == 0,
        pcs@.1 == 0 || ceil_log2(poly@.len()) > pcs@.1,
    ensures
        final(challenger)@.0 == old(challenger)@.0,
        final(challenger)@.2.len() > old(challenger)@.2.len(),
        old(challenger)@.1.is_prefix_of(final(challenger)@.2[old(challenger)@.2.len() as int].0),
        match r {
            Ok(p) => {
                &&& p.log_height == ceil_log2(poly@.len())
                &&& p.commitment.digests@.len() == 1
                &&& forall|j: int| 0 <= j < 4 ==> #[trigger] p.commitment.digests@[0][j] < GOLDILOCKS_PRIME
                &&& final(challenger)@.2[old(challenger)@.2.len() as int] == (
                    old(challenger)@.1 + cap_words(p.commitment.digests@),
                    p.zeta,
                )
                &&& !in_lde_coset(p.zeta, (p.log_height + 2) as nat)
                &&& ext_canonical(p.opened_value)
                &&& ext_pair(p.opened_value) == ext_horner(poly@, ext_pair(p.zeta))
                &&& p.proof@ == (pcs@.1, p.log_height)
                &&& (old(challenger)@.1 + cap_words(p.commitment.digests@)).is_prefix_of(
                    final(challenger)@.1,
                )
                &&& made_from(p, pcs@, old(challenger)@.0, old(challenger).transcript())
                &&& after_commit_and_point(old(challenger).transcript(), p.commitment.digests@).is_prefix_of(
                    final(challenger).transcript(),
                )
            },
            Err(ProveError::OpeningPointInDomain) => {
                &&& final(challenger)@.2.len() == old(challenger)@.2.len() + 1
                &&& in_lde_coset(
                    final(challenger)@.2[old(challenger)@.2.len() as int].1,
                    (ceil_log2(poly@.len()) + 2) as nat,
                )
            },
        },
{
    proof {
        reveal_with_fuel(pow2, 31);
        assert(pow2(29) == 536870912);
        lemma_pow2_mono(MAX_LOG_HEIGHT as nat, TWO_ADICITY as nat);
        lemma_ceil_log2_le(poly@.len(), MAX_LOG_HEIGHT as nat);
        lemma_ceil_log2_covers(poly@.len());
    }
    let (evals, log_height) = low_degree_evaluations(poly);
    let height = evals.len();
    let (commitment, mut column) = pcs_commit_column(pcs, evals, log_height, height);
    column.set_coeffs(Ghost(poly@));
    let ghost after_commit = challenger@.1 + cap_words(commitment.digests@);
    let ghost n_samples = challenger@.2.len();
    proof {
        assert(is_pow2(1));
    }
    challenger.observe_commitment(&commitment);
    let zeta = challenger.sample_challenge();
    if lies_in_lde_coset(zeta, log_height + 2) {
        return Err(ProveError::OpeningPointInDomain);
    }
    let ghost before_open = challenger@.2;
    let ghost t_open = challenger.transcript();
    let (opened_value, proof) = pcs_open_at(pcs, &column, zeta, challenger);
    proof {
        assert(t_open.is_prefix_of(challenger.transcript()));
        assert(after_commit.is_prefix_of(challenger@.1));
        assert(before_open[n_samples as int] == challenger@.2[n_samples as int]);
    }
    Ok(LowDegreeProof { commitment, opened_value, proof, log_height, zeta })
}

/// Verify a [`LowDegreeProof`]: absorb its commitment, sample the opening
/// point afresh (the proof's `zeta` is not consulted), and check the FRI
/// proof of the claimed value there. Rejects, where Plonky3 could panic,
/// exactly when the fresh point lies in the coset on which the evaluations
/// are extended.
pub fn verify_low_degree(pcs: &FriPcs, proof: &LowDegreeProof, challenger: &mut FsChallenger) -> (r: Result<
    (),
    VerifyError,
>)
    requires
        proof.commitment.digests@.len() == pow2(pcs@.2 as nat),
        1 <= proof.log_height <= MAX_LOG_HEIGHT,
        proof.proof@ == (pcs@.1, proof.log_height),
    ensures
        final(challenger)@.0 == old(challenger)@.0,
        (old(challenger)@.1 + cap_words(proof.commitment.digests@)).is_prefix_of(final(challenger)@.1),
        final(challenger)@.2.len() > old(challenger)@.2.len(),
        final(challenger)@.2[old(challenger)@.2.len() as int].0 == old(challenger)@.1 + cap_words(
            proof.commitment.digests@,
        ),
        (r matches Err(VerifyError::OpeningPointInDomain)) <==> in_lde_coset(
            final(challenger)@.2[old(challenger)@.2.len() as int].1,
            (proof.log_height + 2) as nat,
        ),
        made_from(*proof, pcs@, old(challenger)@.0, old(challenger).transcript())
            && final(challenger)@.2[old(challenger)@.2.len() as int].1 == proof.zeta ==> r is Ok,
{
    let ghost after_commit = challenger@.1 + cap_words(proof.commitment.digests@);
    let ghost n_samples = challenger@.2.len();
    proof {
        lemma_pow2_props(pcs@.2 as nat);
    }
    challenger.observe_commitment(&proof.commitment);
    let zeta = challenger.sample_challenge();
    if lies_in_lde_coset(zeta, proof.log_height + 2) {
        return Err(VerifyError::OpeningPointInDomain);
    }
    proof {
        reveal_with_fuel(pow2, 31);
        assert(pow2(29) == 536870912);
        lemma_pow2_mono(proof.log_height as nat, MAX_LOG_HEIGHT as nat);
    }
    let height = pow2_usize(proof.log_height);
    let ghost before_check = challenger@.2;
    let checked = pcs_verify_at(
        pcs,
        &proof.commitment.digests,
        proof.opened_value,
        &proof.proof,
        proof.log_height,
        height,
        zeta,
        challenger,
    );
    proof {
        assert(after_commit.is_prefix_of(challenger@.1));
        assert(before_check[n_samples as int] == challenger@.2[n_samples as int]);
    }
    match checked {
        Ok(()) => Ok(()),
        Err(e) => Err(verify_error_of(e)),
    }
}

} // verus!
