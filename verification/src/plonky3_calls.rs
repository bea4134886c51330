//! The values that hold Plonky3 and `rand` objects, and the trusted calls
//! that make and use them.
//!
//! Every value here that carries an outside object also records, in private
//! fields, what it was made from: the seed of the generator behind its
//! Poseidon2 constants, the FRI settings, the transcript of a challenger,
//! the commit that an opening proof belongs to. Only the calls of this
//! module construct such values, so the records can be relied on by the
//! library's logic in `crate::merkle` and `crate::fri`.
use vstd::prelude::*;

use p3_challenger::{CanObserve, CanSampleBits, DuplexChallenger, FieldChallenger};
use p3_commit::{BatchOpening, Mmcs, Pcs as PcsTrait};
use p3_dft::Radix2Dit;
use p3_field::{BasedVectorSpace, PrimeField64};
use p3_fri::verifier::FriError;
use p3_fri::{create_test_fri_params, FriParameters, FriProof, TwoAdicFriPcs};
use p3_goldilocks::Goldilocks;
use p3_matrix::dense::RowMajorMatrix;
use p3_merkle_tree::MerkleTreeError;
use p3_symmetric::MerkleCap;
use rand::rngs::SmallRng;
use rand::SeedableRng;

use crate::field_arith::{to_canonical_u64, Felt, GOLDILOCKS_PRIME};
use crate::fri::{
    ext_canonical, ext_horner, ext_pair, in_lde_coset, pow2_usize, test_fri_shape, Challenge, ChallengeMmcs,
    FriShape, Val, MAX_LOG_HEIGHT,
};
use crate::merkle::{
    cap_words, committed_column, Commitment, Compress, Hasher, MerkleMmcs, Perm, ProverData, RATE, WIDTH,
};
use crate::poly_spec::{is_pow2, ntt_spec, pow2, vals};

verus! {

/// The challenger events of absorbing `words`, in order.
pub open spec fn absorb_events(words: Seq<u64>) -> Seq<Option<u64>> {
    words.map_values(|w: u64| Some(w))
}

// ---------------------------------------------------------------------------
// Generator and permutation
// ---------------------------------------------------------------------------

/// A `SmallRng` with the seed it was started from.
pub(crate) struct SeededRng {
    rng: SmallRng,
    seed: u64,
}

impl SeededRng {
    /// The seed the generator was started from.
    pub(crate) closed spec fn drawn_from(&self) -> u64 {
        self.seed
    }
}

/// A width-8 Poseidon2 permutation with the seed of the generator its round
/// constants were drawn from.
pub(crate) struct SeededPerm {
    perm: Perm,
    seed: u64,
}

impl SeededPerm {
    /// The seed of the generator the round constants were drawn from.
    pub(crate) closed spec fn drawn_from(&self) -> u64 {
        self.seed
    }
}

/// Calls `SmallRng::seed_from_u64(seed)` of `rand`, keeping the seed beside
/// the generator. Nothing is claimed of the generator's state.
#[verifier::external_body]
pub(crate) fn small_rng_from_seed(seed: u64) -> (r: SeededRng)
    ensures
        r.drawn_from() == seed,
{
    SeededRng { rng: SmallRng::seed_from_u64(seed), seed }
}

/// Calls `Poseidon2::new_from_rng_128` of `p3-poseidon2` for width-8
/// Goldilocks, drawing the round constants from the generator, and keeps
/// the generator's seed beside the permutation. Nothing is claimed of the
/// permutation itself.
#[verifier::external_body]
pub(crate) fn poseidon2_from_rng(rng: &mut SeededRng) -> (r: SeededPerm)
    ensures
        r.drawn_from() == old(rng).drawn_from(),
        final(rng).drawn_from() == old(rng).drawn_from(),
{
    SeededPerm { perm: Perm::new_from_rng_128(&mut rng.rng), seed: rng.seed }
}

/// Calls `Clone::clone` on the permutation (a copy of its round constants),
/// keeping its seed.
#[verifier::external_body]
pub(crate) fn perm_clone(perm: &SeededPerm) -> (r: SeededPerm)
    ensures
        r.drawn_from() == perm.drawn_from(),
{
    SeededPerm { perm: perm.perm.clone(), seed: perm.seed }
}

// ---------------------------------------------------------------------------
// Merkle MMCS
// ---------------------------------------------------------------------------

/// The leaf hasher with the seed of its permutation's constants.
pub(crate) struct SeededHasher {
    hasher: Hasher,
    seed: u64,
}

impl SeededHasher {
    /// The seed of the generator behind the permutation.
    pub(crate) closed spec fn drawn_from(&self) -> u64 {
        self.seed
    }
}

/// The node compression with the seed of its permutation's constants.
pub(crate) struct SeededCompress {
    compress: Compress,
    seed: u64,
}

impl SeededCompress {
    /// The seed of the generator behind the permutation.
    pub(crate) closed spec fn drawn_from(&self) -> u64 {
        self.seed
    }
}

/// Calls `PaddingFreeSponge::new(perm)` of `p3-symmetric`, keeping the seed.
#[verifier::external_body]
pub(crate) fn sponge_new(perm: SeededPerm) -> (r: SeededHasher)
    ensures
        r.drawn_from() == perm.drawn_from(),
{
    SeededHasher { hasher: Hasher::new(perm.perm), seed: perm.seed }
}

/// Calls `TruncatedPermutation::new(perm)` of `p3-symmetric`, keeping the
/// seed.
#[verifier::external_body]
pub(crate) fn compression_new(perm: SeededPerm) -> (r: SeededCompress)
    ensures
        r.drawn_from() == perm.drawn_from(),
{
    SeededCompress { compress: Compress::new(perm.perm), seed: perm.seed }
}

/// An MMCS over Goldilocks together with the seed that fixed its Poseidon2
/// round constants. Use `crate::merkle::make_mmcs` to construct one.
pub struct GoldilocksMmcs {
    inner: MerkleMmcs,
    seed: u64,
    cap_height: usize,
}

impl View for GoldilocksMmcs {
    type V = (u64, usize);

    /// The seed of the generator that the Poseidon2 round constants of the
    /// hasher and the compression were drawn from, and the cap height that
    /// the MMCS was built with.
    closed spec fn view(&self) -> (u64, usize) {
        (self.seed, self.cap_height)
    }
}

impl GoldilocksMmcs {
    /// The Plonky3 MMCS held by this value.
    pub closed spec fn mmcs(&self) -> MerkleMmcs {
        self.inner
    }

    /// The seed this MMCS was built from.
    pub fn seed(&self) -> (r: u64)
        ensures
            r == self@.0,
    {
        self.seed
    }

    /// The height of the Merkle cap that this MMCS commits to.
    pub fn cap_height(&self) -> (r: usize)
        ensures
            r == self@.1,
    {
        self.cap_height
    }

    /// The Plonky3 MMCS.
    pub fn inner(&self) -> (r: &MerkleMmcs)
        ensures
            *r == self.mmcs(),
    {
        &self.inner
    }

    /// The Plonky3 MMCS, by value.
    pub fn into_inner(self) -> (r: MerkleMmcs)
        ensures
            r == self.mmcs(),
    {
        self.inner
    }
}

/// Calls `MerkleTreeMmcs::new(hasher, compress, cap_height)` of
/// `p3-merkle-tree`, recording the seed that both permutations were drawn
/// from.
#[verifier::external_body]
pub(crate) fn merkle_mmcs_new(hasher: SeededHasher, compress: SeededCompress, cap_height: usize) -> (r: GoldilocksMmcs)
    requires
        hasher.drawn_from() == compress.drawn_from(),
    ensures
        r@ == (hasher.drawn_from(), cap_height),
{
    GoldilocksMmcs { inner: MerkleMmcs::new(hasher.hasher, compress.compress, cap_height), seed: hasher.seed, cap_height }
}

/// Where a commitment came from: the cap and the tree that one commit
/// produced together. Only a commit makes one.
pub struct CommitOrigin {
    made: Ghost<(Seq<[u64; 4]>, ProverData)>,
}

impl CommitOrigin {
    /// The cap the commit produced.
    pub closed spec fn cap(&self) -> Seq<[u64; 4]> {
        self.made@.0
    }

    /// The tree the commit produced.
    pub closed spec fn tree(&self) -> ProverData {
        self.made@.1
    }
}

/// Bundle of prover/verifier outputs from a single commitment.
pub struct CommitResult {
    /// Sent to the verifier.
    pub commitment: Commitment,
    /// Retained by the prover for later opening proofs.
    pub prover_data: ProverData,
    /// The commit that produced both.
    pub origin: CommitOrigin,
}

impl CommitResult {
    /// The commitment is the cap of the prover data's tree: both are, as
    /// they stand, what one commit produced together.
    pub open spec fn cap_of_prover_data(&self) -> bool {
        &&& self.origin.cap() == self.commitment.digests@
        &&& self.origin.tree() == self.prover_data
    }
}

/// Calls `Mmcs::commit_vec` of `p3-merkle-tree` on the evaluations as one
/// column, and reads the cap back with `as_canonical_u64`. Trusted: that the
/// commit does not panic on a nonempty column; that the digests are the cap
/// of the tree it returns, and that this tree holds that column as its
/// leaves (`MerkleTree::new` stores the matrices it is given); that with cap
/// height 0 (the MMCS's recorded cap height, which `make_mmcs` passes to
/// `MerkleTreeMmcs::new`) the cap is the single root; and that every word is
/// canonical. Which root comes out is not stated: it rests on the
/// platform-dependent `SmallRng` behind the hash constants.
#[verifier::external_body]
pub(crate) fn mmcs_commit_column(mmcs: &GoldilocksMmcs, evaluations: Vec<Felt>) -> (r: CommitResult)
    requires
        evaluations@.len() > 0,
        mmcs@.1 == 0,
    ensures
        r.commitment.digests@.len() == 1,
        forall|j: int| 0 <= j < 4 ==> #[trigger] r.commitment.digests@[0][j] < GOLDILOCKS_PRIME,
        committed_column(r.prover_data) == vals(evaluations@),
        r.cap_of_prover_data(),
{
    let column: Vec<Goldilocks> = evaluations.iter().map(|x| Goldilocks::new(to_canonical_u64(*x))).collect();
    let (cap, prover_data) = mmcs.inner.commit_vec(column);
    let digests: Vec<[u64; 4]> = cap.roots().iter().map(|d| d.map(|w| w.as_canonical_u64())).collect();
    let origin = CommitOrigin { made: Ghost((digests@, prover_data)) };
    CommitResult { commitment: Commitment { digests }, prover_data, origin }
}

// ---------------------------------------------------------------------------
// FRI parameters
// ---------------------------------------------------------------------------

/// The commit-phase MMCS of FRI with the seed of its constants.
pub(crate) struct SeededChallengeMmcs {
    mmcs: ChallengeMmcs,
    seed: u64,
}

impl SeededChallengeMmcs {
    /// The seed of the generator behind the permutation.
    pub(crate) closed spec fn drawn_from(&self) -> u64 {
        self.seed
    }
}

/// Calls `ExtensionMmcs::new(inner)` of `p3-commit` on the Plonky3 MMCS of
/// `inner`, keeping its seed.
#[verifier::external_body]
pub(crate) fn extension_mmcs_new(inner: GoldilocksMmcs) -> (r: SeededChallengeMmcs)
    ensures
        r.drawn_from() == inner@.0,
{
    SeededChallengeMmcs { mmcs: ChallengeMmcs::new(inner.inner), seed: inner.seed }
}

/// FRI parameters together with their scalar settings and the seed of the
/// commit-phase MMCS. Use `crate::fri::make_fri_params` to construct them.
pub struct FriParams {
    inner: FriParameters<ChallengeMmcs>,
    shape: FriShape,
    seed: u64,
}

impl View for FriParams {
    type V = (FriShape, u64);

    /// The scalar settings and the seed of the commit-phase MMCS.
    closed spec fn view(&self) -> (FriShape, u64) {
        (self.shape, self.seed)
    }
}

impl FriParams {
    /// `log2` of the blowup factor.
    pub fn log_blowup(&self) -> (r: usize)
        ensures
            r == self@.0.log_blowup,
    {
        self.shape.log_blowup
    }

    /// `log2` of the final polynomial length.
    pub fn log_final_poly_len(&self) -> (r: usize)
        ensures
            r == self@.0.log_final_poly_len,
    {
        self.shape.log_final_poly_len
    }

    /// `log2` of the largest folding arity.
    pub fn max_log_arity(&self) -> (r: usize)
        ensures
            r == self@.0.max_log_arity,
    {
        self.shape.max_log_arity
    }

    /// Number of queries.
    pub fn num_queries(&self) -> (r: usize)
        ensures
            r == self@.0.num_queries,
    {
        self.shape.num_queries
    }

    /// Proof-of-work bits before each commit-phase challenge.
    pub fn commit_proof_of_work_bits(&self) -> (r: usize)
        ensures
            r == self@.0.commit_proof_of_work_bits,
    {
        self.shape.commit_proof_of_work_bits
    }

    /// Proof-of-work bits before the queries.
    pub fn query_proof_of_work_bits(&self) -> (r: usize)
        ensures
            r == self@.0.query_proof_of_work_bits,
    {
        self.shape.query_proof_of_work_bits
    }

    /// The blowup factor `2^log_blowup`.
    pub fn blowup(&self) -> (r: usize)
        requires
            pow2(self@.0.log_blowup as nat) <= usize::MAX,
        ensures
            r == pow2(self@.0.log_blowup as nat),
    {
        pow2_usize(self.shape.log_blowup)
    }

    /// The final polynomial length `2^log_final_poly_len`.
    pub fn final_poly_len(&self) -> (r: usize)
        requires
            pow2(self@.0.log_final_poly_len as nat) <= usize::MAX,
        ensures
            r == pow2(self@.0.log_final_poly_len as nat),
    {
        pow2_usize(self.shape.log_final_poly_len)
    }

    /// Soundness bits under the ethSTARK conjecture:
    /// `log_blowup * num_queries + query_proof_of_work_bits`.
    pub fn conjectured_soundness_bits(&self) -> (r: usize)
        requires
            self@.0.log_blowup * self@.0.num_queries + self@.0.query_proof_of_work_bits <= usize::MAX,
        ensures
            r == self@.0.log_blowup * self@.0.num_queries + self@.0.query_proof_of_work_bits,
    {
        proof {
            vstd::arithmetic::mul::lemma_mul_nonnegative(self.shape.log_blowup as int, self.shape.num_queries as int);
        }
        self.shape.log_blowup * self.shape.num_queries + self.shape.query_proof_of_work_bits
    }

    /// The Plonky3 parameters.
    pub fn inner(&self) -> (r: &FriParameters<ChallengeMmcs>)
        ensures
            *r == self.params(),
    {
        &self.inner
    }

    /// The Plonky3 parameters, by value.
    pub fn into_inner(self) -> (r: FriParameters<ChallengeMmcs>)
        ensures
            r == self.params(),
    {
        self.inner
    }

    /// The Plonky3 parameters held by this value.
    pub closed spec fn params(&self) -> FriParameters<ChallengeMmcs> {
        self.inner
    }
}

/// Calls `create_test_fri_params(mmcs, log_final_poly_len)` of `p3-fri` and
/// reads its scalar fields back, keeping the MMCS's seed. Trusted: that they
/// are the settings that the source of `create_test_fri_params` writes
/// (`test_fri_shape`).
#[verifier::external_body]
pub(crate) fn test_fri_params(mmcs: SeededChallengeMmcs, log_final_poly_len: usize) -> (r: FriParams)
    ensures
        r@ == (test_fri_shape(log_final_poly_len), mmcs.drawn_from()),
{
    let p = create_test_fri_params(mmcs.mmcs, log_final_poly_len);
    let shape = FriShape {
        log_blowup: p.log_blowup,
        log_final_poly_len: p.log_final_poly_len,
        max_log_arity: p.max_log_arity,
        num_queries: p.num_queries,
        commit_proof_of_work_bits: p.commit_proof_of_work_bits,
        query_proof_of_work_bits: p.query_proof_of_work_bits,
    };
    FriParams { inner: p, shape, seed: mmcs.seed }
}

// ---------------------------------------------------------------------------
// The polynomial commitment scheme
// ---------------------------------------------------------------------------

/// Plonky3's `TwoAdicFriPcs` over Goldilocks with the radix-2 DFT, held
/// opaque: its DFT type `Radix2Dit` is bounded by `TwoAdicField`, a trait
/// Verus cannot declare, so the type cannot be declared either.
#[verifier::external_body]
struct PcsCore {
    pcs: TwoAdicFriPcs<Val, Radix2Dit<Val>, MerkleMmcs, ChallengeMmcs>,
}

/// A FRI polynomial commitment scheme over Goldilocks: the Merkle MMCS of
/// `make_mmcs` for the committed evaluations and FRI with the parameters of
/// `make_fri_params`, all hashing with the Poseidon2 permutation drawn from
/// one seed. Use `crate::fri::make_pcs` to construct one.
pub struct FriPcs {
    core: PcsCore,
    seed: u64,
    log_final_poly_len: usize,
    cap_height: usize,
}

impl View for FriPcs {
    type V = (u64, usize, usize);

    /// The seed of both MMCSs, the `log2` of the final polynomial length of
    /// the FRI parameters inside, and the height of the Merkle cap that
    /// commitments consist of.
    closed spec fn view(&self) -> (u64, usize, usize) {
        (self.seed, self.log_final_poly_len, self.cap_height)
    }
}

/// Calls `TwoAdicFriPcs::new(Radix2Dit::default(), mmcs, fri)` of `p3-fri`
/// on the Plonky3 values inside, recording the seed of both MMCSs, the final
/// polynomial length of the FRI parameters and the cap height.
#[verifier::external_body]
pub(crate) fn two_adic_fri_pcs_new(input: GoldilocksMmcs, fri: FriParams) -> (r: FriPcs)
    requires
        input@.0 == fri@.1,
    ensures
        r@ == (input@.0, fri@.0.log_final_poly_len, input@.1),
{
    let core = PcsCore { pcs: TwoAdicFriPcs::new(Radix2Dit::default(), input.inner, fri.inner) };
    FriPcs { core, seed: input.seed, log_final_poly_len: fri.shape.log_final_poly_len, cap_height: input.cap_height }
}

// ---------------------------------------------------------------------------
// The challenger
// ---------------------------------------------------------------------------

/// Plonky3's `DuplexChallenger` over the width-8 Poseidon2 permutation,
/// held opaque: its type is bounded by `CryptographicPermutation`, a trait
/// Verus cannot declare.
#[verifier::external_body]
struct ChallengerCore {
    ch: DuplexChallenger<Val, Perm, WIDTH, RATE>,
}

/// A Fiat-Shamir challenger: a duplex sponge over the Poseidon2 permutation
/// of a seed. Use `crate::fri::make_challenger` to construct one.
pub struct FsChallenger {
    core: ChallengerCore,
    seed: u64,
    absorbed: Ghost<Seq<u64>>,
    samples: Ghost<Seq<(Seq<u64>, [u64; 2])>>,
    transcript: Ghost<Seq<Option<u64>>>,
}

impl View for FsChallenger {
    type V = (u64, Seq<u64>, Seq<(Seq<u64>, [u64; 2])>);

    /// The seed of the permutation; the field elements absorbed so far
    /// (canonical values, in order); and the extension-field challenges
    /// sampled so far, each with the elements that had been absorbed when it
    /// was drawn.
    closed spec fn view(&self) -> (u64, Seq<u64>, Seq<(Seq<u64>, [u64; 2])>) {
        (self.seed, self.absorbed@, self.samples@)
    }
}

impl FsChallenger {
    /// Everything done to the sponge so far, in order: `Some(w)` for each
    /// absorbed element `w`, `None` for each base-field element squeezed
    /// out. With the seed it fixes the sponge's state.
    pub closed spec fn transcript(&self) -> Seq<Option<u64>> {
        self.transcript@
    }
}

/// Calls `DuplexChallenger::new(perm)` of `p3-challenger`, recording the
/// permutation's seed and an empty history.
#[verifier::external_body]
pub(crate) fn duplex_challenger_new(perm: SeededPerm) -> (r: FsChallenger)
    ensures
        r@ == (perm.drawn_from(), Seq::<u64>::empty(), Seq::<(Seq<u64>, [u64; 2])>::empty()),
        r.transcript() == Seq::<Option<u64>>::empty(),
{
    FsChallenger {
        core: ChallengerCore { ch: DuplexChallenger::new(perm.perm) },
        seed: perm.seed,
        absorbed: Ghost(Seq::empty()),
        samples: Ghost(Seq::empty()),
        transcript: Ghost(Seq::empty()),
    }
}

/// Calls `CanObserve::observe` of `p3-challenger` on the cap
/// `MerkleCap::new(digests)`. Trusted: the challenger absorbs the cap's
/// words, digest after digest (the source loops over `roots()` and over
/// each digest), as field elements; `MerkleCap::new` does not panic on a
/// power-of-two number of digests.
#[verifier::external_body]
fn challenger_observe_cap(ch: &mut FsChallenger, commitment: &Commitment)
    requires
        is_pow2(commitment.digests@.len() as nat),
    ensures
        final(ch)@ == (old(ch)@.0, old(ch)@.1 + cap_words(commitment.digests@), old(ch)@.2),
        final(ch).transcript() == old(ch).transcript() + absorb_events(cap_words(commitment.digests@)),
{
    let cap: MerkleCap<Val, [Val; 4]> = MerkleCap::new(commitment.digests.iter().map(|d| d.map(Goldilocks::new)).collect());
    ch.core.ch.observe(cap);
}

/// Calls `FieldChallenger::sample_algebra_element` of `p3-challenger` for an
/// element of the degree-2 extension, and reads its two basis coefficients
/// back with `as_canonical_u64`. Trusted: the coefficients are canonical,
/// nothing is absorbed, two base-field elements are squeezed out (the
/// source samples each coefficient), and the sample joins the record of
/// samples. Which element comes out is not stated: it rests on the
/// Poseidon2 constants, drawn from the platform-dependent `SmallRng`.
#[verifier::external_body]
fn challenger_sample_ext(ch: &mut FsChallenger) -> (r: [u64; 2])
    ensures
        ext_canonical(r),
        final(ch)@ == (old(ch)@.0, old(ch)@.1, old(ch)@.2.push((old(ch)@.1, r))),
        final(ch).transcript() == old(ch).transcript() + seq![None::<u64>, None::<u64>],
{
    let c: Challenge = ch.core.ch.sample_algebra_element();
    let w: &[Val] = c.as_basis_coefficients_slice();
    [w[0].as_canonical_u64(), w[1].as_canonical_u64()]
}

/// Calls `CanSampleBits::sample_bits` of `p3-challenger`. Trusted: the
/// result is below `2^bits` (the source masks it with `(1 << bits) - 1`),
/// nothing is absorbed or recorded as a challenge, one base-field element is
/// squeezed out, and there is no panic for `bits` below the width of `usize`
/// (every such `2^bits` is below the Goldilocks order, the source's second
/// assertion).
#[verifier::external_body]
fn challenger_sample_bits(ch: &mut FsChallenger, bits: usize) -> (r: usize)
    requires
        (bits as int) < (usize::BITS as int),
    ensures
        r < pow2(bits as nat),
        final(ch)@ == old(ch)@,
        final(ch).transcript() == old(ch).transcript().push(None),
{
    ch.core.ch.sample_bits(bits)
}

impl FsChallenger {
    /// Absorb a commitment's Merkle cap, digest after digest.
    pub fn observe_commitment(&mut self, commitment: &Commitment)
        requires
            is_pow2(commitment.digests@.len() as nat),
        ensures
            final(self)@ == (old(self)@.0, old(self)@.1 + cap_words(commitment.digests@), old(self)@.2),
            final(self).transcript() == old(self).transcript() + absorb_events(cap_words(commitment.digests@)),
    {
        challenger_observe_cap(self, commitment);
    }

    /// Sample a challenge `c0 + c1 X` in the degree-2 extension field, as
    /// `[c0, c1]`. Absorbs nothing; the sample is recorded with the elements
    /// absorbed so far.
    pub fn sample_challenge(&mut self) -> (r: [u64; 2])
        ensures
            ext_canonical(r),
            final(self)@ == (old(self)@.0, old(self)@.1, old(self)@.2.push((old(self)@.1, r))),
            final(self).transcript() == old(self).transcript() + seq![None::<u64>, None::<u64>],
    {
        challenger_sample_ext(self)
    }

    /// Sample `bits` random bits, as a number below `2^bits`. Absorbs
    /// nothing.
    pub fn sample_bits(&mut self, bits: usize) -> (r: usize)
        requires
            (bits as int) < (usize::BITS as int),
        ensures
            r < pow2(bits as nat),
            final(self)@ == old(self)@,
            final(self).transcript() == old(self).transcript().push(None),
    {
        challenger_sample_bits(self, bits)
    }
}

// ---------------------------------------------------------------------------
// Committing, opening and verifying
// ---------------------------------------------------------------------------

/// The evaluations a [`FriPcs`] committed to, with what the prover keeps to
/// open them, the `log2` of their number, the cap that commits to them, and
/// the coefficients of the polynomial they are the evaluations of.
pub(crate) struct CommittedColumn {
    data: ProverData,
    log_height: usize,
    values: Ghost<Seq<int>>,
    digests: Ghost<Seq<[u64; 4]>>,
    coeffs: Ghost<Seq<int>>,
}

impl CommittedColumn {
    /// `log2` of the number of committed evaluations.
    pub(crate) closed spec fn log_height(&self) -> usize {
        self.log_height
    }

    /// The committed evaluations.
    pub(crate) closed spec fn values(&self) -> Seq<int> {
        self.values@
    }

    /// The cap that commits to them.
    pub(crate) closed spec fn digests(&self) -> Seq<[u64; 4]> {
        self.digests@
    }

    /// The coefficients of the polynomial they are the evaluations of.
    pub(crate) closed spec fn coeffs(&self) -> Seq<int> {
        self.coeffs@
    }

    /// Name the polynomial whose evaluations were committed.
    pub(crate) fn set_coeffs(&mut self, Ghost(coeffs): Ghost<Seq<int>>)
        ensures
            final(self).log_height() == old(self).log_height(),
            final(self).values() == old(self).values(),
            final(self).digests() == old(self).digests(),
            final(self).coeffs() == coeffs,
    {
        self.coeffs = Ghost(coeffs);
    }
}

/// Calls `Pcs::commit` of `TwoAdicFriPcs` (`p3-fri`) on the evaluations as a
/// single column over `natural_domain_for_degree(height)`, their number, and reads
/// the cap back with `as_canonical_u64`. Trusted: no panic for `2^log_height`
/// evaluations with `1 <= log_height <= MAX_LOG_HEIGHT` (the extension by the
/// blowup of 4 fits the two-adic subgroup); with cap height 0 the cap is one
/// digest, of canonical words. Which digest is not stated: it rests on the
/// platform-dependent `SmallRng` behind the hash constants.
#[verifier::external_body]
pub(crate) fn pcs_commit_column(pcs: &FriPcs, evaluations: Vec<Felt>, log_height: usize, height: usize) -> (r: (
    Commitment,
    CommittedColumn,
))
    requires
        evaluations@.len() == height,
        height == pow2(log_height as nat),
        1 <= log_height <= MAX_LOG_HEIGHT,
        pcs@.2 == 0,
    ensures
        r.0.digests@.len() == 1,
        forall|j: int| 0 <= j < 4 ==> #[trigger] r.0.digests@[0][j] < GOLDILOCKS_PRIME,
        r.1.log_height() == log_height,
        r.1.values() == vals(evaluations@),
        r.1.digests() == r.0.digests@,
{
    let column = evaluations.iter().map(|x| Goldilocks::new(to_canonical_u64(*x))).collect();
    let domain = PcsTrait::<Challenge, DuplexChallenger<Val, Perm, WIDTH, RATE>>::natural_domain_for_degree(&pcs.core.pcs, height);
    let (cap, data) = PcsTrait::<Challenge, DuplexChallenger<Val, Perm, WIDTH, RATE>>::commit(&pcs.core.pcs, vec![(domain, RowMajorMatrix::new_col(column))]);
    let commitment = Commitment { digests: cap.into_iter().map(|d| d.map(|w| w.as_canonical_u64())).collect() };
    let c = CommittedColumn { data, log_height, values: Ghost(vals(evaluations@)), digests: Ghost(commitment.digests@), coeffs: Ghost(Seq::empty()) };
    (commitment, c)
}

/// Plonky3's FRI proof (`FriProof`), held opaque: its type is bounded by
/// `Field` and `Mmcs`, traits Verus cannot declare.
#[verifier::external_body]
struct FriProofCore {
    fri: FriProof<Challenge, ChallengeMmcs, Val, Vec<BatchOpening<Val, MerkleMmcs>>>,
}

/// What an opening proof was made from: the scheme's view, the challenger's
/// seed and transcript when the opening began, the opening point, the
/// opened value, the cap of the committed column, and the `log2` of its
/// height.
pub type OpeningOrigin = ((u64, usize, usize), u64, Seq<Option<u64>>, [u64; 2], [u64; 2], Seq<[u64; 4]>, usize);

/// A FRI opening proof, as `crate::fri::prove_low_degree` makes it. Only the
/// values of its final polynomial can be changed; its shape stays that of an
/// opening by a PCS with the recorded parameters.
pub struct OpeningProof {
    core: FriProofCore,
    log_final_poly_len: usize,
    log_height: usize,
    origin: Ghost<OpeningOrigin>,
    intact: Ghost<bool>,
}

impl View for OpeningProof {
    type V = (usize, usize);

    /// The `log2` of the final polynomial length of the PCS that opened,
    /// and the `log2` of the number of evaluations it opened.
    closed spec fn view(&self) -> (usize, usize) {
        (self.log_final_poly_len, self.log_height)
    }
}

impl OpeningProof {
    /// What the opening was made from.
    pub closed spec fn origin(&self) -> OpeningOrigin {
        self.origin@
    }

    /// The proof is as the opening made it: nothing in it has been changed.
    pub closed spec fn intact(&self) -> bool {
        self.intact@
    }
}

/// Calls `Pcs::open` of `TwoAdicFriPcs` (`p3-fri`) for the committed column
/// at the single point `zeta` (built with `from_basis_coefficients_fn`),
/// and reads the opened value back with `as_canonical_u64`. Trusted:
/// - no panic for a column with `1 <= log_height <= MAX_LOG_HEIGHT` and,
///   where the final polynomial has more than one coefficient,
///   `log_height > log_final_poly_len` (the prover's assertion
///   `log_min_height > log_final_poly_len + log_blowup`), and for a `zeta`
///   outside the coset on which the column is extended (the source inverts
///   `zeta - x` for every `x` there, `batch_multiplicative_inverse`);
/// - the opened value is the polynomial of the committed evaluations at
///   `zeta` (the source interpolates the extension, a polynomial of degree
///   below the column height, at `zeta`), with canonical coefficients;
/// - the proof has the shape of an opening with these parameters, and is
///   the opening made with this scheme from this challenger, as it was when
///   `open` began, at `zeta` for the opened value and the column's cap;
/// - the permutation's seed is kept, and absorbed elements, samples and the
///   transcript only grow.
/// Not stated: the proof's contents, which elements are absorbed, and that
/// the proof-of-work search finds a witness (the source panics if none of
/// the field's elements is one).
#[verifier::external_body]
pub(crate) fn pcs_open_at(pcs: &FriPcs, column: &CommittedColumn, zeta: [u64; 2], ch: &mut FsChallenger) -> (r: ([u64; 2], OpeningProof))
    requires
        1 <= column.log_height() <= MAX_LOG_HEIGHT,
        pcs@.1 == 0 || column.log_height() > pcs@.1,
        ext_canonical(zeta),
        !in_lde_coset(zeta, (column.log_height() + 2) as nat),
        column.values() == ntt_spec(column.coeffs()),
        column.coeffs().len() <= column.values().len(),
    ensures
        ext_canonical(r.0),
        ext_pair(r.0) == ext_horner(column.coeffs(), ext_pair(zeta)),
        r.1@ == (pcs@.1, column.log_height()),
        r.1.intact(),
        r.1.origin() == (pcs@, old(ch)@.0, old(ch).transcript(), zeta, r.0, column.digests(), column.log_height()),
        final(ch)@.0 == old(ch)@.0,
        old(ch)@.1.is_prefix_of(final(ch)@.1),
        old(ch)@.2.is_prefix_of(final(ch)@.2),
        old(ch).transcript().is_prefix_of(final(ch).transcript()),
{
    let before = Ghost(ch.transcript@);
    let z = Challenge::from_basis_coefficients_fn(|i| Goldilocks::new(zeta[i]));
    let (values, fri) = pcs.core.pcs.open(vec![(&column.data, vec![vec![z]])], &mut ch.core.ch);
    let v: &[Val] = values[0][0][0][0].as_basis_coefficients_slice();
    let w = [v[0].as_canonical_u64(), v[1].as_canonical_u64()];
    let origin = Ghost((pcs@, ch.seed, before@, zeta, w, column.digests@, column.log_height));
    let core = FriProofCore { fri };
    (w, OpeningProof { core, log_final_poly_len: pcs.log_final_poly_len, log_height: column.log_height, origin, intact: Ghost(true) })
}

/// Reads coefficient `i` of the proof's final polynomial with
/// `as_canonical_u64`. Trusted: an opening with final polynomial length
/// `2^log_final_poly_len` has that many coefficients (the prover truncates
/// the folded polynomial to `final_poly_len()`), and the words are canonical.
#[verifier::external_body]
fn final_poly_get(proof: &OpeningProof, i: usize) -> (r: [u64; 2])
    requires
        i < pow2(proof@.0 as nat),
    ensures
        ext_canonical(r),
{
    let w: &[Val] = proof.core.fri.final_poly[i].as_basis_coefficients_slice();
    [w[0].as_canonical_u64(), w[1].as_canonical_u64()]
}

/// Sets coefficient `i` of the proof's final polynomial (built with
/// `from_basis_coefficients_fn`). Trusted: the index is in range, as above;
/// the shape is unchanged.
#[verifier::external_body]
fn final_poly_set(proof: &mut OpeningProof, i: usize, value: [u64; 2])
    requires
        i < pow2(old(proof)@.0 as nat),
    ensures
        final(proof)@ == old(proof)@,
{
    proof.core.fri.final_poly[i] = Challenge::from_basis_coefficients_fn(|j| Goldilocks::new(value[j]));
}

impl OpeningProof {
    /// Coefficient `i` of the FRI final polynomial, `[c0, c1]`.
    pub fn final_poly_coefficient(&self, i: usize) -> (r: [u64; 2])
        requires
            i < pow2(self@.0 as nat),
        ensures
            ext_canonical(r),
    {
        final_poly_get(self, i)
    }

    /// Replace coefficient `i` of the FRI final polynomial. The proof is no
    /// longer the one the opening made.
    pub fn set_final_poly_coefficient(&mut self, i: usize, value: [u64; 2])
        requires
            i < pow2(old(self)@.0 as nat),
        ensures
            final(self)@ == old(self)@,
            !final(self).intact(),
    {
        final_poly_set(self, i, value);
        self.intact = Ghost(false);
    }
}

/// Calls `Pcs::verify` of `TwoAdicFriPcs` (`p3-fri`) for the cap
/// `MerkleCap::new(digests)`, one column over
/// `natural_domain_for_degree(height)`, and the point `zeta` with the
/// claimed value (both built with `from_basis_coefficients_fn`). Trusted:
/// - no panic for a cap of `2^cap_height` digests, `height = 2^log_height`
///   with `1 <= log_height <= MAX_LOG_HEIGHT`, an opening of that shape by a
///   PCS with this final polynomial length (so the query bits are
///   `log_height + 2`), and a `zeta` outside the extension coset (the
///   source inverts `zeta - x` at the queried `x` there);
/// - completeness: an intact opening, made with a scheme of this view from a
///   challenger of this seed and transcript, at this point, for this value
///   and this cap, is accepted (the verifier replays the prover's
///   transcript, and Plonky3's FRI accepts an honest opening);
/// - the permutation's seed is kept, and absorbed elements, samples and the
///   transcript only grow.
/// Whether any other proof is accepted is not stated.
#[verifier::external_body]
pub(crate) fn pcs_verify_at(
    pcs: &FriPcs,
    digests: &Vec<[u64; 4]>,
    opened_value: [u64; 2],
    proof: &OpeningProof,
    log_height: usize,
    height: usize,
    zeta: [u64; 2],
    ch: &mut FsChallenger,
) -> (r: Result<(), FriError<MerkleTreeError, MerkleTreeError>>)
    requires
        old(ch)@.2.len() > 0,
        zeta == old(ch)@.2.last().1,
        ext_canonical(zeta),
        digests@.len() == pow2(pcs@.2 as nat),
        1 <= log_height <= MAX_LOG_HEIGHT,
        height == pow2(log_height as nat),
        proof@ == (pcs@.1, log_height),
        !in_lde_coset(zeta, (log_height + 2) as nat),
    ensures
        proof.intact() && proof.origin() == (pcs@, old(ch)@.0, old(ch).transcript(), zeta, opened_value, digests@, log_height)
            ==> r is Ok,
        final(ch)@.0 == old(ch)@.0,
        old(ch)@.1.is_prefix_of(final(ch)@.1),
        old(ch)@.2.is_prefix_of(final(ch)@.2),
        old(ch).transcript().is_prefix_of(final(ch).transcript()),
{
    let cap = MerkleCap::new(digests.iter().map(|d| d.map(Goldilocks::new)).collect());
    let domain = PcsTrait::<Challenge, DuplexChallenger<Val, Perm, WIDTH, RATE>>::natural_domain_for_degree(&pcs.core.pcs, height);
    let z = Challenge::from_basis_coefficients_fn(|i| Goldilocks::new(zeta[i]));
    let v = Challenge::from_basis_coefficients_fn(|i| Goldilocks::new(opened_value[i]));
    let claims = vec![(cap, vec![(domain, vec![(z, vec![v])])])];
    pcs.core.pcs.verify(claims, &proof.core.fri, &mut ch.core.ch)
}

} // verus!
