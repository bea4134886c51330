//! Merkle commitment over Goldilocks evaluations with `p3-merkle-tree`.
//!
//! Configuration:
//! - Permutation: width-8 Poseidon2 over Goldilocks, with round constants
//!   drawn from a `SmallRng` seeded by the caller's seed. (`SmallRng` is not
//!   portable across platforms, so nothing here claims which root a given
//!   seed and column produce.)
//! - Leaf hash: `PaddingFreeSponge<perm, WIDTH = 8, RATE = 4, OUT = 4>`.
//! - Internal compression: `TruncatedPermutation<perm, N = 2, CHUNK = 4, WIDTH = 8>`.
//! - MMCS: arity 2, 4-element digest, cap height 0, so the commitment is
//!   the single root.
use vstd::prelude::*;

use p3_goldilocks::{Goldilocks, Poseidon2ExternalLayerGoldilocks, Poseidon2Goldilocks, Poseidon2InternalLayerGoldilocks};
use p3_matrix::dense::DenseMatrix;
use p3_merkle_tree::{MerkleTree, MerkleTreeMmcs};
use p3_poseidon2::Poseidon2;
use p3_symmetric::{PaddingFreeSponge, TruncatedPermutation};
use rand::rngs::SmallRng;

use crate::field_arith::{Felt, GOLDILOCKS_PRIME};
use crate::plonky3_calls::{
    compression_new, merkle_mmcs_new, mmcs_commit_column, perm_clone, poseidon2_from_rng, small_rng_from_seed,
    sponge_new,
};
use crate::poly_spec::vals;

pub use crate::plonky3_calls::{CommitResult, GoldilocksMmcs};

verus! {

/// Width of the Poseidon2 permutation behind every hash, compression and
/// challenger over Goldilocks.
pub const WIDTH: usize = 8usize;

/// Sponge and challenger absorption rate (capacity `WIDTH - RATE = 4`).
pub const RATE: usize = 4usize;

/// Field elements in one digest.
pub const DIGEST_ELEMS: usize = 4usize;

/// The commitment is the root alone.
pub const MERKLE_CAP_HEIGHT: usize = 0usize;

#[verifier::external_type_specification]
#[verifier::external_body]
pub struct ExGoldilocks(Goldilocks);

#[verifier::external_type_specification]
#[verifier::external_body]
pub struct ExPoseidon2ExternalLayerGoldilocks<const W: usize>(Poseidon2ExternalLayerGoldilocks<W>);

#[verifier::external_type_specification]
#[verifier::external_body]
pub struct ExPoseidon2InternalLayerGoldilocks(Poseidon2InternalLayerGoldilocks);

#[verifier::external_type_specification]
#[verifier::external_body]
#[verifier::reject_recursive_types(F)]
#[verifier::reject_recursive_types(ExternalPerm)]
#[verifier::reject_recursive_types(InternalPerm)]
pub struct ExPoseidon2<F, ExternalPerm, InternalPerm, const W: usize, const D: u64>(
    Poseidon2<F, ExternalPerm, InternalPerm, W, D>,
);

#[verifier::external_type_specification]
#[verifier::external_body]
#[verifier::reject_recursive_types(P)]
pub struct ExPaddingFreeSponge<P, const W: usize, const R: usize, const O: usize>(
    PaddingFreeSponge<P, W, R, O>,
);

#[verifier::external_type_specification]
#[verifier::external_body]
#[verifier::reject_recursive_types(InnerP)]
pub struct ExTruncatedPermutation<InnerP, const N: usize, const CHUNK: usize, const W: usize>(
    TruncatedPermutation<InnerP, N, CHUNK, W>,
);

#[verifier::external_type_specification]
#[verifier::external_body]
#[verifier::reject_recursive_types(P)]
#[verifier::reject_recursive_types(PW)]
#[verifier::reject_recursive_types(H)]
#[verifier::reject_recursive_types(C)]
pub struct ExMerkleTreeMmcs<P, PW, H, C, const N: usize, const DIGEST: usize>(
    MerkleTreeMmcs<P, PW, H, C, N, DIGEST>,
);

#[verifier::external_type_specification]
#[verifier::external_body]
#[verifier::reject_recursive_types(T)]
#[verifier::reject_recursive_types(V)]
pub struct ExDenseMatrix<T, V>(DenseMatrix<T, V>);

#[verifier::external_type_specification]
#[verifier::external_body]
#[verifier::reject_recursive_types(F)]
#[verifier::reject_recursive_types(W)]
#[verifier::reject_recursive_types(M)]
pub struct ExMerkleTree<F, W, M, const N: usize, const DIGEST: usize>(MerkleTree<F, W, M, N, DIGEST>);

#[verifier::external_type_specification]
#[verifier::external_body]
pub struct ExSmallRng(SmallRng);

/// Width-8 Poseidon2 over Goldilocks.
pub type Perm = Poseidon2Goldilocks<WIDTH>;

/// Leaf hasher.
pub type Hasher = PaddingFreeSponge<Perm, WIDTH, RATE, DIGEST_ELEMS>;

/// Internal-node compression.
pub type Compress = TruncatedPermutation<Perm, 2, DIGEST_ELEMS, WIDTH>;

/// The Merkle-tree MMCS over Goldilocks (scalar packing).
pub type MerkleMmcs = MerkleTreeMmcs<Goldilocks, Goldilocks, Hasher, Compress, 2, DIGEST_ELEMS>;

/// Prover-side state needed to later open a commitment.
pub type ProverData = MerkleTree<Goldilocks, Goldilocks, DenseMatrix<Goldilocks, Vec<Goldilocks>>, 2, DIGEST_ELEMS>;

/// Verifier-side commitment: the digests of the Merkle cap, each as four
/// canonical field values.
#[derive(Debug, PartialEq, Eq)]
pub struct Commitment {
    pub digests: Vec<[u64; 4]>,
}

/// The field elements of a cap as a challenger absorbs them: digest after
/// digest, each word reduced to its canonical value.
pub open spec fn cap_words(digests: Seq<[u64; 4]>) -> Seq<u64>
    decreases digests.len(),
{
    if digests.len() == 0 {
        Seq::empty()
    } else {
        let d = digests.last();
        cap_words(digests.drop_last()) + seq![
            d[0] % GOLDILOCKS_PRIME,
            d[1] % GOLDILOCKS_PRIME,
            d[2] % GOLDILOCKS_PRIME,
            d[3] % GOLDILOCKS_PRIME,
        ]
    }
}

/// What a Merkle tree of one committed column holds: the values of its
/// single leaf matrix (`MerkleTree::leaves`), row after row, canonical.
pub uninterp spec fn committed_column(data: ProverData) -> Seq<int>;

/// Build a [`GoldilocksMmcs`]. The seed parameterises the Poseidon2 round
/// constants of both the hasher and the compression, through a generator
/// started from exactly that seed; the cap height is [`MERKLE_CAP_HEIGHT`],
/// so a commitment is the single root.
pub fn make_mmcs(seed: u64) -> (r: GoldilocksMmcs)
    ensures
        r@ == (seed, MERKLE_CAP_HEIGHT),
{
    let mut rng = small_rng_from_seed(seed);
    let perm = poseidon2_from_rng(&mut rng);
    let hasher = sponge_new(perm_clone(&perm));
    let compress = compression_new(perm);
    merkle_mmcs_new(hasher, compress, MERKLE_CAP_HEIGHT)
}

/// Commit to a single evaluation vector (treated as one column). The
/// MMCS must commit to the root alone (cap height 0, as `make_mmcs` builds
/// it); the commitment is that single root, as four canonical words, the
/// cap of the tree kept as prover data, and that tree holds the committed
/// evaluations as its leaves.
pub fn commit_evaluations(mmcs: &GoldilocksMmcs, evaluations: Vec<Felt>) -> (r: CommitResult)
    requires
        evaluations@.len() > 0,
        mmcs@.1 == 0,
    ensures
        r.commitment.digests@.len() == 1,
        forall|j: int| 0 <= j < 4 ==> #[trigger] r.commitment.digests@[0][j] < GOLDILOCKS_PRIME,
        committed_column(r.prover_data) == vals(evaluations@),
        r.cap_of_prover_data(),
{
    mmcs_commit_column(mmcs, evaluations)
}

} // verus!
