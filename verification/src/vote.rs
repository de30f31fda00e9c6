//! The life of a proof: made from a ballot and two seeds, and checked
//! against the same seeds.

use crate::argument::{
    accumulator_holds, argument_check, argument_proof, check_accumulator, check_same_permutation,
    permuted, prove_same_permutation,
};
use crate::circuit::{exponent_of, exponent_of_candidates};
use crate::commitment::{commit, commitment_of};
use crate::curve::{scalars_from_u32, scalars_of, Point};
use crate::permutation::{
    distinct, find_permutation, is_forward_permutation, lemma_distinct_length_bound,
    lemma_outcome_unique, permutation_outcome, repeats_at, PermutationError,
};
use crate::randomness::{blinders_draw, draw_blinders, rng_of_seed, seeded_rng};
use crate::setup::{crs_of, lemma_crs_shape, setup};
use crate::N_BLINDERS;
use curdleproofs::same_permutation_argument::SamePermutationProof;
use vstd::prelude::*;

verus! {

/// The label that separates this protocol's transcripts from all others:
/// the bytes of `sameperm`.
pub const TRANSCRIPT_LABEL: [u8; 8] = [115, 97, 109, 101, 112, 101, 114, 109];

/// The engine's proof with the two commitments that it speaks of.
pub struct RankedVotingProof {
    /// The argument that the two commitments hold permutation-related
    /// vectors.
    pub proof: SamePermutationProof,
    /// The commitment to the ballot.
    pub committed_ballot: Point,
    /// The commitment to the permutation.
    pub committed_permutation: Point,
}

/// A proof with its commitments as encodings.
pub struct ProofView {
    pub proof: SamePermutationProof,
    pub committed_ballot: Seq<u8>,
    pub committed_permutation: Seq<u8>,
}

impl View for RankedVotingProof {
    type V = ProofView;

    open spec fn view(&self) -> ProofView {
        ProofView {
            proof: self.proof,
            committed_ballot: self.committed_ballot@,
            committed_permutation: self.committed_permutation@,
        }
    }
}

/// Why no proof was made for a ballot.
#[derive(Debug, Clone, Copy, PartialEq, Eq, Structural)]
pub enum VoteError {
    /// The ballot is no re-ordering of the canonical indices.
    Permutation(PermutationError),
    /// The ballot is a re-ordering of no candidates at all, which the
    /// engine cannot argue about.
    EmptyBallot,
    /// The ballot's length plus `N_BLINDERS` is no circuit size.
    InvalidCircuitSize,
}

/// The canonical index sequence of `ell` candidates: 0, 1, and so on, as
/// far as 32-bit indices reach.
pub open spec fn canonical_indices(ell: nat) -> Seq<u32> {
    Seq::new(if ell <= 0x1_0000_0000 { ell } else { 0x1_0000_0000 }, |i: int| i as u32)
}

/// `ballot` is a re-ordering of the canonical indices of as many candidates
/// as it has entries: each entry is below the length, and none stands twice.
pub open spec fn is_ballot(ballot: Seq<u32>) -> bool {
    forall|i: int|
        #![trigger ballot[i]]
        #![trigger repeats_at(ballot, i)]
        0 <= i < ballot.len() ==> ballot[i] < ballot.len() && !repeats_at(ballot, i)
}

/// The proof for `ballot` under the two seeds. The reference string comes
/// from `setup_seed`. From one generator, seeded with `proof_seed`, come
/// first the ballot's blinders, then the permutation's; the engine goes on
/// with the generator as they leave it.
pub open spec fn vote_of(ballot: Seq<u32>, setup_seed: u64, proof_seed: u64) -> ProofView {
    let crs = crs_of((ballot.len() + N_BLINDERS) as nat, setup_seed);
    let first = blinders_draw(rng_of_seed(proof_seed), N_BLINDERS as nat);
    let second = blinders_draw(first.1, N_BLINDERS as nat);
    let committed_ballot = commitment_of(crs, ballot, first.0);
    let committed_permutation = commitment_of(crs, ballot, second.0);
    ProofView {
        proof: argument_proof(
            crs,
            committed_ballot,
            committed_permutation,
            scalars_of(canonical_indices(ballot.len())),
            ballot,
            first.0,
            second.0,
            TRANSCRIPT_LABEL@,
            second.1,
        ),
        committed_ballot,
        committed_permutation,
    }
}

/// Whether `proof` verifies for `ell` candidates under the two seeds: the
/// circuit size is one, the engine accepts, and the accumulator that it
/// leaves holds. The reference string comes from `setup_seed`; `proof_seed`
/// seeds the generator that the engine batches its checks with.
pub open spec fn verification_of(
    proof: ProofView,
    ell: nat,
    setup_seed: u64,
    proof_seed: u64,
) -> bool {
    let crs = crs_of((ell + N_BLINDERS) as nat, setup_seed);
    let checked = argument_check(
        proof.proof,
        crs,
        proof.committed_ballot,
        proof.committed_permutation,
        scalars_of(canonical_indices(ell)),
        N_BLINDERS as nat,
        TRANSCRIPT_LABEL@,
        rng_of_seed(proof_seed),
    );
    &&& exponent_of(ell + N_BLINDERS) is Ok
    &&& checked.0
    &&& accumulator_holds(checked.1)
}

/// Over the canonical indices, the forward permutation of a ballot is the
/// ballot itself.
pub proof fn lemma_identity_permutation(ballot: Seq<u32>, sigma: Seq<u32>)
    requires
        is_forward_permutation(canonical_indices(ballot.len()), ballot, sigma),
    ensures
        sigma == ballot,
        is_ballot(ballot),
{
    let canonical = canonical_indices(ballot.len());
    assert forall|i: int| 0 <= i < sigma.len() implies sigma[i] == ballot[i] by {
        assert(canonical[sigma[i] as int] == ballot[i]);
    }
    assert(sigma =~= ballot);
    assert forall|i: int| 0 <= i < ballot.len() implies ballot[i] < ballot.len() && !repeats_at(
        ballot,
        i,
    ) by {
        assert(sigma[i] < canonical.len());
        if repeats_at(ballot, i) {
            let k = choose|k: int| 0 <= k < i && ballot[k] == ballot[i];
            assert(sigma[k] != sigma[i]);
        }
    }
}

/// The canonical indices are pairwise distinct.
pub proof fn lemma_canonical_distinct(ell: nat)
    ensures
        distinct(canonical_indices(ell)),
{
    let canonical = canonical_indices(ell);
    assert forall|j: int| 0 <= j < canonical.len() implies !repeats_at(canonical, j) by {
        if repeats_at(canonical, j) {
            let i = choose|i: int| 0 <= i < j && canonical[i] == canonical[j];
            assert(canonical[i] == i as u32 && canonical[j] == j as u32);
        }
    }
}

/// A ballot is a re-ordering of the canonical indices exactly where
/// deriving its permutation over them succeeds, and then with the ballot
/// itself as the permutation.
pub proof fn lemma_ballot_outcome(ballot: Seq<u32>)
    ensures
        is_ballot(ballot) <==> permutation_outcome(
            canonical_indices(ballot.len()),
            ballot,
            Ok(ballot),
        ),
        forall|sigma: Seq<u32>|
            permutation_outcome(canonical_indices(ballot.len()), ballot, Ok(sigma)) ==> sigma
                == ballot,
{
    let canonical = canonical_indices(ballot.len());
    lemma_canonical_distinct(ballot.len());
    assert forall|sigma: Seq<u32>| permutation_outcome(canonical, ballot, Ok(sigma)) implies sigma
        == ballot by {
        lemma_identity_permutation(ballot, sigma);
    }
    if permutation_outcome(canonical, ballot, Ok(ballot)) {
        lemma_identity_permutation(ballot, ballot);
    }
    if is_ballot(ballot) {
        assert(distinct(ballot));
        lemma_distinct_length_bound(ballot);
        assert(canonical.len() == ballot.len());
        assert forall|i: int| 0 <= i < ballot.len() implies (#[trigger] ballot[i])
            < canonical.len() && canonical[ballot[i] as int] == ballot[i] by {
            assert(ballot[i] < ballot.len() && !repeats_at(ballot, i));
        }
        assert forall|i: int, j: int| 0 <= i < j < ballot.len() implies ballot[i] != ballot[j] by {
            assert(!repeats_at(ballot, j));
        }
    }
}

/// Builds the canonical index sequence of `ell` candidates.
pub fn canonical_index_vec(ell: usize) -> (canonical: Vec<u32>)
    ensures
        canonical@ == canonical_indices(ell as nat),
{
    let mut canonical: Vec<u32> = Vec::new();
    let mut i: usize = 0;
    while i < ell && i as u64 <= 0xffff_ffff
        invariant
            i <= ell,
            i <= 0x1_0000_0000,
            canonical@.len() == i,
            forall|k: int| 0 <= k < i ==> canonical@[k] == k as u32,
        decreases ell - i,
    {
        canonical.push(i as u32);
        i += 1;
    }
    proof {
        assert(canonical@ =~= canonical_indices(ell as nat));
    }
    canonical
}

/// Makes the proof that `ballot` is a re-ordering of the canonical indices
/// 0, 1, .., one for each entry. The same ballot and seeds give the same
/// proof. A ballot that is no re-ordering gives the obstacle that deriving
/// its permutation meets, and no proof.
pub fn generate_vote(ballot: &[u32], setup_seed: u64, proof_seed: u64) -> (r: Result<
    RankedVotingProof,
    VoteError,
>)
    ensures
        match r {
            Ok(p) => {
                &&& is_ballot(ballot@)
                &&& ballot@.len() > 0
                &&& exponent_of(ballot@.len() + N_BLINDERS) is Ok
                &&& p@ == vote_of(ballot@, setup_seed, proof_seed)
            },
            Err(VoteError::Permutation(e)) => permutation_outcome(
                canonical_indices(ballot@.len()),
                ballot@,
                Err(e),
            ),
            Err(VoteError::EmptyBallot) => ballot@.len() == 0,
            Err(VoteError::InvalidCircuitSize) => {
                &&& is_ballot(ballot@)
                &&& ballot@.len() > 0
                &&& exponent_of(ballot@.len() + N_BLINDERS) is Err
            },
        },
        !is_ballot(ballot@) <==> r matches Err(VoteError::Permutation(_)),
        r is Ok <==> {
            &&& is_ballot(ballot@)
            &&& ballot@.len() > 0
            &&& exponent_of(ballot@.len() + N_BLINDERS) is Ok
        },
{
    let ell = ballot.len();
    let canonical = canonical_index_vec(ell);
    proof {
        lemma_ballot_outcome(ballot@);
    }
    let permutation = match find_permutation(canonical.as_slice(), ballot) {
        Ok(sigma) => sigma,
        Err(e) => {
            proof {
                if is_ballot(ballot@) {
                    lemma_outcome_unique(canonical@, ballot@, Err(e), Ok(ballot@));
                }
            }
            return Err(VoteError::Permutation(e));
        },
    };
    assert(permutation@ == ballot@ && is_ballot(ballot@));
    if ell == 0 {
        return Err(VoteError::EmptyBallot);
    }
    match exponent_of_candidates(ell) {
        Ok(_) => {},
        Err(_) => {
            return Err(VoteError::InvalidCircuitSize);
        },
    }
    let statement = scalars_from_u32(canonical.as_slice());
    let crs = setup(ell + N_BLINDERS, setup_seed);
    let mut rng = seeded_rng(proof_seed);
    let ballot_blinders = draw_blinders(&mut rng, N_BLINDERS);
    let permutation_blinders = draw_blinders(&mut rng, N_BLINDERS);
    let committed_permutation = commit(&crs, permutation.as_slice(), &permutation_blinders);
    let committed_ballot = commit(&crs, ballot, &ballot_blinders);
    proof {
        assert(crs@.g.len() == ell) by {
            lemma_crs_shape((ell + N_BLINDERS) as nat, setup_seed);
        }
        assert(scalars_of(ballot@) =~= permuted(statement@, permutation@));
    }
    let proof = prove_same_permutation(
        &crs,
        &committed_ballot,
        &committed_permutation,
        &statement,
        permutation,
        ballot_blinders,
        permutation_blinders,
        &TRANSCRIPT_LABEL,
        rng,
    );
    Ok(RankedVotingProof { proof, committed_ballot, committed_permutation })
}

/// Checks `proof` for `ell` candidates under the two seeds. The answer is
/// `true` only where the engine accepts the argument and the accumulator of
/// its batched checks holds as well. The same proof, size and seeds give
/// the same answer.
pub fn verify_proof(proof: &RankedVotingProof, ell: usize, setup_seed: u64, proof_seed: u64) -> (ok:
    bool)
    ensures
        ok == verification_of(proof@, ell as nat, setup_seed, proof_seed),
{
    match exponent_of_candidates(ell) {
        Ok(_) => {},
        Err(_) => {
            return false;
        },
    }
    let crs = setup(ell + N_BLINDERS, setup_seed);
    let canonical = canonical_index_vec(ell);
    let statement = scalars_from_u32(canonical.as_slice());
    let rng = seeded_rng(proof_seed);
    proof {
        lemma_crs_shape((ell + N_BLINDERS) as nat, setup_seed);
    }
    let (accepted, accumulator) = check_same_permutation(
        &proof.proof,
        &crs,
        &proof.committed_ballot,
        &proof.committed_permutation,
        &statement,
        N_BLINDERS,
        &TRANSCRIPT_LABEL,
        rng,
    );
    accepted && check_accumulator(accumulator)
}

} // verus!
