//! The argument engine: the same-permutation argument that proves two
//! commitments to hold a vector and a permutation of it. Its algebra is the
//! engine's; this module states what the orchestration relies on.

use crate::circuit::is_power_of_two;
use crate::commitment::commitment_of;
use crate::curve::{msm_encoding, point_encoding, sum_encoding, Point};
use crate::setup::{SetupParameters, SetupView};
use ark_bls12_381::{Fr, G1Affine};
use ark_ec::ProjectiveCurve;
use ark_std::rand::rngs::StdRng;
use curdleproofs::msm_accumulator::MsmAccumulator;
use curdleproofs::same_permutation_argument::SamePermutationProof;
use merlin::Transcript;
use vstd::prelude::*;

verus! {

/// The engine's proof object.
#[verifier::external_type_specification]
#[verifier::external_body]
pub struct ExSamePermutationProof(SamePermutationProof);

/// The engine's accumulator of batched checks.
#[verifier::external_type_specification]
#[verifier::external_body]
pub struct ExMsmAccumulator(MsmAccumulator);

/// The proof that `SamePermutationProof::new` makes, on a fresh transcript
/// that carries `label`, with a generator in state `rng`.
pub uninterp spec fn argument_proof(
    crs: SetupView,
    committed_ballot: Seq<u8>,
    committed_permutation: Seq<u8>,
    statement: Seq<Fr>,
    permutation: Seq<u32>,
    ballot_blinders: Seq<Fr>,
    permutation_blinders: Seq<Fr>,
    label: Seq<u8>,
    rng: StdRng,
) -> SamePermutationProof;

/// What `SamePermutationProof::verify` answers, on a fresh transcript that
/// carries `label`, with an empty accumulator and a generator in state
/// `rng`: whether it accepts, and the accumulator that it leaves.
pub uninterp spec fn argument_check(
    proof: SamePermutationProof,
    crs: SetupView,
    committed_ballot: Seq<u8>,
    committed_permutation: Seq<u8>,
    statement: Seq<Fr>,
    blinder_count: nat,
    label: Seq<u8>,
    rng: StdRng,
) -> (bool, MsmAccumulator);

/// Whether `MsmAccumulator::verify` accepts the checks that an accumulator
/// has gathered.
pub uninterp spec fn accumulator_holds(accumulator: MsmAccumulator) -> bool;

/// The statement's entries in the order that the permutation puts them in.
pub open spec fn permuted(statement: Seq<Fr>, permutation: Seq<u32>) -> Seq<Fr> {
    Seq::new(permutation.len(), |i: int| statement[permutation[i] as int])
}

/// What the engine needs in order to prove: a candidate, a circuit size
/// that is a power of two, a statement and a permutation of the ballot's
/// length, the permutation's entries being positions, a blinder for each
/// blinding generator, and the two commitments being those to the permuted
/// statement and to the permutation under these blinders.
pub open spec fn provable(
    crs: SetupView,
    committed_ballot: Seq<u8>,
    committed_permutation: Seq<u8>,
    statement: Seq<Fr>,
    permutation: Seq<u32>,
    ballot_blinders: Seq<Fr>,
    permutation_blinders: Seq<Fr>,
) -> bool {
    &&& crs.g.len() >= 1
    &&& crs.h.len() >= 1
    &&& is_power_of_two((crs.g.len() + crs.h.len()) as int)
    &&& statement.len() == crs.g.len()
    &&& permutation.len() == crs.g.len()
    &&& forall|i: int| 0 <= i < permutation.len() ==> permutation[i] < crs.g.len()
    &&& ballot_blinders.len() == crs.h.len()
    &&& permutation_blinders.len() == crs.h.len()
    &&& committed_ballot == sum_encoding(
        msm_encoding(crs.g, permuted(statement, permutation)),
        msm_encoding(crs.h, ballot_blinders),
    )
    &&& committed_permutation == commitment_of(crs, permutation, permutation_blinders)
}

/// Calls `SamePermutationProof::new` on a fresh transcript that carries
/// `label`. The engine panics on sizes that `provable` leaves out, and its
/// debug assertions fail on commitments other than those that `provable`
/// asks for. It also panics where a challenge that it derives from the
/// transcript, or a blinder that it draws, is zero; no condition on the
/// arguments rules that out, and it happens with negligible probability. Trusted: the proof is a
/// function of the arguments, the points taken as group elements.
#[verifier::external_body]
pub(crate) fn prove_same_permutation(
    crs: &SetupParameters,
    committed_ballot: &Point,
    committed_permutation: &Point,
    statement: &Vec<Fr>,
    permutation: Vec<u32>,
    ballot_blinders: Vec<Fr>,
    permutation_blinders: Vec<Fr>,
    label: &'static [u8],
    rng: StdRng,
) -> (proof: SamePermutationProof)
    requires
        provable(
            crs@,
            point_encoding(*committed_ballot),
            point_encoding(*committed_permutation),
            statement@,
            permutation@,
            ballot_blinders@,
            permutation_blinders@,
        ),
    ensures
        proof == argument_proof(
            crs@,
            point_encoding(*committed_ballot),
            point_encoding(*committed_permutation),
            statement@,
            permutation@,
            ballot_blinders@,
            permutation_blinders@,
            label@,
            rng,
        ),
{
    let g: Vec<G1Affine> = crs.crs_g_vec.iter().map(|p| p.inner.into_affine()).collect();
    let h: Vec<G1Affine> = crs.crs_h_vec.iter().map(|p| p.inner.into_affine()).collect();
    let (a, m, mut rng) = (committed_ballot.inner, committed_permutation.inner, rng);
    let mut transcript = Transcript::new(label);
    SamePermutationProof::new(
        &g, &h, &crs.crs_u.inner, a, m, statement, permutation, ballot_blinders,
        permutation_blinders, &mut transcript, &mut rng,
    )
}

/// Calls `SamePermutationProof::verify` on a fresh transcript that carries
/// `label`, with an empty accumulator. The engine panics where the circuit
/// size is no power of two, and where a challenge that it derives from the
/// transcript is zero, which no condition on the arguments rules out and
/// which happens with negligible probability. Trusted: whether it accepts,
/// and the accumulator that it leaves, are functions of the arguments, the
/// points taken as group elements.
#[verifier::external_body]
pub(crate) fn check_same_permutation(
    proof: &SamePermutationProof,
    crs: &SetupParameters,
    committed_ballot: &Point,
    committed_permutation: &Point,
    statement: &Vec<Fr>,
    blinder_count: usize,
    label: &'static [u8],
    rng: StdRng,
) -> (r: (bool, MsmAccumulator))
    requires
        is_power_of_two((crs@.g.len() + crs@.h.len()) as int),
    ensures
        r == argument_check(
            *proof,
            crs@,
            point_encoding(*committed_ballot),
            point_encoding(*committed_permutation),
            statement@,
            blinder_count as nat,
            label@,
            rng,
        ),
{
    let g: Vec<G1Affine> = crs.crs_g_vec.iter().map(|p| p.inner.into_affine()).collect();
    let h: Vec<G1Affine> = crs.crs_h_vec.iter().map(|p| p.inner.into_affine()).collect();
    let (g_sum, h_sum) = (crs.crs_g_sum.inner.into_affine(), crs.crs_h_sum.inner.into_affine());
    let (mut accumulator, mut rng) = (MsmAccumulator::default(), rng);
    let accepted = proof.verify(
        &g, &h, &crs.crs_u.inner, &g_sum, &h_sum, &committed_ballot.inner,
        &committed_permutation.inner, statement, blinder_count, &mut Transcript::new(label),
        &mut accumulator, &mut rng,
    ).is_ok();
    (accepted, accumulator)
}

/// Calls `MsmAccumulator::verify`. Trusted: whether it accepts is a
/// function of the checks gathered; the order in which it walks its table
/// does not change the sum that it tests.
#[verifier::external_body]
pub(crate) fn check_accumulator(accumulator: MsmAccumulator) -> (holds: bool)
    ensures
        holds == accumulator_holds(accumulator),
{
    accumulator.verify().is_ok()
}

} // verus!
