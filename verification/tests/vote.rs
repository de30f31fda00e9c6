use ark_bls12_381::{Fr, G1Affine, G1Projective};
use ark_ec::ProjectiveCurve;
use ark_serialize::CanonicalSerialize;
use ark_std::rand::rngs::StdRng;
use ark_std::rand::SeedableRng;
use ark_std::UniformRand;
use curdleproofs::msm_accumulator::MsmAccumulator;
use curdleproofs::same_permutation_argument::SamePermutationProof;
use curdleproofs::util::{generate_blinders, msm};
use merlin::Transcript;
use ranked_voting::codec::{commitment_from_bytes, commitment_to_bytes};
use ranked_voting::vote::{canonical_index_vec, TRANSCRIPT_LABEL};
use ranked_voting::{
    generate_vote, proof_from_parts_bytes, proof_to_parts_bytes, verify_proof, PermutationError,
    Point, RankedVotingProof, VoteError, N_BLINDERS,
};

fn bytes_of(p: &Point) -> Vec<u8> {
    commitment_to_bytes(p).unwrap()
}

fn projective_bytes(p: &G1Projective) -> Vec<u8> {
    let mut out = Vec::new();
    p.serialize(&mut out).unwrap();
    out
}

fn point_of(p: &G1Projective) -> Point {
    commitment_from_bytes(&projective_bytes(p)).unwrap()
}

fn error_of(r: Result<RankedVotingProof, VoteError>) -> VoteError {
    match r {
        Ok(_) => panic!("no proof was expected"),
        Err(e) => e,
    }
}

struct Reference {
    g: Vec<G1Affine>,
    h: Vec<G1Affine>,
    u: G1Projective,
    committed_ballot: G1Projective,
    committed_permutation: G1Projective,
    proof: SamePermutationProof,
}

fn reference_vote(ballot: &[u32], setup_seed: u64, proof_seed: u64) -> Reference {
    let ell = ballot.len();
    let mut rng = StdRng::seed_from_u64(setup_seed);
    let mut g = Vec::new();
    for _ in 0..ell {
        g.push(G1Projective::rand(&mut rng).into_affine());
    }
    let mut h = Vec::new();
    for _ in 0..N_BLINDERS {
        h.push(G1Projective::rand(&mut rng).into_affine());
    }
    let u = G1Projective::rand(&mut rng);

    let statement: Vec<Fr> = (0..ell as u32).map(Fr::from).collect();
    let ballot_fr: Vec<Fr> = ballot.iter().map(|x| Fr::from(*x)).collect();
    let mut rng = StdRng::seed_from_u64(proof_seed);
    let r_ballot = generate_blinders(&mut rng, N_BLINDERS);
    let r_permutation = generate_blinders(&mut rng, N_BLINDERS);
    let committed_permutation = msm(&g, &ballot_fr) + msm(&h, &r_permutation);
    let committed_ballot = msm(&g, &ballot_fr) + msm(&h, &r_ballot);
    let proof = SamePermutationProof::new(
        &g,
        &h,
        &u,
        committed_ballot,
        committed_permutation,
        &statement,
        ballot.to_vec(),
        r_ballot,
        r_permutation,
        &mut Transcript::new(b"sameperm"),
        &mut rng,
    );
    Reference { g, h, u, committed_ballot, committed_permutation, proof }
}

fn reference_verify(
    reference: &Reference,
    proof: &SamePermutationProof,
    committed_ballot: &G1Projective,
    committed_permutation: &G1Projective,
    proof_seed: u64,
) -> bool {
    let ell = reference.g.len();
    let statement: Vec<Fr> = (0..ell as u32).map(Fr::from).collect();
    let g_sum: G1Affine = reference.g.iter().sum();
    let h_sum: G1Affine = reference.h.iter().sum();
    let mut accumulator = MsmAccumulator::default();
    let mut rng = StdRng::seed_from_u64(proof_seed);
    let accepted = proof
        .verify(
            &reference.g,
            &reference.h,
            &reference.u,
            &g_sum,
            &h_sum,
            committed_ballot,
            committed_permutation,
            &statement,
            N_BLINDERS,
            &mut Transcript::new(b"sameperm"),
            &mut accumulator,
            &mut rng,
        )
        .is_ok();
    accepted && accumulator.verify().is_ok()
}

#[test]
fn test_valid_permutation_proof() {
    let ballot = vec![1, 0, 2, 3];
    let setup_seed = 42;
    let proof_seed = 999;

    let proof = generate_vote(&ballot, setup_seed, proof_seed).expect("Should generate proof");
    assert!(
        verify_proof(&proof, ballot.len(), setup_seed, proof_seed),
        "Proof should verify for valid permutation"
    );
}

#[test]
fn test_invalid_permutation_proof() {
    let ballot = vec![1, 0, 2, 2];
    let setup_seed = 42;
    let proof_seed = 999;

    assert!(
        generate_vote(&ballot, setup_seed, proof_seed).is_err(),
        "Should fail to generate proof for invalid permutation"
    );
}

#[test]
fn test_proof_integrity_fails_on_tamper() {
    let ballot = vec![0, 1, 2, 3];
    let setup_seed = 42;
    let proof_seed = 999;

    let mut proof = generate_vote(&ballot, setup_seed, proof_seed).expect("Proof should be valid");

    proof.committed_permutation = point_of(&G1Projective::rand(&mut StdRng::seed_from_u64(999)));

    assert!(
        !verify_proof(&proof, ballot.len(), setup_seed, proof_seed),
        "Tampered proof should not verify"
    );
}

#[test]
fn roundtrip_parts_and_verify() {
    let ballot = vec![1, 0, 2, 3];
    let setup_seed = 42;
    let proof_seed = 999;

    let proof = generate_vote(&ballot, setup_seed, proof_seed).unwrap();

    let parts = proof_to_parts_bytes(&proof, ballot.len(), Vec::new()).unwrap();

    let proof2 = proof_from_parts_bytes(&parts, proof.proof.clone()).unwrap();

    assert!(verify_proof(&proof2, ballot.len(), setup_seed, proof_seed));
}

#[test]
fn transcript_label_spells_sameperm() {
    assert_eq!(&TRANSCRIPT_LABEL, b"sameperm");
}

#[test]
fn canonical_indices_count_up_from_zero() {
    assert_eq!(canonical_index_vec(0), Vec::<u32>::new());
    assert_eq!(canonical_index_vec(1), vec![0]);
    assert_eq!(canonical_index_vec(5), vec![0, 1, 2, 3, 4]);
}

#[test]
fn duplicate_ballot_gives_the_duplicate_error() {
    assert_eq!(
        error_of(generate_vote(&[1, 0, 2, 2], 42, 999)),
        VoteError::Permutation(PermutationError::DuplicateInBallot(2))
    );
}

#[test]
fn out_of_range_ballot_gives_the_missing_value() {
    assert_eq!(
        error_of(generate_vote(&[1, 0, 4, 3], 42, 999)),
        VoteError::Permutation(PermutationError::ValueNotFound(4))
    );
    assert_eq!(
        error_of(generate_vote(&[u32::MAX, 0, 1, 2], 42, 999)),
        VoteError::Permutation(PermutationError::ValueNotFound(u32::MAX))
    );
}

#[test]
fn invalid_ballots_fail_whatever_their_length() {
    assert_eq!(
        error_of(generate_vote(&[0, 0, 1], 1, 2)),
        VoteError::Permutation(PermutationError::DuplicateInBallot(0))
    );
    assert_eq!(
        error_of(generate_vote(&[5], 1, 2)),
        VoteError::Permutation(PermutationError::ValueNotFound(5))
    );
}

#[test]
fn empty_ballot_gives_no_proof() {
    assert_eq!(error_of(generate_vote(&[], 42, 999)), VoteError::EmptyBallot);
}

#[test]
fn ballot_length_must_fit_a_circuit_size() {
    assert_eq!(error_of(generate_vote(&[0, 1, 2], 42, 999)), VoteError::InvalidCircuitSize);
    assert_eq!(error_of(generate_vote(&[0], 42, 999)), VoteError::InvalidCircuitSize);
    assert_eq!(error_of(generate_vote(&[4, 3, 2, 1, 0], 42, 999)), VoteError::InvalidCircuitSize);
}

#[test]
fn every_small_permutation_proves_and_verifies() {
    let ballots: [[u32; 4]; 6] =
        [[0, 1, 2, 3], [3, 2, 1, 0], [1, 0, 3, 2], [2, 3, 0, 1], [1, 2, 3, 0], [3, 0, 1, 2]];
    for (i, ballot) in ballots.iter().enumerate() {
        let setup_seed = 100 + i as u64;
        let proof_seed = 200 + i as u64;
        let proof = generate_vote(ballot, setup_seed, proof_seed).unwrap();
        assert!(verify_proof(&proof, 4, setup_seed, proof_seed));
    }
}

#[test]
fn twelve_candidates_prove_and_verify() {
    let ballot = [11, 3, 7, 0, 1, 9, 2, 10, 4, 8, 6, 5];
    let proof = generate_vote(&ballot, 1, 2).unwrap();
    assert!(verify_proof(&proof, 12, 1, 2));
    assert!(!verify_proof(&proof, 4, 1, 2));
}

#[test]
fn generation_is_the_same_for_the_same_inputs() {
    let first = generate_vote(&[1, 0, 2, 3], 42, 999).unwrap();
    let second = generate_vote(&[1, 0, 2, 3], 42, 999).unwrap();
    assert_eq!(bytes_of(&first.committed_ballot), bytes_of(&second.committed_ballot));
    assert_eq!(bytes_of(&first.committed_permutation), bytes_of(&second.committed_permutation));
    assert_eq!(format!("{:?}", first.proof), format!("{:?}", second.proof));
}

#[test]
fn generation_follows_the_engine_step_by_step() {
    let ballot = [2, 0, 3, 1];
    let reference = reference_vote(&ballot, 42, 999);
    let proof = generate_vote(&ballot, 42, 999).unwrap();
    assert_eq!(bytes_of(&proof.committed_ballot), projective_bytes(&reference.committed_ballot));
    assert_eq!(
        bytes_of(&proof.committed_permutation),
        projective_bytes(&reference.committed_permutation)
    );
    assert_ne!(bytes_of(&proof.committed_ballot), bytes_of(&proof.committed_permutation));
    assert!(reference_verify(
        &reference,
        &proof.proof,
        &reference.committed_ballot,
        &reference.committed_permutation,
        5
    ));
}

#[test]
fn verification_follows_the_engine() {
    let ballot = [2, 0, 3, 1];
    let reference = reference_vote(&ballot, 42, 999);
    let proof = RankedVotingProof {
        proof: reference.proof.clone(),
        committed_ballot: point_of(&reference.committed_ballot),
        committed_permutation: point_of(&reference.committed_permutation),
    };
    assert!(verify_proof(&proof, 4, 42, 999));
    let swapped = RankedVotingProof {
        proof: reference.proof.clone(),
        committed_ballot: point_of(&reference.committed_permutation),
        committed_permutation: point_of(&reference.committed_ballot),
    };
    assert_eq!(
        verify_proof(&swapped, 4, 42, 999),
        reference_verify(
            &reference,
            &reference.proof,
            &reference.committed_permutation,
            &reference.committed_ballot,
            999
        )
    );
    assert!(!verify_proof(&swapped, 4, 42, 999));
}

#[test]
fn verification_is_the_same_when_repeated() {
    let proof = generate_vote(&[1, 0, 2, 3], 42, 999).unwrap();
    for _ in 0..3 {
        assert!(verify_proof(&proof, 4, 42, 999));
    }
    let other = generate_vote(&[1, 0, 2, 3], 42, 999).unwrap();
    assert!(verify_proof(&other, 4, 42, 999));
}

#[test]
fn another_setup_seed_fails_verification() {
    let proof = generate_vote(&[1, 0, 2, 3], 42, 999).unwrap();
    assert!(!verify_proof(&proof, 4, 43, 999));
}

#[test]
fn the_proof_seed_only_batches_the_verifier_checks() {
    let proof = generate_vote(&[1, 0, 2, 3], 42, 999).unwrap();
    assert!(verify_proof(&proof, 4, 42, 1000));
    assert!(verify_proof(&proof, 4, 42, 0));
    let mut tampered = generate_vote(&[1, 0, 2, 3], 42, 999).unwrap();
    tampered.committed_ballot = point_of(&G1Projective::rand(&mut StdRng::seed_from_u64(5)));
    assert!(!verify_proof(&tampered, 4, 42, 1000));
    assert!(!verify_proof(&tampered, 4, 42, 0));
}

#[test]
fn another_number_of_candidates_fails_verification() {
    let proof = generate_vote(&[1, 0, 2, 3], 42, 999).unwrap();
    assert!(!verify_proof(&proof, 12, 42, 999));
    assert!(!verify_proof(&proof, 0, 42, 999));
}

#[test]
fn a_length_that_fits_no_circuit_size_fails_verification() {
    let proof = generate_vote(&[1, 0, 2, 3], 42, 999).unwrap();
    assert!(!verify_proof(&proof, 3, 42, 999));
    assert!(!verify_proof(&proof, 5, 42, 999));
    assert!(!verify_proof(&proof, usize::MAX, 42, 999));
}

#[test]
fn a_tampered_ballot_commitment_fails_verification() {
    let mut proof = generate_vote(&[1, 0, 2, 3], 42, 999).unwrap();
    proof.committed_ballot = point_of(&G1Projective::rand(&mut StdRng::seed_from_u64(5)));
    assert!(!verify_proof(&proof, 4, 42, 999));
}

#[test]
fn a_tampered_permutation_commitment_fails_verification() {
    let mut proof = generate_vote(&[1, 0, 2, 3], 42, 999).unwrap();
    proof.committed_permutation = point_of(&G1Projective::rand(&mut StdRng::seed_from_u64(5)));
    assert!(!verify_proof(&proof, 4, 42, 999));
}

#[test]
fn a_proof_body_of_another_ballot_fails_verification() {
    let mut proof = generate_vote(&[1, 0, 2, 3], 42, 999).unwrap();
    let other = generate_vote(&[3, 2, 1, 0], 42, 999).unwrap();
    proof.proof = other.proof;
    assert!(!verify_proof(&proof, 4, 42, 999));
}

#[test]
fn a_proof_body_of_other_blinders_fails_verification() {
    let mut proof = generate_vote(&[1, 0, 2, 3], 42, 999).unwrap();
    let other = generate_vote(&[1, 0, 2, 3], 42, 1000).unwrap();
    proof.proof = other.proof;
    assert!(!verify_proof(&proof, 4, 42, 999));
}
