//! Ranked-choice ballots with a zero-knowledge argument that a ballot is a
//! re-ordering of the canonical candidate list.
//!
//! The library derives the reference string from a seed, derives and checks
//! the permutation behind a ballot, builds the blinded commitments, hands
//! them to the argument engine to prove and to verify, and frames the proof
//! for the wire.

use vstd::prelude::*;

pub mod argument;
pub mod circuit;
pub mod codec;
pub mod commitment;
pub mod curve;
pub mod permutation;
pub mod randomness;
pub mod service;
pub mod setup;
pub mod vote;

pub use crate::circuit::SizeError;
pub use crate::codec::{
    proof_from_parts_b64, proof_from_parts_bytes, proof_to_parts_b64, proof_to_parts_bytes,
    CodecError, ProofPartsB64, ProofPartsBytes,
};
pub use crate::curve::Point;
pub use crate::permutation::{find_permutation, PermutationError};
pub use crate::service::{rocket, Cors};
pub use crate::setup::{setup, SetupParameters};
pub use crate::vote::{generate_vote, verify_proof, RankedVotingProof, VoteError};

verus! {

/// Number of blinding generators, a constant of the argument engine.
pub const N_BLINDERS: usize = 4;

} // verus!
