//! The wire forms of a proof: split parts, as bytes or as base64 text, and
//! flat bytes.
//!
//! A commitment travels in its canonical compressed encoding, `POINT_BYTES`
//! long, and the decoder accepts only points of the curve's prime-order
//! subgroup. The proof body travels in the argument engine's own byte
//! format, which this module carries and does not read: the caller encodes
//! and decodes the body with the engine.

use crate::circuit::{
    candidates_of, candidates_of_exponent, circuit_exponent, exponent_of, exponent_of_candidates,
    lemma_exponent_round_trip, SizeError,
};
use crate::curve::{decoded_point, point_from_bytes, point_to_bytes, Point, POINT_BYTES};
use crate::vote::{verification_of, verify_proof, ProofView, RankedVotingProof};
use crate::N_BLINDERS;
use base64::engine::general_purpose::STANDARD;
use base64::{DecodeError, Engine};
use curdleproofs::same_permutation_argument::SamePermutationProof;
use vstd::prelude::*;
use vstd::slice::{slice_subrange, slice_to_vec};

verus! {

/// The base64 decoder's error.
#[verifier::external_type_specification]
#[verifier::external_body]
pub struct ExDecodeError(DecodeError);

/// Why a proof could not be encoded or decoded.
#[derive(Debug, Clone, Copy, PartialEq, Eq, Structural)]
pub enum CodecError {
    /// The circuit size or its exponent is not valid.
    Size(SizeError),
    /// A commitment's bytes are no encoding of a point of the group.
    InvalidPoint,
    /// A text field is no base64.
    InvalidBase64,
    /// The bytes are not laid out as the form asks.
    MalformedLayout,
    /// The point serializer failed. With output to memory it does not.
    Serialization,
}

/// A proof in split parts: the exponent of the circuit size, and the bytes
/// of the two commitments and of the proof body.
#[derive(Debug, PartialEq, Eq)]
pub struct ProofPartsBytes {
    pub log2_n: u8,
    pub committed_ballot: Vec<u8>,
    pub committed_permutation: Vec<u8>,
    pub proof: Vec<u8>,
}

/// Split parts as sequences of bytes.
pub struct PartsView {
    pub log2_n: u8,
    pub committed_ballot: Seq<u8>,
    pub committed_permutation: Seq<u8>,
    pub proof: Seq<u8>,
}

impl View for ProofPartsBytes {
    type V = PartsView;

    open spec fn view(&self) -> PartsView {
        PartsView {
            log2_n: self.log2_n,
            committed_ballot: self.committed_ballot@,
            committed_permutation: self.committed_permutation@,
            proof: self.proof@,
        }
    }
}

/// A proof in split parts for text transport: each byte string in base64,
/// standard alphabet, padded.
#[derive(Debug, PartialEq, Eq)]
pub struct ProofPartsB64 {
    pub log2_n: u8,
    pub committed_ballot: String,
    pub committed_permutation: String,
    pub proof: String,
}

/// Split text parts as sequences of characters.
pub struct TextPartsView {
    pub log2_n: u8,
    pub committed_ballot: Seq<char>,
    pub committed_permutation: Seq<char>,
    pub proof: Seq<char>,
}

impl View for ProofPartsB64 {
    type V = TextPartsView;

    open spec fn view(&self) -> TextPartsView {
        TextPartsView {
            log2_n: self.log2_n,
            committed_ballot: self.committed_ballot@,
            committed_permutation: self.committed_permutation@,
            proof: self.proof@,
        }
    }
}

/// The base64 text that the standard engine's `encode` makes of bytes.
pub uninterp spec fn base64_text(bytes: Seq<u8>) -> Seq<char>;

/// The bytes that the standard engine's `decode` reads from a text, where
/// it accepts the text.
pub uninterp spec fn base64_bytes(text: Seq<char>) -> Option<Seq<u8>>;

/// Calls `Engine::encode` of `base64`'s standard engine. Trusted: the text
/// is a function of the bytes, and the decoder reads the same bytes back
/// from it.
#[verifier::external_body]
fn base64_encode(bytes: &Vec<u8>) -> (text: String)
    ensures
        text@ == base64_text(bytes@),
        base64_bytes(text@) == Some(bytes@),
{
    STANDARD.encode(bytes)
}

/// Calls `Engine::decode` of `base64`'s standard engine. Trusted: it
/// accepts exactly the texts that `base64_bytes` knows, and returns the
/// bytes given there.
#[verifier::external_body]
fn base64_decode(text: &String) -> (r: Result<Vec<u8>, DecodeError>)
    ensures
        match r {
            Ok(bytes) => base64_bytes(text@) == Some(bytes@),
            Err(_) => base64_bytes(text@) is None,
        },
{
    STANDARD.decode(text)
}

/// `bytes` are the encoding of a point, as the decoder reads it back.
pub open spec fn is_point_encoding(bytes: Seq<u8>) -> bool {
    &&& bytes.len() == POINT_BYTES
    &&& decoded_point(bytes) == Some(bytes)
}

/// The split parts of a proof for `ell` candidates, with the body's bytes
/// as the engine wrote them.
pub open spec fn parts_of(proof: ProofView, ell: int, body: Seq<u8>) -> Result<
    PartsView,
    CodecError,
> {
    match exponent_of(ell + N_BLINDERS) {
        Err(e) => Err(CodecError::Size(e)),
        Ok(log2_n) => Ok(
            PartsView {
                log2_n,
                committed_ballot: proof.committed_ballot,
                committed_permutation: proof.committed_permutation,
                proof: body,
            },
        ),
    }
}

/// The proof that split parts stand for, with the body as the engine read
/// it from their bytes.
pub open spec fn proof_of_parts(parts: PartsView, body: SamePermutationProof) -> Result<
    ProofView,
    CodecError,
> {
    match candidates_of(parts.log2_n) {
        Err(e) => Err(CodecError::Size(e)),
        Ok(_) => match (
            decoded_point(parts.committed_ballot),
            decoded_point(parts.committed_permutation),
        ) {
            (Some(committed_ballot), Some(committed_permutation)) => Ok(
                ProofView { proof: body, committed_ballot, committed_permutation },
            ),
            _ => Err(CodecError::InvalidPoint),
        },
    }
}

/// Split parts as text.
pub open spec fn text_of_parts(parts: PartsView) -> TextPartsView {
    TextPartsView {
        log2_n: parts.log2_n,
        committed_ballot: base64_text(parts.committed_ballot),
        committed_permutation: base64_text(parts.committed_permutation),
        proof: base64_text(parts.proof),
    }
}

/// The split parts that text parts stand for.
pub open spec fn parts_of_text(text: TextPartsView) -> Result<PartsView, CodecError> {
    match (
        base64_bytes(text.committed_ballot),
        base64_bytes(text.committed_permutation),
        base64_bytes(text.proof),
    ) {
        (Some(committed_ballot), Some(committed_permutation), Some(proof)) => Ok(
            PartsView { log2_n: text.log2_n, committed_ballot, committed_permutation, proof },
        ),
        _ => Err(CodecError::InvalidBase64),
    }
}

/// The flat form of split parts: the ballot commitment, the permutation
/// commitment, then the body. It does not carry the circuit size.
pub open spec fn flat_of(parts: PartsView) -> Result<Seq<u8>, CodecError> {
    if parts.committed_ballot.len() == POINT_BYTES && parts.committed_permutation.len()
        == POINT_BYTES {
        Ok(parts.committed_ballot + parts.committed_permutation + parts.proof)
    } else {
        Err(CodecError::MalformedLayout)
    }
}

/// The split parts that flat bytes stand for, the circuit size `n` being
/// known from elsewhere.
pub open spec fn parts_of_flat(bytes: Seq<u8>, n: int) -> Result<PartsView, CodecError> {
    match exponent_of(n) {
        Err(e) => Err(CodecError::Size(e)),
        Ok(log2_n) => if bytes.len() < 2 * POINT_BYTES {
            Err(CodecError::MalformedLayout)
        } else {
            Ok(
                PartsView {
                    log2_n,
                    committed_ballot: bytes.subrange(0, POINT_BYTES as int),
                    committed_permutation: bytes.subrange(POINT_BYTES as int, 2 * POINT_BYTES),
                    proof: bytes.subrange(2 * POINT_BYTES, bytes.len() as int),
                },
            )
        },
    }
}

/// The view of a result that holds split parts.
pub open spec fn parts_result_view(r: Result<ProofPartsBytes, CodecError>) -> Result<
    PartsView,
    CodecError,
> {
    match r {
        Ok(parts) => Ok(parts@),
        Err(e) => Err(e),
    }
}

/// The view of a result that holds a proof.
pub open spec fn proof_result_view(r: Result<RankedVotingProof, CodecError>) -> Result<
    ProofView,
    CodecError,
> {
    match r {
        Ok(proof) => Ok(proof@),
        Err(e) => Err(e),
    }
}

/// Splitting the flat form of split parts under the circuit size that their
/// exponent stands for gives the parts back.
pub proof fn lemma_flat_round_trip(parts: PartsView, n: int)
    requires
        flat_of(parts) is Ok,
        exponent_of(n) == Ok::<u8, SizeError>(parts.log2_n),
    ensures
        parts_of_flat(flat_of(parts)->Ok_0, n) == Ok::<PartsView, CodecError>(parts),
{
    let flat = flat_of(parts)->Ok_0;
    let back = parts_of_flat(flat, n)->Ok_0;
    assert(back.committed_ballot =~= parts.committed_ballot);
    assert(back.committed_permutation =~= parts.committed_permutation);
    assert(back.proof =~= parts.proof);
}

/// Both commitments of a proof are encodings of points.
pub open spec fn is_encodable(proof: ProofView) -> bool {
    &&& is_point_encoding(proof.committed_ballot)
    &&& is_point_encoding(proof.committed_permutation)
}

/// Decoding the split parts of a proof, with its own body, gives the proof
/// back and the number of candidates that it was encoded for. So what is
/// decoded verifies exactly as the proof does.
pub proof fn lemma_parts_round_trip(
    proof: ProofView,
    ell: usize,
    body: Seq<u8>,
    setup_seed: u64,
    proof_seed: u64,
)
    requires
        is_encodable(proof),
        parts_of(proof, ell as int, body) is Ok,
    ensures
        proof_of_parts(parts_of(proof, ell as int, body)->Ok_0, proof.proof) == Ok::<
            ProofView,
            CodecError,
        >(proof),
        candidates_of(parts_of(proof, ell as int, body)->Ok_0.log2_n) == Ok::<usize, SizeError>(
            ell,
        ),
        verification_of(
            proof_of_parts(parts_of(proof, ell as int, body)->Ok_0, proof.proof)->Ok_0,
            ell as nat,
            setup_seed,
            proof_seed,
        ) == verification_of(proof, ell as nat, setup_seed, proof_seed),
{
    lemma_exponent_round_trip(ell, parts_of(proof, ell as int, body)->Ok_0.log2_n);
}

/// Encodes a commitment: its canonical compressed encoding.
pub fn commitment_to_bytes(commitment: &Point) -> (r: Result<Vec<u8>, CodecError>)
    ensures
        r is Ok,
        r->Ok_0@ == commitment@,
        is_point_encoding(commitment@),
{
    match point_to_bytes(commitment) {
        Ok(bytes) => Ok(bytes),
        Err(_) => Err(CodecError::Serialization),
    }
}

/// Decodes a commitment from the start of `bytes`. It is rejected where the
/// bytes are too few or name no point of the curve's prime-order subgroup.
pub fn commitment_from_bytes(bytes: &[u8]) -> (r: Result<Point, CodecError>)
    ensures
        match r {
            Ok(p) => decoded_point(bytes@) == Some(p@),
            Err(e) => e == CodecError::InvalidPoint && decoded_point(bytes@) is None,
        },
{
    match point_from_bytes(bytes) {
        Ok(p) => Ok(p),
        Err(_) => Err(CodecError::InvalidPoint),
    }
}

/// Encodes a proof for `ell` candidates as split parts. `proof_body` holds
/// the bytes that the argument engine wrote for `p.proof`. Decoding the
/// parts, with the body that the engine reads back, gives the proof again.
pub fn proof_to_parts_bytes(p: &RankedVotingProof, ell: usize, proof_body: Vec<u8>) -> (r: Result<
    ProofPartsBytes,
    CodecError,
>)
    ensures
        parts_result_view(r) == parts_of(p@, ell as int, proof_body@),
        r matches Ok(parts) ==> {
            &&& candidates_of(parts.log2_n) == Ok::<usize, SizeError>(ell)
            &&& proof_of_parts(parts@, p.proof) == Ok::<ProofView, CodecError>(p@)
        },
{
    let log2_n = match exponent_of_candidates(ell) {
        Ok(k) => k,
        Err(e) => {
            return Err(CodecError::Size(e));
        },
    };
    proof {
        lemma_exponent_round_trip(ell, log2_n);
    }
    let committed_ballot = match commitment_to_bytes(&p.committed_ballot) {
        Ok(bytes) => bytes,
        Err(e) => {
            return Err(e);
        },
    };
    let committed_permutation = match commitment_to_bytes(&p.committed_permutation) {
        Ok(bytes) => bytes,
        Err(e) => {
            return Err(e);
        },
    };
    Ok(ProofPartsBytes { log2_n, committed_ballot, committed_permutation, proof: proof_body })
}

/// Decodes a proof from split parts. `proof_body` is what the argument
/// engine read from `parts.proof`. The exponent is checked first, then the
/// two commitments.
pub fn proof_from_parts_bytes(parts: &ProofPartsBytes, proof_body: SamePermutationProof) -> (r:
    Result<RankedVotingProof, CodecError>)
    ensures
        proof_result_view(r) == proof_of_parts(parts@, proof_body),
{
    match candidates_of_exponent(parts.log2_n) {
        Ok(_) => {},
        Err(e) => {
            return Err(CodecError::Size(e));
        },
    }
    let ballot = commitment_from_bytes(parts.committed_ballot.as_slice());
    let permutation = commitment_from_bytes(parts.committed_permutation.as_slice());
    match (ballot, permutation) {
        (Ok(committed_ballot), Ok(committed_permutation)) => Ok(
            RankedVotingProof { proof: proof_body, committed_ballot, committed_permutation },
        ),
        _ => Err(CodecError::InvalidPoint),
    }
}

/// Wraps each byte string of split parts in base64. Reading the text back
/// gives the same parts.
pub fn parts_to_b64(parts: &ProofPartsBytes) -> (text: ProofPartsB64)
    ensures
        text@ == text_of_parts(parts@),
        parts_of_text(text@) == Ok::<PartsView, CodecError>(parts@),
{
    ProofPartsB64 {
        log2_n: parts.log2_n,
        committed_ballot: base64_encode(&parts.committed_ballot),
        committed_permutation: base64_encode(&parts.committed_permutation),
        proof: base64_encode(&parts.proof),
    }
}

/// Reads the byte strings of text parts. The parts are rejected where one
/// of the three texts is no base64.
pub fn parts_from_b64(text: &ProofPartsB64) -> (r: Result<ProofPartsBytes, CodecError>)
    ensures
        parts_result_view(r) == parts_of_text(text@),
{
    let committed_ballot = base64_decode(&text.committed_ballot);
    let committed_permutation = base64_decode(&text.committed_permutation);
    let proof = base64_decode(&text.proof);
    match (committed_ballot, committed_permutation, proof) {
        (Ok(committed_ballot), Ok(committed_permutation), Ok(proof)) => Ok(
            ProofPartsBytes { log2_n: text.log2_n, committed_ballot, committed_permutation, proof },
        ),
        _ => Err(CodecError::InvalidBase64),
    }
}

/// Encodes a proof for `ell` candidates as text parts. `proof_body` holds
/// the bytes that the argument engine wrote for `p.proof`. Decoding the
/// text, with the body that the engine reads back, gives the proof again.
pub fn proof_to_parts_b64(p: &RankedVotingProof, ell: usize, proof_body: Vec<u8>) -> (r: Result<
    ProofPartsB64,
    CodecError,
>)
    ensures
        match r {
            Ok(text) => {
                &&& parts_of(p@, ell as int, proof_body@) is Ok
                &&& text@ == text_of_parts(parts_of(p@, ell as int, proof_body@)->Ok_0)
                &&& parts_of_text(text@) == parts_of(p@, ell as int, proof_body@)
                &&& candidates_of(text.log2_n) == Ok::<usize, SizeError>(ell)
                &&& forall|parts: PartsView|
                    parts_of_text(text@) == Ok::<PartsView, CodecError>(parts) ==> proof_of_parts(
                        parts,
                        p.proof,
                    ) == Ok::<ProofView, CodecError>(p@)
            },
            Err(e) => parts_of(p@, ell as int, proof_body@) == Err::<PartsView, CodecError>(e),
        },
{
    match proof_to_parts_bytes(p, ell, proof_body) {
        Ok(parts) => Ok(parts_to_b64(&parts)),
        Err(e) => Err(e),
    }
}

/// Decodes a proof from text parts. `proof_body` is what the argument
/// engine read from the bytes of `text.proof`.
pub fn proof_from_parts_b64(text: &ProofPartsB64, proof_body: SamePermutationProof) -> (r: Result<
    RankedVotingProof,
    CodecError,
>)
    ensures
        proof_result_view(r) == match parts_of_text(text@) {
            Ok(parts) => proof_of_parts(parts, proof_body),
            Err(e) => Err(e),
        },
{
    match parts_from_b64(text) {
        Ok(parts) => proof_from_parts_bytes(&parts, proof_body),
        Err(e) => Err(e),
    }
}

/// Appends the bytes of `tail` to `out`.
fn append_bytes(out: &mut Vec<u8>, tail: &Vec<u8>)
    ensures
        final(out)@ == old(out)@ + tail@,
{
    let mut i: usize = 0;
    while i < tail.len()
        invariant
            i <= tail.len(),
            out@ == old(out)@ + tail@.take(i as int),
        decreases tail.len() - i,
    {
        out.push(tail[i]);
        proof {
            assert(tail@.take(i + 1) == tail@.take(i as int).push(tail@[i as int]));
        }
        i += 1;
    }
    proof {
        assert(tail@.take(tail@.len() as int) == tail@);
    }
}

/// Lays split parts out flat: the ballot commitment, the permutation
/// commitment, then the body. The parts are rejected where a commitment is
/// not `POINT_BYTES` long. The circuit size goes another way; splitting the
/// flat bytes under it gives the parts back.
pub fn parts_to_flat_bytes(parts: &ProofPartsBytes) -> (r: Result<Vec<u8>, CodecError>)
    ensures
        match r {
            Ok(bytes) => flat_of(parts@) == Ok::<Seq<u8>, CodecError>(bytes@),
            Err(e) => flat_of(parts@) == Err::<Seq<u8>, CodecError>(e),
        },
        r matches Ok(bytes) ==> forall|n: int|
            exponent_of(n) == Ok::<u8, SizeError>(parts.log2_n) ==> #[trigger] parts_of_flat(
                bytes@,
                n,
            ) == Ok::<PartsView, CodecError>(parts@),
{
    if parts.committed_ballot.len() != POINT_BYTES || parts.committed_permutation.len()
        != POINT_BYTES {
        return Err(CodecError::MalformedLayout);
    }
    let mut out: Vec<u8> = Vec::new();
    append_bytes(&mut out, &parts.committed_ballot);
    append_bytes(&mut out, &parts.committed_permutation);
    append_bytes(&mut out, &parts.proof);
    proof {
        assert(out@ == parts@.committed_ballot + parts@.committed_permutation + parts@.proof);
        assert forall|n: int|
            exponent_of(n) == Ok::<u8, SizeError>(parts.log2_n) implies #[trigger] parts_of_flat(
            out@,
            n,
        ) == Ok::<PartsView, CodecError>(parts@) by {
            lemma_flat_round_trip(parts@, n);
        }
    }
    Ok(out)
}

/// Splits flat bytes into parts, for the circuit size `n`. The size is
/// checked first. The bytes are rejected where they are too few to hold two
/// commitments.
pub fn parts_from_flat_bytes(bytes: &[u8], n: usize) -> (r: Result<ProofPartsBytes, CodecError>)
    ensures
        parts_result_view(r) == parts_of_flat(bytes@, n as int),
{
    let log2_n = match circuit_exponent(n) {
        Ok(k) => k,
        Err(e) => {
            return Err(CodecError::Size(e));
        },
    };
    if bytes.len() < 2 * POINT_BYTES {
        return Err(CodecError::MalformedLayout);
    }
    let committed_ballot = slice_to_vec(slice_subrange(bytes, 0, POINT_BYTES));
    let committed_permutation = slice_to_vec(slice_subrange(bytes, POINT_BYTES, 2 * POINT_BYTES));
    let proof = slice_to_vec(slice_subrange(bytes, 2 * POINT_BYTES, bytes.len()));
    Ok(ProofPartsBytes { log2_n, committed_ballot, committed_permutation, proof })
}

/// Checks a proof as it came over the wire in split parts. `proof_body` is
/// what the argument engine read from `parts.proof`. Parts that do not
/// decode give the decoder's error; parts that decode give the answer of
/// `verify_proof` for the number of candidates that their exponent stands
/// for.
pub fn verify_parts(
    parts: &ProofPartsBytes,
    proof_body: SamePermutationProof,
    setup_seed: u64,
    proof_seed: u64,
) -> (r: Result<bool, CodecError>)
    ensures
        r == match (proof_of_parts(parts@, proof_body), candidates_of(parts.log2_n)) {
            (Ok(proof), Ok(ell)) => Ok::<bool, CodecError>(
                verification_of(proof, ell as nat, setup_seed, proof_seed),
            ),
            (Err(e), _) => Err(e),
            (Ok(_), Err(e)) => Err(CodecError::Size(e)),
        },
{
    let proof = match proof_from_parts_bytes(parts, proof_body) {
        Ok(proof) => proof,
        Err(e) => {
            return Err(e);
        },
    };
    match candidates_of_exponent(parts.log2_n) {
        Ok(ell) => Ok(verify_proof(&proof, ell, setup_seed, proof_seed)),
        Err(e) => Err(CodecError::Size(e)),
    }
}

} // verus!
