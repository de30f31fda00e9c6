//! Points of the commitment group and scalars of its field.
//!
//! The curve arithmetic is the curve library's. A point is known to the
//! contracts by its canonical compressed encoding, which names one group
//! element whatever coordinates represent it.

use ark_bls12_381::{Fr, G1Affine, G1Projective};
use ark_ec::{AffineCurve, ProjectiveCurve};
use ark_serialize::{CanonicalDeserialize, CanonicalSerialize, SerializationError};
use vstd::prelude::*;

verus! {

/// The curve library's field elements of 256 bits; `Fr`, the scalar field,
/// is one of them.
#[verifier::external_type_specification]
#[verifier::external_body]
#[verifier::reject_recursive_types(P)]
pub struct ExFp256<P>(ark_ff::Fp256<P>);

/// The parameters of the scalar field.
#[verifier::external_type_specification]
#[verifier::external_body]
pub struct ExFrParameters(ark_bls12_381::FrParameters);

/// The serializer's error.
#[verifier::external_type_specification]
#[verifier::external_body]
pub struct ExSerializationError(SerializationError);

/// Length in bytes of the canonical compressed encoding of a point.
pub const POINT_BYTES: usize = 48;

/// An element of the commitment group: a point of the prime-order subgroup
/// of the curve's first source group. The library makes points by drawing
/// them, by adding and multiplying points, and by decoding, which checks
/// the subgroup; it makes no others.
///
/// The type of the curve library's points is bounded by a trait of that
/// library, so the point is held here, opaque to the verifier.
#[verifier::external_body]
pub struct Point {
    pub(crate) inner: G1Projective,
}

/// The canonical compressed encoding of a point, as the curve library's
/// `CanonicalSerialize::serialize` writes it.
pub uninterp spec fn point_encoding(p: Point) -> Seq<u8>;

/// The encoding of the point that the curve library's
/// `CanonicalDeserialize::deserialize` reads from `bytes`, where it accepts
/// them.
pub uninterp spec fn decoded_point(bytes: Seq<u8>) -> Option<Seq<u8>>;

/// The field element that `Fr::from` makes of an integer.
pub uninterp spec fn scalar_of(x: u32) -> Fr;

/// The encoding of the multi-scalar product that `curdleproofs::util::msm`
/// computes: the sum of `scalars[i]` times `points[i]`.
pub uninterp spec fn msm_encoding(points: Seq<Seq<u8>>, scalars: Seq<Fr>) -> Seq<u8>;

/// The encoding of the sum of two points, as the curve library adds them.
pub uninterp spec fn sum_encoding(left: Seq<u8>, right: Seq<u8>) -> Seq<u8>;

/// The encoding of the sum of a sequence of points, as the curve library's
/// `Sum` adds them up.
pub uninterp spec fn total_encoding(points: Seq<Seq<u8>>) -> Seq<u8>;

impl View for Point {
    type V = Seq<u8>;

    open spec fn view(&self) -> Seq<u8> {
        point_encoding(*self)
    }
}

/// The encodings of a sequence of points.
pub open spec fn encodings(points: Seq<Point>) -> Seq<Seq<u8>> {
    points.map_values(|p: Point| p@)
}

/// The field elements of a sequence of integers.
pub open spec fn scalars_of(values: Seq<u32>) -> Seq<Fr> {
    values.map_values(|x: u32| scalar_of(x))
}

/// Calls `CanonicalSerialize::serialize` on the point, into an empty vector.
/// Trusted: the bytes are the point's encoding, `POINT_BYTES` long; the
/// call succeeds, the serializer's only errors being those of its writer;
/// and the decoder reads the same point back from the bytes.
#[verifier::external_body]
pub(crate) fn point_to_bytes(p: &Point) -> (r: Result<Vec<u8>, SerializationError>)
    ensures
        r is Ok,
        r->Ok_0@ == point_encoding(*p),
        r->Ok_0@.len() == POINT_BYTES,
        decoded_point(r->Ok_0@) == Some(r->Ok_0@),
{
    let mut out = Vec::new();
    match p.inner.serialize(&mut out) {
        Ok(()) => Ok(out),
        Err(e) => Err(e),
    }
}

/// Calls `CanonicalDeserialize::deserialize` for a point on the bytes, which
/// checks that the point is on the curve and in the prime-order subgroup.
/// Trusted: it accepts exactly the byte strings that `decoded_point` knows,
/// and the point it returns has the encoding given there.
#[verifier::external_body]
pub(crate) fn point_from_bytes(bytes: &[u8]) -> (r: Result<Point, SerializationError>)
    ensures
        match r {
            Ok(p) => decoded_point(bytes@) == Some(point_encoding(p)),
            Err(_) => decoded_point(bytes@) is None,
        },
{
    match G1Projective::deserialize(bytes) {
        Ok(inner) => Ok(Point { inner }),
        Err(e) => Err(e),
    }
}

/// Calls `Fr::from` on the integer. Trusted: the field element is a
/// function of the integer.
#[verifier::external_body]
pub(crate) fn scalar_from_u32(x: u32) -> (r: Fr)
    ensures
        r == scalar_of(x),
{
    Fr::from(x)
}

/// Calls `curdleproofs::util::msm`, which panics where the two lengths
/// differ. Trusted: the result is the multi-scalar product of the points,
/// taken as group elements, with the scalars.
#[verifier::external_body]
pub(crate) fn msm(points: &Vec<Point>, scalars: &Vec<Fr>) -> (r: Point)
    requires
        points.len() == scalars.len(),
    ensures
        point_encoding(r) == msm_encoding(encodings(points@), scalars@),
{
    let bases: Vec<G1Affine> = points.iter().map(|p| p.inner.into_affine()).collect();
    Point { inner: curdleproofs::util::msm(&bases, scalars) }
}

/// Adds two points with the curve library's `+`. Trusted: the result is
/// the sum of the two, taken as group elements.
#[verifier::external_body]
pub(crate) fn point_add(left: &Point, right: &Point) -> (r: Point)
    ensures
        point_encoding(r) == sum_encoding(point_encoding(*left), point_encoding(*right)),
{
    Point { inner: left.inner + right.inner }
}

/// Adds the points up with the curve library's `Sum`. Trusted: the result
/// is the sum of the points, taken as group elements.
#[verifier::external_body]
pub(crate) fn point_total(points: &Vec<Point>) -> (r: Point)
    ensures
        point_encoding(r) == total_encoding(encodings(points@)),
{
    let total: G1Affine = points.iter().map(|p| p.inner.into_affine()).sum();
    Point { inner: total.into_projective() }
}

/// Casts each integer to a field element.
pub fn scalars_from_u32(values: &[u32]) -> (r: Vec<Fr>)
    ensures
        r@ == scalars_of(values@),
{
    let mut out: Vec<Fr> = Vec::new();
    let mut i: usize = 0;
    while i < values.len()
        invariant
            i <= values.len(),
            out@ == scalars_of(values@.take(i as int)),
        decreases values.len() - i,
    {
        out.push(scalar_from_u32(values[i]));
        proof {
            assert(values@.take(i + 1) == values@.take(i as int).push(values@[i as int]));
        }
        i += 1;
    }
    proof {
        assert(values@.take(values@.len() as int) == values@);
    }
    out
}

} // verus!
