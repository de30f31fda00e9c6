//! The seeded pseudorandom generator that the reference string and the
//! blinders are drawn from. The generator is a value handed from call to
//! call: what is drawn depends on its state alone.

use crate::curve::{point_encoding, Point};
use ark_bls12_381::{Fr, G1Projective};
use ark_ec::{AffineCurve, ProjectiveCurve};
use ark_std::rand::rngs::StdRng;
use ark_std::rand::SeedableRng;
use ark_std::UniformRand;
use vstd::prelude::*;

verus! {

/// The standard generator of the `rand` crate. Its stream is a function of
/// the seed in the release of `rand` that the library is built with.
#[verifier::external_type_specification]
#[verifier::external_body]
pub struct ExStdRng(StdRng);

/// The generator that `StdRng::seed_from_u64` makes of a seed.
pub uninterp spec fn rng_of_seed(seed: u64) -> StdRng;

/// The encoding of the point that `G1Projective::rand` draws from a
/// generator in the given state, and the state it leaves the generator in.
pub uninterp spec fn point_draw(rng: StdRng) -> (Seq<u8>, StdRng);

/// The field elements that `curdleproofs::util::generate_blinders` draws
/// from a generator in the given state, and the state it leaves the
/// generator in.
pub uninterp spec fn blinders_draw(rng: StdRng, count: nat) -> (Seq<Fr>, StdRng);

/// Calls `StdRng::seed_from_u64`. Trusted: the generator is a function of
/// the seed.
#[verifier::external_body]
pub(crate) fn seeded_rng(seed: u64) -> (rng: StdRng)
    ensures
        rng == rng_of_seed(seed),
{
    StdRng::seed_from_u64(seed)
}

/// Calls `G1Projective::rand` and brings the point into normal form.
/// Trusted: the point drawn and the generator's next state are functions of
/// the generator's state.
#[verifier::external_body]
pub(crate) fn draw_point(rng: &mut StdRng) -> (p: Point)
    ensures
        point_encoding(p) == point_draw(*old(rng)).0,
        *final(rng) == point_draw(*old(rng)).1,
{
    Point { inner: G1Projective::rand(rng).into_affine().into_projective() }
}

/// Calls `curdleproofs::util::generate_blinders`. Trusted: it draws `count`
/// field elements, and they and the generator's next state are functions of
/// the generator's state and of `count`.
#[verifier::external_body]
pub(crate) fn draw_blinders(rng: &mut StdRng, count: usize) -> (blinders: Vec<Fr>)
    ensures
        blinders@ == blinders_draw(*old(rng), count as nat).0,
        *final(rng) == blinders_draw(*old(rng), count as nat).1,
        blinders@.len() == count,
{
    curdleproofs::util::generate_blinders(rng, count)
}

} // verus!
