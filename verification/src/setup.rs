//! The common reference string: the generators that prover and verifier both
//! derive from a size and a seed.

use crate::curve::{encodings, point_total, total_encoding, Point};
use crate::randomness::{draw_point, point_draw, rng_of_seed, seeded_rng};
use crate::N_BLINDERS;
use ark_std::rand::rngs::StdRng;
use vstd::prelude::*;

verus! {

/// The reference string for ballots of `crs_g_vec.len()` candidates.
pub struct SetupParameters {
    /// One commitment generator for each candidate.
    pub crs_g_vec: Vec<Point>,
    /// The `N_BLINDERS` blinding generators.
    pub crs_h_vec: Vec<Point>,
    /// The auxiliary generator.
    pub crs_u: Point,
    /// The sum of the commitment generators.
    pub crs_g_sum: Point,
    /// The sum of the blinding generators.
    pub crs_h_sum: Point,
}

/// A reference string as its points' encodings.
pub struct SetupView {
    pub g: Seq<Seq<u8>>,
    pub h: Seq<Seq<u8>>,
    pub u: Seq<u8>,
    pub g_sum: Seq<u8>,
    pub h_sum: Seq<u8>,
}

impl View for SetupParameters {
    type V = SetupView;

    open spec fn view(&self) -> SetupView {
        SetupView {
            g: encodings(self.crs_g_vec@),
            h: encodings(self.crs_h_vec@),
            u: self.crs_u@,
            g_sum: self.crs_g_sum@,
            h_sum: self.crs_h_sum@,
        }
    }
}

impl SetupView {
    /// There are `N_BLINDERS` blinding generators, and the two sums are
    /// those of the two generator sequences.
    pub open spec fn wf(self) -> bool {
        &&& self.h.len() == N_BLINDERS
        &&& self.g_sum == total_encoding(self.g)
        &&& self.h_sum == total_encoding(self.h)
    }
}

/// The first `count` points drawn from a generator in state `rng`, and the
/// state after them.
pub open spec fn drawn_points(rng: StdRng, count: nat) -> (Seq<Seq<u8>>, StdRng)
    decreases count,
{
    if count == 0 {
        (Seq::empty(), rng)
    } else {
        let (front, mid) = drawn_points(rng, (count - 1) as nat);
        (front.push(point_draw(mid).0), point_draw(mid).1)
    }
}

/// The reference string of circuit size `n` under `seed`: from one
/// generator, seeded with `seed`, come first the `n - N_BLINDERS` commitment
/// generators, then the `N_BLINDERS` blinding generators, then the
/// auxiliary generator.
pub open spec fn crs_of(n: nat, seed: u64) -> SetupView {
    let commitment = drawn_points(rng_of_seed(seed), (n - N_BLINDERS) as nat);
    let blinding = drawn_points(commitment.1, N_BLINDERS as nat);
    SetupView {
        g: commitment.0,
        h: blinding.0,
        u: point_draw(blinding.1).0,
        g_sum: total_encoding(commitment.0),
        h_sum: total_encoding(blinding.0),
    }
}

/// `drawn_points` yields as many points as asked for.
pub proof fn lemma_drawn_points_len(rng: StdRng, count: nat)
    ensures
        drawn_points(rng, count).0.len() == count,
    decreases count,
{
    if count > 0 {
        lemma_drawn_points_len(rng, (count - 1) as nat);
    }
}

/// The reference string of a circuit size that leaves room for the blinders
/// is well formed and has one commitment generator per candidate.
pub proof fn lemma_crs_shape(n: nat, seed: u64)
    requires
        n >= N_BLINDERS,
    ensures
        crs_of(n, seed).wf(),
        crs_of(n, seed).g.len() == n - N_BLINDERS,
{
    lemma_drawn_points_len(rng_of_seed(seed), (n - N_BLINDERS) as nat);
    lemma_drawn_points_len(
        drawn_points(rng_of_seed(seed), (n - N_BLINDERS) as nat).1,
        N_BLINDERS as nat,
    );
}

/// Draws `count` points from the generator, in order.
fn draw_points(rng: &mut StdRng, count: usize) -> (points: Vec<Point>)
    ensures
        encodings(points@) == drawn_points(*old(rng), count as nat).0,
        *final(rng) == drawn_points(*old(rng), count as nat).1,
        points@.len() == count,
{
    let ghost start = *rng;
    let mut points: Vec<Point> = Vec::new();
    let mut i: usize = 0;
    while i < count
        invariant
            i <= count,
            points@.len() == i,
            encodings(points@) == drawn_points(start, i as nat).0,
            *rng == drawn_points(start, i as nat).1,
        decreases count - i,
    {
        let ghost before = points@;
        let p = draw_point(rng);
        points.push(p);
        proof {
            assert(encodings(points@) == encodings(before).push(p@));
        }
        i += 1;
    }
    points
}

/// Builds the reference string of circuit size `n`, the number of
/// candidates plus `N_BLINDERS`, under `seed`. The same size and seed give
/// the same reference string.
pub fn setup(n: usize, seed: u64) -> (crs: SetupParameters)
    requires
        n >= N_BLINDERS,
    ensures
        crs@ == crs_of(n as nat, seed),
        crs@.wf(),
        crs.crs_g_vec@.len() == n - N_BLINDERS,
{
    let mut rng = seeded_rng(seed);
    let crs_g_vec = draw_points(&mut rng, n - N_BLINDERS);
    let crs_h_vec = draw_points(&mut rng, N_BLINDERS);
    let crs_u = draw_point(&mut rng);
    let crs_g_sum = point_total(&crs_g_vec);
    let crs_h_sum = point_total(&crs_h_vec);
    SetupParameters { crs_g_vec, crs_h_vec, crs_u, crs_g_sum, crs_h_sum }
}

} // verus!
