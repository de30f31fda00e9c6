//! Blinded vector commitments over the reference string.

use crate::curve::{msm, msm_encoding, point_add, scalars_from_u32, scalars_of, sum_encoding, Point};
use crate::setup::{SetupParameters, SetupView};
use ark_bls12_381::Fr;
use vstd::prelude::*;

verus! {

/// The commitment to `values` under `blinders`: the multi-scalar product of
/// the commitment generators with the values, cast to field elements, plus
/// that of the blinding generators with the blinders.
pub open spec fn commitment_of(crs: SetupView, values: Seq<u32>, blinders: Seq<Fr>) -> Seq<u8> {
    sum_encoding(msm_encoding(crs.g, scalars_of(values)), msm_encoding(crs.h, blinders))
}

/// Commits to `values`, one for each commitment generator, under
/// `blinders`, one for each blinding generator.
pub fn commit(crs: &SetupParameters, values: &[u32], blinders: &Vec<Fr>) -> (c: Point)
    requires
        values@.len() == crs.crs_g_vec@.len(),
        blinders@.len() == crs.crs_h_vec@.len(),
    ensures
        c@ == commitment_of(crs@, values@, blinders@),
{
    let scalars = scalars_from_u32(values);
    let bound = msm(&crs.crs_g_vec, &scalars);
    let blinding = msm(&crs.crs_h_vec, blinders);
    point_add(&bound, &blinding)
}

} // verus!
