//! Points of the inner curve, as the pair of their serialized
//! coordinates.

use ark_bls12_377::{Fq, G1Affine};
use ark_serialize::{CanonicalDeserialize, Valid};
use vstd::prelude::*;

verus! {

/// Whether `x` and `y` are the serialized coordinates of a point of the
/// prime-order group of BLS12-377.
pub uninterp spec fn inner_curve_point(x: Seq<u8>, y: Seq<u8>) -> bool;

/// Reads both coordinates with `ark-serialize` and calls `Valid::check`
/// of `ark-ec` on the point they form, which tells whether the point is
/// on the curve and in the prime-order subgroup. A coordinate that does
/// not deserialize makes no point. The contract names the answer.
#[verifier::external_body]
pub(crate) fn g1_check(x: &Vec<u8>, y: &Vec<u8>) -> (valid: bool)
    ensures
        valid == inner_curve_point(x@, y@),
{
    match (Fq::deserialize_compressed(x.as_slice()), Fq::deserialize_compressed(y.as_slice())) {
        (Ok(x), Ok(y)) => G1Affine::new_unchecked(x, y).check().is_ok(),
        _ => false,
    }
}

} // verus!
