//! Which byte strings are the serialized form of a value of the proof
//! system.

use ark_bls12_377::{Fr as InnerFr, G1Affine};
use ark_bw6_761::{Fr as OuterFr, BW6_761};
use ark_groth16::Proof;
use ark_serialize::CanonicalDeserialize;
use vstd::prelude::*;

verus! {

/// Whether `bytes` begins with the serialized form of an element of the
/// scalar field of BLS12-377.
pub uninterp spec fn inner_scalar_encoding(bytes: Seq<u8>) -> bool;

/// Whether `bytes` begins with the serialized form of an element of the
/// scalar field of BW6-761.
pub uninterp spec fn outer_scalar_encoding(bytes: Seq<u8>) -> bool;

/// Whether `bytes` begins with the compressed form of a point of the
/// prime-order group of BLS12-377.
pub uninterp spec fn inner_point_encoding(bytes: Seq<u8>) -> bool;

/// Whether `bytes` begins with the compressed form of a Groth16 proof
/// over BW6-761.
pub uninterp spec fn outer_proof_encoding(bytes: Seq<u8>) -> bool;

/// Calls `CanonicalDeserialize::deserialize_compressed` of
/// `ark-serialize` for the scalar field of BLS12-377 and tells whether it
/// succeeds. The contract names the answer.
#[verifier::external_body]
pub(crate) fn inner_scalar_check(bytes: &Vec<u8>) -> (valid: bool)
    ensures
        valid == inner_scalar_encoding(bytes@),
{
    InnerFr::deserialize_compressed(bytes.as_slice()).is_ok()
}

/// Calls `CanonicalDeserialize::deserialize_compressed` of
/// `ark-serialize` for the scalar field of BW6-761 and tells whether it
/// succeeds. The contract names the answer.
#[verifier::external_body]
pub(crate) fn outer_scalar_check(bytes: &Vec<u8>) -> (valid: bool)
    ensures
        valid == outer_scalar_encoding(bytes@),
{
    OuterFr::deserialize_compressed(bytes.as_slice()).is_ok()
}

/// Calls `CanonicalDeserialize::deserialize_compressed` of
/// `ark-serialize` for an affine point of BLS12-377, which also checks
/// that the point is on the curve and in the prime-order subgroup, and
/// tells whether it succeeds. The contract names the answer.
#[verifier::external_body]
pub(crate) fn inner_point_check(bytes: &Vec<u8>) -> (valid: bool)
    ensures
        valid == inner_point_encoding(bytes@),
{
    G1Affine::deserialize_compressed(bytes.as_slice()).is_ok()
}

/// Calls `CanonicalDeserialize::deserialize_compressed` of
/// `ark-serialize` for a Groth16 proof over BW6-761 and tells whether it
/// succeeds. The contract names the answer.
#[verifier::external_body]
pub(crate) fn outer_proof_check(bytes: &Vec<u8>) -> (valid: bool)
    ensures
        valid == outer_proof_encoding(bytes@),
{
    Proof::<BW6_761>::deserialize_compressed(bytes.as_slice()).is_ok()
}

/// What a byte string of an envelope is meant to be.
#[derive(Clone, Copy, Debug, PartialEq, Eq, Structural)]
pub enum Shape {
    /// Any bytes: a digest.
    Digest,
    /// An element of the scalar field of BLS12-377.
    InnerScalar,
    /// An element of the scalar field of BW6-761.
    OuterScalar,
    /// A point of the prime-order group of BLS12-377, compressed.
    InnerPoint,
    /// A Groth16 proof over BW6-761, compressed.
    OuterProof,
}

/// Whether `bytes` is what `shape` says.
pub open spec fn well_encoded(bytes: Seq<u8>, shape: Shape) -> bool {
    match shape {
        Shape::Digest => true,
        Shape::InnerScalar => inner_scalar_encoding(bytes),
        Shape::OuterScalar => outer_scalar_encoding(bytes),
        Shape::InnerPoint => inner_point_encoding(bytes),
        Shape::OuterProof => outer_proof_encoding(bytes),
    }
}

/// Whether each byte string of a list is what `shape` says.
pub open spec fn each_well_encoded(items: Seq<Seq<u8>>, shape: Shape) -> bool {
    forall|i: int| 0 <= i < items.len() ==> well_encoded(#[trigger] items[i], shape)
}

/// Whether `bytes` is what `shape` says.
pub fn check_encoding(bytes: &Vec<u8>, shape: Shape) -> (valid: bool)
    ensures
        valid == well_encoded(bytes@, shape),
{
    match shape {
        Shape::Digest => true,
        Shape::InnerScalar => inner_scalar_check(bytes),
        Shape::OuterScalar => outer_scalar_check(bytes),
        Shape::InnerPoint => inner_point_check(bytes),
        Shape::OuterProof => outer_proof_check(bytes),
    }
}

/// Whether each byte string of `items` is what `shape` says.
pub fn check_each_encoding(items: &Vec<Vec<u8>>, shape: Shape) -> (valid: bool)
    ensures
        valid == each_well_encoded(Seq::new(items@.len(), |i: int| items@[i]@), shape),
{
    let ghost views = Seq::new(items@.len(), |i: int| items@[i]@);
    let mut i: usize = 0;
    while i < items.len()
        invariant
            i <= items@.len(),
            views == Seq::new(items@.len(), |i: int| items@[i]@),
            forall|k: int| 0 <= k < i ==> well_encoded(#[trigger] views[k], shape),
        decreases items@.len() - i,
    {
        if !check_encoding(&items[i], shape) {
            proof {
                assert(!well_encoded(views[i as int], shape));
            }
            return false;
        }
        i += 1;
    }
    true
}

} // verus!
