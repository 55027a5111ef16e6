//! SHA-256 as the ledger uses it: one digest function and the two-to-one
//! compression built from it.

use ark_crypto_primitives::crh::sha256::Sha256;
use ark_crypto_primitives::crh::{CRHScheme, TwoToOneCRHScheme};
use crate::framing::{frame_slice, framed};
use vstd::prelude::*;

verus! {

/// The SHA-256 digest of a byte string.
pub uninterp spec fn sha256(data: Seq<u8>) -> Seq<u8>;

/// Number of bytes in a digest.
pub const DIGEST_LEN: usize = 32;

/// Calls `<Sha256 as CRHScheme>::evaluate` of `ark-crypto-primitives`,
/// which returns the SHA-256 digest of its input and never fails. The
/// contract names that digest and records that it is 32 bytes long.
#[verifier::external_body]
pub(crate) fn sha256_evaluate(input: &[u8]) -> (out: Vec<u8>)
    ensures
        out@ == sha256(input@),
        out@.len() == DIGEST_LEN,
{
    <Sha256 as CRHScheme>::evaluate(&(), input).unwrap()
}

/// Calls `<Sha256 as TwoToOneCRHScheme>::compress` of
/// `ark-crypto-primitives`, which feeds the left input and then the right
/// input to one SHA-256 state and never fails. The contract says that the
/// result is the digest of the concatenation, 32 bytes long.
#[verifier::external_body]
pub(crate) fn sha256_compress(left: &Vec<u8>, right: &Vec<u8>) -> (out: Vec<u8>)
    ensures
        out@ == sha256(left@ + right@),
        out@.len() == DIGEST_LEN,
{
    <Sha256 as TwoToOneCRHScheme>::compress(&(), left, right).unwrap()
}

/// The SHA-256 digest of `data`.
pub fn digest(data: &[u8]) -> (out: Vec<u8>)
    ensures
        out@ == sha256(data@),
        out@.len() == DIGEST_LEN,
{
    sha256_evaluate(data)
}

/// The leaf digest of a byte string: the digest of its framed form.
pub fn compute_leaf_hash(leaf: &[u8]) -> (out: Vec<u8>)
    ensures
        out@ == sha256(framed(leaf@)),
        out@.len() == DIGEST_LEN,
{
    let serialized_leaf = frame_slice(leaf);
    sha256_evaluate(serialized_leaf.as_slice())
}

} // verus!
