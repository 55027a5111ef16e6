//! Groth16 verification over BW6-761, on serialized keys, inputs and
//! proofs.

use crate::protocol::{groth_proof_from_bs58, groth_readable, GrothProofBs58};
use crate::encoding::Shape;
use crate::wire::{blobs, read_bytes, read_bytes_of_each, texts, Layout};
use ark_bls12_377::{Bls12_377, Fr as InnerFr};
use ark_bw6_761::{Fr, BW6_761};
use ark_groth16::{Groth16, Proof, VerifyingKey};
use ark_serialize::CanonicalDeserialize;
use ark_snark::SNARK;
use vstd::prelude::*;

verus! {

/// What the Groth16 verifier answers for a verifying key, a list of
/// public inputs and a proof, each in its serialized form: whether the
/// proof is valid, or `None` if a part does not deserialize or the number
/// of public inputs is not the one the key was made for.
pub uninterp spec fn groth16_verdict(
    vk: Seq<u8>,
    public_inputs: Seq<Seq<u8>>,
    proof: Seq<u8>,
) -> Option<bool>;

/// Calls `Groth16::<BW6_761>::verify` of `ark-groth16` on the key
/// (uncompressed), the public inputs and the proof (compressed), each read
/// with `ark-serialize`. The verifier returns an error, not a panic, when
/// the number of inputs does not fit the key. The contract names the
/// answer.
#[verifier::external_body]
pub(crate) fn groth16_verify(
    vk: &Vec<u8>,
    public_inputs: &Vec<Vec<u8>>,
    proof: &Vec<u8>,
) -> (verdict: Option<bool>)
    ensures
        verdict == groth16_verdict(vk@, blobs(public_inputs), proof@),
{
    let vk = VerifyingKey::<BW6_761>::deserialize_uncompressed(vk.as_slice()).ok()?;
    let proof = Proof::<BW6_761>::deserialize_compressed(proof.as_slice()).ok()?;
    let mut inputs: Vec<Fr> = Vec::with_capacity(public_inputs.len());
    for bytes in public_inputs.iter() {
        inputs.push(Fr::deserialize_compressed(bytes.as_slice()).ok()?);
    }
    Groth16::<BW6_761>::verify(&vk, &inputs, &proof).ok()
}

/// What the Groth16 verifier over BLS12-377 answers for a verifying key,
/// a list of public inputs and a proof, each in its serialized form:
/// whether the proof is valid, or `None` if a part does not deserialize
/// or the number of public inputs is not the one the key was made for.
pub uninterp spec fn groth16_verdict_inner(
    vk: Seq<u8>,
    public_inputs: Seq<Seq<u8>>,
    proof: Seq<u8>,
) -> Option<bool>;

/// Calls `Groth16::<Bls12_377>::verify` of `ark-groth16` on the key
/// (uncompressed), the public inputs and the proof (compressed), each read
/// with `ark-serialize`. The contract names the answer.
#[verifier::external_body]
pub(crate) fn groth16_verify_inner(
    vk: &Vec<u8>,
    public_inputs: &Vec<Vec<u8>>,
    proof: &Vec<u8>,
) -> (verdict: Option<bool>)
    ensures
        verdict == groth16_verdict_inner(vk@, blobs(public_inputs), proof@),
{
    let vk = VerifyingKey::<Bls12_377>::deserialize_uncompressed(vk.as_slice()).ok()?;
    let proof = Proof::<Bls12_377>::deserialize_compressed(proof.as_slice()).ok()?;
    let mut inputs: Vec<InnerFr> = Vec::with_capacity(public_inputs.len());
    for bytes in public_inputs.iter() {
        inputs.push(InnerFr::deserialize_compressed(bytes.as_slice()).ok()?);
    }
    Groth16::<Bls12_377>::verify(&vk, &inputs, &proof).ok()
}

/// Why a submission was turned down.
#[derive(Clone, Copy, Debug, PartialEq, Eq, Structural)]
pub enum Rejection {
    /// A string is not base58, a value does not deserialize, or the
    /// number of public inputs is wrong.
    MalformedInput,
    /// The proof does not verify.
    InvalidProof,
    /// The root that a payment was proved against is not a recent one.
    UnknownRoot,
    /// A Merkle update does not start from the latest root.
    RootChainMismatch,
    /// The tree has no room for another note.
    TreeFull,
    /// A leaf index lies outside the tree.
    LeafOutOfRange,
}

/// How a proof with its public inputs fares against a key: accepted, or
/// the reason why not.
pub open spec fn proof_check(
    vk: Seq<u8>,
    public_inputs: Seq<Seq<u8>>,
    proof: Seq<u8>,
) -> Result<(), Rejection> {
    match groth16_verdict(vk, public_inputs, proof) {
        Some(true) => Ok(()),
        Some(false) => Err(Rejection::InvalidProof),
        None => Err(Rejection::MalformedInput),
    }
}

/// What a verdict of the verifier means for a submission.
pub open spec fn verdict_outcome(verdict: Option<bool>) -> Result<(), Rejection> {
    match verdict {
        Some(true) => Ok(()),
        Some(false) => Err(Rejection::InvalidProof),
        None => Err(Rejection::MalformedInput),
    }
}

/// Turns a verdict of the verifier into an outcome.
pub fn judge(verdict: Option<bool>) -> (outcome: Result<(), Rejection>)
    ensures
        outcome == verdict_outcome(verdict),
{
    match verdict {
        Some(true) => Ok(()),
        Some(false) => Err(Rejection::InvalidProof),
        None => Err(Rejection::MalformedInput),
    }
}

/// Verifies `proof` with `public_inputs` against the verifying key `vk`.
pub fn verify(
    vk: &Vec<u8>,
    public_inputs: &Vec<Vec<u8>>,
    proof: &Vec<u8>,
) -> (outcome: Result<(), Rejection>)
    ensures
        outcome == proof_check(vk@, blobs(public_inputs), proof@),
{
    judge(groth16_verify(vk, public_inputs, proof))
}

/// The verdict on an envelope: `None` if it is not readable or what it
/// carries is no proof with field elements, else what
/// the verifier answers for what it carries.
pub open spec fn envelope_verdict(vk: Seq<u8>, envelope: &GrothProofBs58) -> Option<bool> {
    if groth_readable(envelope) {
        groth16_verdict(
            vk,
            read_bytes_of_each(
                texts(&envelope.public_inputs),
                Layout::Bare,
                Shape::OuterScalar,
            ).unwrap(),
            read_bytes(envelope.proof@, Layout::Bare, Shape::OuterProof).unwrap(),
        )
    } else {
        None
    }
}

/// Decodes an envelope and verifies what it carries against `vk`.
pub fn verify_envelope(vk: &Vec<u8>, envelope: &GrothProofBs58) -> (verdict: Option<bool>)
    ensures
        verdict == envelope_verdict(vk@, envelope),
{
    match groth_proof_from_bs58(envelope) {
        Some(pair) => groth16_verify(vk, &pair.1, &pair.0),
        None => None,
    }
}

} // verus!
