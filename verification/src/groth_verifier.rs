//! The on-chain proof verifier: a contract that is bound to one verifying
//! key by the key's digest and checks Groth16 proofs over BLS12-377
//! against it.

use crate::bytes::same_bytes;
use crate::groth16::{groth16_verdict_inner, groth16_verify_inner};
use crate::hash::{sha256, sha256_evaluate};
use crate::wire::blobs;
use vstd::prelude::*;

verus! {

/// The verdict that counts for a verifier bound to `vk_hash`: the
/// verdict of the proof system if the key shown is the one the verifier
/// is bound to, none otherwise.
pub open spec fn bound_verdict(vk_hash: Seq<u8>, key: Seq<u8>, verdict: Option<bool>) -> Option<
    bool,
> {
    if sha256(key) == vk_hash {
        verdict
    } else {
        None
    }
}

/// Whether a proof is accepted by a verifier bound to `vk_hash`, given
/// the verdict of the proof system: the key shown must be the one the
/// verifier is bound to, and the verdict must be favourable.
pub open spec fn accepts(vk_hash: Seq<u8>, key: Seq<u8>, verdict: Option<bool>) -> bool {
    bound_verdict(vk_hash, key, verdict) == Some(true)
}

/// Whether `key` is the key with digest `vk_hash`.
pub fn is_bound_key(vk_hash: &Vec<u8>, key: &Vec<u8>) -> (bound: bool)
    ensures
        bound == (sha256(key@) == vk_hash@),
{
    let shown = sha256_evaluate(key.as_slice());
    same_bytes(&shown, vk_hash)
}

/// Narrows a verdict of the proof system to the key with digest
/// `vk_hash`.
pub fn bind_verdict(vk_hash: &Vec<u8>, key: &Vec<u8>, verdict: Option<bool>) -> (bound: Option<
    bool,
>)
    ensures
        bound == bound_verdict(vk_hash@, key@, verdict),
{
    if is_bound_key(vk_hash, key) {
        verdict
    } else {
        None
    }
}

/// Checks `proof` for the public inputs `image` against `key`, which
/// must be the key with digest `vk_hash`.
pub fn bound_verify(
    vk_hash: &Vec<u8>,
    key: &Vec<u8>,
    proof: &Vec<u8>,
    image: &Vec<Vec<u8>>,
) -> (verdict: Option<bool>)
    ensures
        verdict == bound_verdict(
            vk_hash@,
            key@,
            groth16_verdict_inner(key@, blobs(image), proof@),
        ),
{
    let verdict = groth16_verify_inner(key, image, proof);
    bind_verdict(vk_hash, key, verdict)
}

/// The verifier contract's state: the digest of the verifying key, once
/// it is set.
pub struct SanctumVerifier {
    vk_hash: Option<Vec<u8>>,
}

impl SanctumVerifier {
    /// The digest of the verifying key, if it is set.
    pub closed spec fn vk_hash(&self) -> Option<Seq<u8>> {
        match self.vk_hash {
            Some(hash) => Some(hash@),
            None => None,
        }
    }

    /// A verifier that is not bound to a key yet.
    pub fn new() -> (contract: Self)
        ensures
            contract.vk_hash() is None,
    {
        SanctumVerifier { vk_hash: None }
    }

    /// Binds the verifier to the key with digest `vk_hash`.
    pub fn init(&mut self, vk_hash: Vec<u8>)
        ensures
            final(self).vk_hash() == Some(vk_hash@),
    {
        self.vk_hash = Some(vk_hash);
    }

    /// Whether the verifier is bound to a key.
    pub fn is_bound(&self) -> (bound: bool)
        ensures
            bound == self.vk_hash() is Some,
    {
        self.vk_hash.is_some()
    }

    /// Decides on a proof given the verdict of the proof system on it.
    pub fn settle(&self, key: &Vec<u8>, verdict: Option<bool>) -> (accepted: bool)
        requires
            self.vk_hash() is Some,
        ensures
            accepted == accepts(self.vk_hash().unwrap(), key@, verdict),
    {
        match &self.vk_hash {
            Some(bound) => match bind_verdict(bound, key, verdict) {
                Some(valid) => valid,
                None => false,
            },
            None => false,
        }
    }

    /// Checks `proof` for the public inputs `image` against `key`, which
    /// must be the key the verifier is bound to.
    pub fn verify(&self, key: &Vec<u8>, proof: &Vec<u8>, image: &Vec<Vec<u8>>) -> (accepted: bool)
        requires
            self.vk_hash() is Some,
        ensures
            accepted == accepts(
                self.vk_hash().unwrap(),
                key@,
                groth16_verdict_inner(key@, blobs(image), proof@),
            ),
    {
        let verdict = groth16_verify_inner(key, image, proof);
        self.settle(key, verdict)
    }
}

} // verus!
