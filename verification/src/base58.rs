//! Base58 text for byte strings.

use vstd::prelude::*;

verus! {

/// The base58 text of a byte string (Bitcoin alphabet).
pub uninterp spec fn base58_text(bytes: Seq<u8>) -> Seq<char>;

/// The byte string that a base58 text stands for, if it is base58 at all.
pub uninterp spec fn base58_bytes(text: Seq<char>) -> Option<Seq<u8>>;

/// Calls `bs58::encode(..).into_string()`, which cannot fail. The
/// contract names the text and records what the crate's documentation
/// shows of it: decoding the text gives the bytes back.
#[verifier::external_body]
pub(crate) fn bs58_encode(bytes: &Vec<u8>) -> (text: String)
    ensures
        text@ == base58_text(bytes@),
        base58_bytes(text@) == Some(bytes@),
{
    bs58::encode(bytes).into_string()
}

/// Calls `bs58::decode(..).into_vec()`, which fails on a character
/// outside the alphabet. The contract names the decoded bytes.
#[verifier::external_body]
pub(crate) fn bs58_decode(text: &String) -> (bytes: Option<Vec<u8>>)
    ensures
        match bytes {
            Some(decoded) => base58_bytes(text@) == Some(decoded@),
            None => base58_bytes(text@) is None,
        },
{
    bs58::decode(text).into_vec().ok()
}

} // verus!
