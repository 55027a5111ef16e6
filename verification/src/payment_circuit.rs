//! The payment statement: an unspent note in the tree at a given root is
//! spent under a given nullifier into an output note with a given
//! commitment.

use crate::bytes::copy_bytes;
use crate::protocol::PaymentGrothPublicInput;
use crate::utils::{bits_of, bytes_to_field, field_of_bits, MAX_FIELD_BYTES};
use crate::wire::blobs;
use vstd::prelude::*;

verus! {

/// Positions of the public inputs of the payment proof.
pub type GrothPublicInput = PaymentGrothPublicInput;

/// The public inputs of the payment statement: the root, the nullifier
/// as a field element, then the output commitment.
pub open spec fn statement(
    root_x: Seq<u8>,
    root_y: Seq<u8>,
    nullifier: Seq<u8>,
    commitment_x: Seq<u8>,
    commitment_y: Seq<u8>,
) -> Seq<Seq<u8>> {
    seq![root_x, root_y, field_of_bits(bits_of(nullifier)), commitment_x, commitment_y]
}

/// Arranges the public inputs of the payment proof. `nullifier` is the
/// output of the pseudo-random function, as bytes.
pub fn public_inputs(
    root_x: &Vec<u8>,
    root_y: &Vec<u8>,
    nullifier: &Vec<u8>,
    commitment_x: &Vec<u8>,
    commitment_y: &Vec<u8>,
) -> (inputs: Vec<Vec<u8>>)
    requires
        nullifier@.len() <= MAX_FIELD_BYTES,
    ensures
        blobs(&inputs) == statement(
            root_x@,
            root_y@,
            nullifier@,
            commitment_x@,
            commitment_y@,
        ),
{
    let mut inputs: Vec<Vec<u8>> = Vec::new();
    inputs.push(copy_bytes(root_x));
    inputs.push(copy_bytes(root_y));
    inputs.push(bytes_to_field(nullifier.as_slice()));
    inputs.push(copy_bytes(commitment_x));
    inputs.push(copy_bytes(commitment_y));
    assert(blobs(&inputs) =~= statement(
        root_x@,
        root_y@,
        nullifier@,
        commitment_x@,
        commitment_y@,
    ));
    inputs
}

} // verus!
