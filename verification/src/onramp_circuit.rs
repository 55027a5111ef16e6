//! The on-ramp statement: a note with a given commitment holds a declared
//! asset and amount.

use crate::bytes::{copy_bytes, same_bytes};
use crate::note::{Note, AMOUNT, ASSET_ID};
use crate::protocol::OnrampGrothPublicInput;
use crate::utils::{bits_of, bytes_to_field, field_of_bits, lemma_field_tells_bytes};
use crate::wire::blobs;
use vstd::prelude::*;

verus! {

/// Positions of the public inputs of the on-ramp proof.
pub type GrothPublicInput = OnrampGrothPublicInput;

/// The public inputs of the on-ramp statement for `utxo`, whose
/// commitment has the coordinates `x` and `y`: the asset and the amount as
/// field elements, then the commitment.
pub open spec fn statement(utxo: &Note, x: Seq<u8>, y: Seq<u8>) -> Seq<Seq<u8>> {
    seq![
        field_of_bits(bits_of(utxo.fields()[ASSET_ID as int])),
        field_of_bits(bits_of(utxo.fields()[AMOUNT as int])),
        x,
        y,
    ]
}

/// Whether public inputs declare the asset and the amount of `utxo`.
pub open spec fn declares(public_inputs: Seq<Seq<u8>>, utxo: &Note) -> bool {
    &&& public_inputs.len() == OnrampGrothPublicInput::COUNT
    &&& public_inputs[0] == field_of_bits(bits_of(utxo.fields()[ASSET_ID as int]))
    &&& public_inputs[1] == field_of_bits(bits_of(utxo.fields()[AMOUNT as int]))
}

/// Public inputs declare the asset and the amount of one kind of note
/// only: two notes that the same inputs declare hold the same asset and
/// the same amount.
pub proof fn lemma_declared_asset_is_told(public_inputs: Seq<Seq<u8>>, first: &Note, second: &Note)
    requires
        first.wf(),
        second.wf(),
        declares(public_inputs, first),
        declares(public_inputs, second),
    ensures
        first.fields()[ASSET_ID as int] == second.fields()[ASSET_ID as int],
        first.fields()[AMOUNT as int] == second.fields()[AMOUNT as int],
{
    first.lemma_wf();
    second.lemma_wf();
    lemma_field_tells_bytes(first.fields()[ASSET_ID as int], second.fields()[ASSET_ID as int]);
    lemma_field_tells_bytes(first.fields()[AMOUNT as int], second.fields()[AMOUNT as int]);
}

/// Arranges the public inputs of the on-ramp proof for `utxo`.
pub fn public_inputs(
    utxo: &Note,
    commitment_x: &Vec<u8>,
    commitment_y: &Vec<u8>,
) -> (inputs: Vec<Vec<u8>>)
    requires
        utxo.wf(),
    ensures
        blobs(&inputs) == statement(utxo, commitment_x@, commitment_y@),
        declares(blobs(&inputs), utxo),
{
    // construct a field element from the asset_id bits
    let asset_id = bytes_to_field(utxo.field(ASSET_ID).as_slice());
    // construct a field element from the amount bits
    let amount = bytes_to_field(utxo.field(AMOUNT).as_slice());
    let mut inputs: Vec<Vec<u8>> = Vec::new();
    inputs.push(asset_id);
    inputs.push(amount);
    inputs.push(copy_bytes(commitment_x));
    inputs.push(copy_bytes(commitment_y));
    assert(blobs(&inputs) =~= statement(utxo, commitment_x@, commitment_y@));
    inputs
}

/// Whether `public_inputs` declare the asset and the amount of `utxo`.
pub fn declares_note(public_inputs: &Vec<Vec<u8>>, utxo: &Note) -> (matching: bool)
    requires
        utxo.wf(),
    ensures
        matching == declares(blobs(public_inputs), utxo),
{
    if public_inputs.len() != OnrampGrothPublicInput::COUNT {
        return false;
    }
    let asset_id = bytes_to_field(utxo.field(ASSET_ID).as_slice());
    let amount = bytes_to_field(utxo.field(AMOUNT).as_slice());
    same_bytes(&public_inputs[OnrampGrothPublicInput::ASSET_ID.index()], &asset_id) && same_bytes(
        &public_inputs[OnrampGrothPublicInput::AMOUNT.index()],
        &amount,
    )
}

} // verus!
