//! The note: five fields of 31 bytes each and a blinding of the same
//! size. Each field is the little-endian encoding of a scalar of the
//! inner curve.

use crate::bytes::{copy_bytes, same_bytes, zero_bytes};
use vstd::prelude::*;

verus! {

/// Per-note randomness, which hides the commitment.
pub const ENTROPY: usize = 0;

/// Public key of the note's owner.
pub const OWNER: usize = 1;

/// Tag of the asset the note holds.
pub const ASSET_ID: usize = 2;

/// Amount of the asset the note holds.
pub const AMOUNT: usize = 3;

/// Seed of the nullifier, unique for each note.
pub const RHO: usize = 4;

/// Number of fields of a note.
pub const NOTE_FIELDS: usize = 5;

/// Number of bytes of a field.
pub const FIELD_BYTES: usize = 31;

/// A note.
pub struct Note {
    fields: Vec<Vec<u8>>,
    blind: Vec<u8>,
}

/// A byte string of the size of a field whose first byte is `input` and
/// whose other bytes are zero: the little-endian encoding of `input`.
pub open spec fn small_scalar(input: u8) -> Seq<u8> {
    Seq::new(FIELD_BYTES as nat, |i: int| if i == 0 { input } else { 0u8 })
}

/// The little-endian encoding of `input` as a field.
pub fn create_array(input: u8) -> (arr: Vec<u8>)
    ensures
        arr@ == small_scalar(input),
{
    let mut arr = zero_bytes(FIELD_BYTES);
    arr.set(0, input);
    assert(arr@ =~= small_scalar(input));
    arr
}

impl Note {
    /// The fields of the note, in order.
    pub closed spec fn fields(&self) -> Seq<Seq<u8>> {
        Seq::new(self.fields@.len(), |i: int| self.fields@[i]@)
    }

    /// The blinding of the note's commitment.
    pub closed spec fn blind(&self) -> Seq<u8> {
        self.blind@
    }

    /// The note has five fields, and each field and the blinding are 31
    /// bytes long.
    pub closed spec fn wf(&self) -> bool {
        &&& self.fields@.len() == NOTE_FIELDS
        &&& forall|i: int|
            0 <= i < NOTE_FIELDS ==> (#[trigger] self.fields@[i])@.len() == FIELD_BYTES
        &&& self.blind@.len() == FIELD_BYTES
    }

    /// What `wf` says, over the fields.
    pub proof fn lemma_wf(&self)
        requires
            self.wf(),
        ensures
            self.fields().len() == NOTE_FIELDS,
            forall|i: int|
                0 <= i < NOTE_FIELDS ==> (#[trigger] self.fields()[i]).len() == FIELD_BYTES,
            self.blind().len() == FIELD_BYTES,
    {
    }

    /// A note with the given fields, or `None` if one of them or the
    /// blinding is not 31 bytes long.
    pub fn new(
        entropy: Vec<u8>,
        owner: Vec<u8>,
        asset_id: Vec<u8>,
        amount: Vec<u8>,
        rho: Vec<u8>,
        blind: Vec<u8>,
    ) -> (note: Option<Note>)
        ensures
            match note {
                Some(made) => {
                    &&& made.wf()
                    &&& made.fields() == seq![entropy@, owner@, asset_id@, amount@, rho@]
                    &&& made.blind() == blind@
                },
                None => {
                    ||| entropy@.len() != FIELD_BYTES
                    ||| owner@.len() != FIELD_BYTES
                    ||| asset_id@.len() != FIELD_BYTES
                    ||| amount@.len() != FIELD_BYTES
                    ||| rho@.len() != FIELD_BYTES
                    ||| blind@.len() != FIELD_BYTES
                },
            },
    {
        if entropy.len() != FIELD_BYTES || owner.len() != FIELD_BYTES || asset_id.len()
            != FIELD_BYTES || amount.len() != FIELD_BYTES || rho.len() != FIELD_BYTES
            || blind.len() != FIELD_BYTES {
            return None;
        }
        let ghost expected = seq![entropy@, owner@, asset_id@, amount@, rho@];
        let mut fields: Vec<Vec<u8>> = Vec::new();
        fields.push(entropy);
        fields.push(owner);
        fields.push(asset_id);
        fields.push(amount);
        fields.push(rho);
        let made = Note { fields, blind };
        assert(made.fields() =~= expected);
        Some(made)
    }

    /// Field number `index` of the note.
    pub fn field(&self, index: usize) -> (bytes: Vec<u8>)
        requires
            self.wf(),
            index < NOTE_FIELDS,
        ensures
            bytes@ == self.fields()[index as int],
            bytes@.len() == FIELD_BYTES,
    {
        copy_bytes(&self.fields[index])
    }

    /// The blinding of the note's commitment.
    pub fn blinding(&self) -> (bytes: Vec<u8>)
        requires
            self.wf(),
        ensures
            bytes@ == self.blind(),
            bytes@.len() == FIELD_BYTES,
    {
        copy_bytes(&self.blind)
    }
}

/// A note whose fields and blinding are all zero.
pub fn get_dummy_utxo() -> (note: Note)
    ensures
        note.wf(),
        note.fields() == Seq::new(NOTE_FIELDS as nat, |i: int| small_scalar(0)),
        note.blind() == small_scalar(0),
{
    let mut fields: Vec<Vec<u8>> = Vec::new();
    let mut i: usize = 0;
    while i < NOTE_FIELDS
        invariant
            i <= NOTE_FIELDS,
            fields@.len() == i,
            forall|k: int| 0 <= k < i ==> (#[trigger] fields@[k])@ == small_scalar(0),
        decreases NOTE_FIELDS - i,
    {
        fields.push(create_array(0));
        i += 1;
    }
    let note = Note { fields, blind: create_array(0) };
    assert(note.fields() =~= Seq::new(NOTE_FIELDS as nat, |i: int| small_scalar(0)));
    note
}

/// Whether a spend keeps what it moves: the output note holds the asset
/// and the amount of the input note.
pub open spec fn conserves(input: &Note, output: &Note) -> bool {
    &&& input.fields()[ASSET_ID as int] == output.fields()[ASSET_ID as int]
    &&& input.fields()[AMOUNT as int] == output.fields()[AMOUNT as int]
}

/// Whether the output note holds the asset and the amount of the input
/// note.
pub fn conserves_value(input: &Note, output: &Note) -> (kept: bool)
    requires
        input.wf(),
        output.wf(),
    ensures
        kept == conserves(input, output),
{
    same_bytes(&input.fields[ASSET_ID], &output.fields[ASSET_ID]) && same_bytes(
        &input.fields[AMOUNT],
        &output.fields[AMOUNT],
    )
}

} // verus!
