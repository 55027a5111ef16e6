//! The proof envelope: proofs, public inputs and Merkle openings as base58
//! strings, ready to be put into JSON.
//!
//! Every value is handled in its canonical serialized form. Encoding turns
//! bytes into text; decoding reads the bytes back and fails on text that
//! is not base58. What was encoded decodes to itself.

use crate::encoding::{each_well_encoded, well_encoded, Shape};
use crate::wire::{
    blobs, read_bytes, read_bytes_of_each, read_wire, read_wire_all, texts, to_wire,
    to_wire_all, wire_text, wire_text_of_each, Layout,
};
use vstd::prelude::*;

verus! {

/// Number of fields of a note.
pub const NUM_FIELDS: usize = 5;

/// A Merkle opening as text.
#[derive(Debug, Clone)]
pub struct VectorCommitmentOpeningProofBs58 {
    pub path_leaf_sibling_hash: String,
    pub path_auth_path: Vec<String>,
    pub path_leaf_index: usize,
    pub record: String,
    pub root: String,
}

/// A Merkle opening: the sibling of the leaf, the siblings of the nodes
/// above it from the bottom up, the leaf's position, the leaf and the
/// root, each in its serialized form.
#[derive(Debug, Clone)]
pub struct VectorCommitmentOpeningProof {
    pub path_leaf_sibling_hash: Vec<u8>,
    pub path_auth_path: Vec<Vec<u8>>,
    pub path_leaf_index: usize,
    pub record: Vec<u8>,
    pub root: Vec<u8>,
}

/// Positions of the public inputs of a payment proof.
#[allow(non_camel_case_types)]
#[derive(Debug, Clone, Copy, PartialEq, Eq, Structural)]
pub enum PaymentGrothPublicInput {
    /// Merkle root against which the input note is shown to exist.
    ROOT_X,
    /// Second coordinate of that root.
    ROOT_Y,
    /// Nullifier of the input note.
    NULLIFIER,
    /// Commitment of the output note.
    COMMITMENT_X,
    /// Second coordinate of that commitment.
    COMMITMENT_Y,
}

/// Positions of the public inputs of an on-ramp proof.
#[allow(non_camel_case_types)]
#[derive(Debug, Clone, Copy, PartialEq, Eq, Structural)]
pub enum OnrampGrothPublicInput {
    /// Asset of the note being created.
    ASSET_ID,
    /// Amount of the note being created.
    AMOUNT,
    /// Commitment of the note being created.
    COMMITMENT_X,
    /// Second coordinate of that commitment.
    COMMITMENT_Y,
}

/// Positions of the public inputs of a Merkle-update proof.
#[allow(non_camel_case_types)]
#[derive(Debug, Clone, Copy, PartialEq, Eq, Structural)]
pub enum MerkleUpdateGrothPublicInput {
    /// Index, from 0, of the leaf being written.
    LEAF_INDEX,
    /// The leaf being written.
    LEAF_VALUE_X,
    /// Second coordinate of that leaf.
    LEAF_VALUE_Y,
    /// Root before the update.
    OLD_ROOT_X,
    /// Second coordinate of that root.
    OLD_ROOT_Y,
    /// Root after the update.
    NEW_ROOT_X,
    /// Second coordinate of that root.
    NEW_ROOT_Y,
}

impl PaymentGrothPublicInput {
    /// Number of public inputs of a payment proof.
    pub const COUNT: usize = 5;

    /// The position as a number.
    pub open spec fn position(self) -> usize {
        match self {
            PaymentGrothPublicInput::ROOT_X => 0,
            PaymentGrothPublicInput::ROOT_Y => 1,
            PaymentGrothPublicInput::NULLIFIER => 2,
            PaymentGrothPublicInput::COMMITMENT_X => 3,
            PaymentGrothPublicInput::COMMITMENT_Y => 4,
        }
    }

    /// The position as a number.
    pub fn index(self) -> (index: usize)
        ensures
            index == self.position(),
            index < Self::COUNT,
    {
        match self {
            PaymentGrothPublicInput::ROOT_X => 0,
            PaymentGrothPublicInput::ROOT_Y => 1,
            PaymentGrothPublicInput::NULLIFIER => 2,
            PaymentGrothPublicInput::COMMITMENT_X => 3,
            PaymentGrothPublicInput::COMMITMENT_Y => 4,
        }
    }
}

impl OnrampGrothPublicInput {
    /// Number of public inputs of an on-ramp proof.
    pub const COUNT: usize = 4;

    /// The position as a number.
    pub open spec fn position(self) -> usize {
        match self {
            OnrampGrothPublicInput::ASSET_ID => 0,
            OnrampGrothPublicInput::AMOUNT => 1,
            OnrampGrothPublicInput::COMMITMENT_X => 2,
            OnrampGrothPublicInput::COMMITMENT_Y => 3,
        }
    }

    /// The position as a number.
    pub fn index(self) -> (index: usize)
        ensures
            index == self.position(),
            index < Self::COUNT,
    {
        match self {
            OnrampGrothPublicInput::ASSET_ID => 0,
            OnrampGrothPublicInput::AMOUNT => 1,
            OnrampGrothPublicInput::COMMITMENT_X => 2,
            OnrampGrothPublicInput::COMMITMENT_Y => 3,
        }
    }
}

impl MerkleUpdateGrothPublicInput {
    /// Number of public inputs of a Merkle-update proof.
    pub const COUNT: usize = 7;

    /// The position as a number.
    pub open spec fn position(self) -> usize {
        match self {
            MerkleUpdateGrothPublicInput::LEAF_INDEX => 0,
            MerkleUpdateGrothPublicInput::LEAF_VALUE_X => 1,
            MerkleUpdateGrothPublicInput::LEAF_VALUE_Y => 2,
            MerkleUpdateGrothPublicInput::OLD_ROOT_X => 3,
            MerkleUpdateGrothPublicInput::OLD_ROOT_Y => 4,
            MerkleUpdateGrothPublicInput::NEW_ROOT_X => 5,
            MerkleUpdateGrothPublicInput::NEW_ROOT_Y => 6,
        }
    }

    /// The position as a number.
    pub fn index(self) -> (index: usize)
        ensures
            index == self.position(),
            index < Self::COUNT,
    {
        match self {
            MerkleUpdateGrothPublicInput::LEAF_INDEX => 0,
            MerkleUpdateGrothPublicInput::LEAF_VALUE_X => 1,
            MerkleUpdateGrothPublicInput::LEAF_VALUE_Y => 2,
            MerkleUpdateGrothPublicInput::OLD_ROOT_X => 3,
            MerkleUpdateGrothPublicInput::OLD_ROOT_Y => 4,
            MerkleUpdateGrothPublicInput::NEW_ROOT_X => 5,
            MerkleUpdateGrothPublicInput::NEW_ROOT_Y => 6,
        }
    }
}

/// A field element as text.
#[derive(Debug, Clone)]
pub struct FieldElementBs58 {
    pub field: String,
}

/// A note as text: one string for each field.
#[derive(Debug, Clone)]
pub struct CoinBs58 {
    pub fields: Vec<String>,
}

/// A Groth16 proof and its public inputs as text.
#[derive(Debug, Clone)]
pub struct GrothProofBs58 {
    pub proof: String,
    pub public_inputs: Vec<String>,
}

impl GrothProofBs58 {
    /// A copy of the envelope.
    pub fn duplicate(&self) -> (copy: Self)
        ensures
            copy.proof@ == self.proof@,
            texts(&copy.public_inputs) == texts(&self.public_inputs),
    {
        let mut public_inputs: Vec<String> = Vec::new();
        let mut i: usize = 0;
        while i < self.public_inputs.len()
            invariant
                i <= self.public_inputs@.len(),
                public_inputs@.len() == i,
                forall|k: int|
                    0 <= k < i ==> (#[trigger] public_inputs@[k])@ == self.public_inputs@[k]@,
            decreases self.public_inputs@.len() - i,
        {
            public_inputs.push(self.public_inputs[i].clone());
            i += 1;
        }
        assert(texts(&public_inputs) =~= texts(&self.public_inputs));
        GrothProofBs58 { proof: self.proof.clone(), public_inputs }
    }
}

/// What the sequencer hands to the verifier for a deposit.
#[derive(Debug, Clone)]
pub struct OnRampProofBs58 {
    pub on_ramp_proof: GrothProofBs58,
    pub merkle_update_proof: GrothProofBs58,
}

/// What the sequencer hands to the verifier for a spend.
#[derive(Debug, Clone)]
pub struct PaymentProofBs58 {
    pub payment_proof: GrothProofBs58,
    pub merkle_update_proof: GrothProofBs58,
}

/// A proof of the polynomial-commitment argument as text.
#[derive(Debug, Clone)]
pub struct PlonkProofBs58 {
    /// commitments to input coins data structures
    pub input_coins_com: Vec<String>,
    /// commitments to output coins data structures
    pub output_coins_com: Vec<String>,
    /// commitment to quotient polynomial
    pub quotient_com: String,
    /// commitments to additional polynomials
    pub additional_com: Vec<String>,
    /// openings of input coin polynomials at r
    pub input_coins_opening: Vec<String>,
    /// openings of output coin polynomials at r
    pub output_coins_opening: Vec<String>,
    /// opening of quotient polynomial at r
    pub quotient_opening: String,
    /// openings of additional polynomials at r
    pub additional_opening: Vec<String>,
    pub input_coins_opening_proof: Vec<String>,
    pub output_coins_opening_proof: Vec<String>,
    pub quotient_opening_proof: String,
    pub additional_opening_proof: Vec<String>,
}

/// A proof of the polynomial-commitment argument, each part in its
/// serialized form.
#[derive(Debug, Clone)]
pub struct PlonkProof {
    pub input_coins_com: Vec<Vec<u8>>,
    pub output_coins_com: Vec<Vec<u8>>,
    pub quotient_com: Vec<u8>,
    pub additional_com: Vec<Vec<u8>>,
    pub input_coins_opening: Vec<Vec<u8>>,
    pub output_coins_opening: Vec<Vec<u8>>,
    pub quotient_opening: Vec<u8>,
    pub additional_opening: Vec<Vec<u8>>,
    pub input_coins_opening_proof: Vec<Vec<u8>>,
    pub output_coins_opening_proof: Vec<Vec<u8>>,
    pub quotient_opening_proof: Vec<u8>,
    pub additional_opening_proof: Vec<Vec<u8>>,
}

/// The text of an opening is the text of each of its parts.
pub open spec fn opening_text(
    proof: &VectorCommitmentOpeningProof,
    layout: Layout,
    envelope: &VectorCommitmentOpeningProofBs58,
) -> bool {
    &&& envelope.path_leaf_sibling_hash@ == wire_text(proof.path_leaf_sibling_hash@, layout)
    &&& texts(&envelope.path_auth_path) == wire_text_of_each(
        blobs(&proof.path_auth_path),
        layout,
    )
    &&& envelope.path_leaf_index == proof.path_leaf_index
    &&& envelope.record@ == wire_text(proof.record@, layout)
    &&& envelope.root@ == wire_text(proof.root@, layout)
}

/// Every part of the envelope carries bytes, and the record is what
/// `record_shape` says.
pub open spec fn opening_readable(
    envelope: &VectorCommitmentOpeningProofBs58,
    layout: Layout,
    record_shape: Shape,
) -> bool {
    &&& read_bytes(envelope.path_leaf_sibling_hash@, layout, Shape::Digest) is Some
    &&& read_bytes_of_each(texts(&envelope.path_auth_path), layout, Shape::Digest) is Some
    &&& read_bytes(envelope.record@, layout, record_shape) is Some
    &&& read_bytes(envelope.root@, layout, Shape::Digest) is Some
}

/// The envelope carries exactly this opening, and its record is what
/// `record_shape` says.
pub open spec fn opening_carried(
    envelope: &VectorCommitmentOpeningProofBs58,
    layout: Layout,
    record_shape: Shape,
    proof: &VectorCommitmentOpeningProof,
) -> bool {
    &&& read_bytes(envelope.path_leaf_sibling_hash@, layout, Shape::Digest) == Some(
        proof.path_leaf_sibling_hash@,
    )
    &&& read_bytes_of_each(texts(&envelope.path_auth_path), layout, Shape::Digest) == Some(
        blobs(&proof.path_auth_path),
    )
    &&& envelope.path_leaf_index == proof.path_leaf_index
    &&& read_bytes(envelope.record@, layout, record_shape) == Some(proof.record@)
    &&& read_bytes(envelope.root@, layout, Shape::Digest) == Some(proof.root@)
}

/// An envelope carries at most one opening: two openings that it carries
/// agree in every part.
pub proof fn lemma_opening_carried_once(
    envelope: &VectorCommitmentOpeningProofBs58,
    layout: Layout,
    record_shape: Shape,
    first: &VectorCommitmentOpeningProof,
    second: &VectorCommitmentOpeningProof,
)
    requires
        opening_carried(envelope, layout, record_shape, first),
        opening_carried(envelope, layout, record_shape, second),
    ensures
        first.path_leaf_sibling_hash@ == second.path_leaf_sibling_hash@,
        blobs(&first.path_auth_path) == blobs(&second.path_auth_path),
        first.path_leaf_index == second.path_leaf_index,
        first.record@ == second.record@,
        first.root@ == second.root@,
{
}

/// Encodes an opening whose parts travel in `layout`.
pub fn opening_proof_to_bs58(
    proof: &VectorCommitmentOpeningProof,
    layout: Layout,
) -> (envelope: VectorCommitmentOpeningProofBs58)
    ensures
        opening_text(proof, layout, &envelope),
        opening_carried(&envelope, layout, Shape::Digest, proof),
{
    let path_leaf_sibling_hash = to_wire(&proof.path_leaf_sibling_hash, layout);
    let path_auth_path = to_wire_all(&proof.path_auth_path, layout);
    let record = to_wire(&proof.record, layout);
    let root = to_wire(&proof.root, layout);
    VectorCommitmentOpeningProofBs58 {
        path_leaf_sibling_hash,
        path_auth_path,
        path_leaf_index: proof.path_leaf_index,
        record,
        root,
    }
}

/// Decodes an opening whose parts travel in `layout`; `None` if a part is
/// not readable or the record is not what `record_shape` says.
pub fn opening_proof_from_bs58(
    envelope: &VectorCommitmentOpeningProofBs58,
    layout: Layout,
    record_shape: Shape,
) -> (opening: Option<VectorCommitmentOpeningProof>)
    ensures
        match opening {
            Some(decoded) => opening_carried(envelope, layout, record_shape, &decoded),
            None => !opening_readable(envelope, layout, record_shape),
        },
{
    let sibling = read_wire(&envelope.path_leaf_sibling_hash, layout, Shape::Digest);
    let path_leaf_sibling_hash = match sibling {
        Some(bytes) => bytes,
        None => {
            return None;
        },
    };
    let path_auth_path = match read_wire_all(&envelope.path_auth_path, layout, Shape::Digest) {
        Some(list) => list,
        None => {
            return None;
        },
    };
    let record = match read_wire(&envelope.record, layout, record_shape) {
        Some(bytes) => bytes,
        None => {
            return None;
        },
    };
    let root = match read_wire(&envelope.root, layout, Shape::Digest) {
        Some(bytes) => bytes,
        None => {
            return None;
        },
    };
    Some(
        VectorCommitmentOpeningProof {
            path_leaf_sibling_hash,
            path_auth_path,
            path_leaf_index: envelope.path_leaf_index,
            record,
            root,
        },
    )
}

/// Encodes an opening of the Pedersen tree over the outer curve: every
/// part is a field element or a point and travels bare.
#[allow(non_snake_case)]
pub fn jubjub_vector_commitment_opening_proof_MTEdOnBw6_761_to_bs58(
    proof: &VectorCommitmentOpeningProof,
) -> (envelope: VectorCommitmentOpeningProofBs58)
    ensures
        opening_text(proof, Layout::Bare, &envelope),
        well_encoded(proof.record@, Shape::InnerPoint) ==> opening_carried(
            &envelope,
            Layout::Bare,
            Shape::InnerPoint,
            proof,
        ),
{
    opening_proof_to_bs58(proof, Layout::Bare)
}

/// Encodes an opening of the Pedersen tree over the inner curve: every
/// part is a field element or a point and travels bare.
#[allow(non_snake_case)]
pub fn jubjub_vector_commitment_opening_proof_MTEdOnBls12_377_to_bs58(
    proof: &VectorCommitmentOpeningProof,
) -> (envelope: VectorCommitmentOpeningProofBs58)
    ensures
        opening_text(proof, Layout::Bare, &envelope),
        well_encoded(proof.record@, Shape::InnerPoint) ==> opening_carried(
            &envelope,
            Layout::Bare,
            Shape::InnerPoint,
            proof,
        ),
{
    opening_proof_to_bs58(proof, Layout::Bare)
}

/// Encodes an opening of the SHA-256 tree: every part is a digest and
/// travels framed.
pub fn sha2_vector_commitment_opening_proof_to_bs58(
    proof: &VectorCommitmentOpeningProof,
) -> (envelope: VectorCommitmentOpeningProofBs58)
    ensures
        opening_text(proof, Layout::Framed, &envelope),
        opening_carried(&envelope, Layout::Framed, Shape::Digest, proof),
{
    opening_proof_to_bs58(proof, Layout::Framed)
}

/// Decodes an opening of the SHA-256 tree.
pub fn sha2_vector_commitment_opening_proof_from_bs58(
    proof: &VectorCommitmentOpeningProofBs58,
) -> (opening: Option<VectorCommitmentOpeningProof>)
    ensures
        match opening {
            Some(decoded) => opening_carried(proof, Layout::Framed, Shape::Digest, &decoded),
            None => !opening_readable(proof, Layout::Framed, Shape::Digest),
        },
{
    opening_proof_from_bs58(proof, Layout::Framed, Shape::Digest)
}

/// Decodes an opening of the Pedersen tree over the outer curve.
#[allow(non_snake_case)]
pub fn jubjub_vector_commitment_opening_proof_MTEdOnBw6_761_from_bs58(
    proof: &VectorCommitmentOpeningProofBs58,
) -> (opening: Option<VectorCommitmentOpeningProof>)
    ensures
        match opening {
            Some(decoded) => opening_carried(proof, Layout::Bare, Shape::InnerPoint, &decoded),
            None => !opening_readable(proof, Layout::Bare, Shape::InnerPoint),
        },
{
    opening_proof_from_bs58(proof, Layout::Bare, Shape::InnerPoint)
}

/// Decodes an opening of the Pedersen tree over the inner curve.
#[allow(non_snake_case)]
pub fn jubjub_vector_commitment_opening_proof_MTEdOnBls12_377_from_bs58(
    proof: &VectorCommitmentOpeningProofBs58,
) -> (opening: Option<VectorCommitmentOpeningProof>)
    ensures
        match opening {
            Some(decoded) => opening_carried(proof, Layout::Bare, Shape::InnerPoint, &decoded),
            None => !opening_readable(proof, Layout::Bare, Shape::InnerPoint),
        },
{
    opening_proof_from_bs58(proof, Layout::Bare, Shape::InnerPoint)
}

/// Encodes a field element.
pub fn field_element_to_bs58(field: &Vec<u8>) -> (envelope: FieldElementBs58)
    ensures
        envelope.field@ == wire_text(field@, Layout::Bare),
        well_encoded(field@, Shape::InnerScalar) ==> read_bytes(
            envelope.field@,
            Layout::Bare,
            Shape::InnerScalar,
        ) == Some(field@),
{
    FieldElementBs58 { field: encode_f_as_bs58_str(field) }
}

/// Decodes a field element; `None` if the text is not base58.
pub fn field_element_from_bs58(fieldbs58: &FieldElementBs58) -> (field: Option<Vec<u8>>)
    ensures
        match field {
            Some(bytes) => read_bytes(fieldbs58.field@, Layout::Bare, Shape::InnerScalar) == Some(
                bytes@,
            ),
            None => read_bytes(fieldbs58.field@, Layout::Bare, Shape::InnerScalar) is None,
        },
{
    decode_bs58_str_as_f(&fieldbs58.field)
}

/// Encodes a note, field by field.
pub fn coin_to_bs58(coin: &Vec<Vec<u8>>) -> (envelope: CoinBs58)
    requires
        coin@.len() == NUM_FIELDS,
    ensures
        envelope.fields@.len() == NUM_FIELDS,
        texts(&envelope.fields) == wire_text_of_each(blobs(coin), Layout::Bare),
        each_well_encoded(blobs(coin), Shape::InnerScalar) ==> read_bytes_of_each(
            texts(&envelope.fields),
            Layout::Bare,
            Shape::InnerScalar,
        ) == Some(blobs(coin)),
{
    let fields = to_wire_all(coin, Layout::Bare);
    assert(texts(&fields).len() == fields@.len());
    CoinBs58 { fields }
}

/// Decodes a note; `None` if it does not have the right number of fields
/// or one of them is not base58.
pub fn coin_from_bs58(coin: &CoinBs58) -> (fields: Option<Vec<Vec<u8>>>)
    ensures
        match fields {
            Some(list) => coin.fields@.len() == NUM_FIELDS && read_bytes_of_each(
                texts(&coin.fields),
                Layout::Bare,
                Shape::InnerScalar,
            ) == Some(blobs(&list)),
            None => coin.fields@.len() != NUM_FIELDS || read_bytes_of_each(
                texts(&coin.fields),
                Layout::Bare,
                Shape::InnerScalar,
            ) is None,
        },
{
    if coin.fields.len() != NUM_FIELDS {
        return None;
    }
    read_wire_all(&coin.fields, Layout::Bare, Shape::InnerScalar)
}

/// The text of a Groth16 proof is the text of the proof and of each
/// public input, in the same order.
pub open spec fn groth_text(
    proof: Seq<u8>,
    public_inputs: Seq<Seq<u8>>,
    envelope: &GrothProofBs58,
) -> bool {
    &&& envelope.proof@ == wire_text(proof, Layout::Bare)
    &&& texts(&envelope.public_inputs) == wire_text_of_each(public_inputs, Layout::Bare)
}

/// Whether a proof and its public inputs are the serialized form of a
/// Groth16 proof and of field elements.
pub open spec fn groth_valid(proof: Seq<u8>, public_inputs: Seq<Seq<u8>>) -> bool {
    well_encoded(proof, Shape::OuterProof) && each_well_encoded(public_inputs, Shape::OuterScalar)
}

/// The envelope carries exactly this proof and these public inputs, and
/// they are the serialized form of a proof and of field elements.
pub open spec fn groth_carried(
    envelope: &GrothProofBs58,
    proof: Seq<u8>,
    public_inputs: Seq<Seq<u8>>,
) -> bool {
    &&& read_bytes(envelope.proof@, Layout::Bare, Shape::OuterProof) == Some(proof)
    &&& read_bytes_of_each(texts(&envelope.public_inputs), Layout::Bare, Shape::OuterScalar)
        == Some(public_inputs)
}

/// The proof and every public input of the envelope are base58.
pub open spec fn groth_readable(envelope: &GrothProofBs58) -> bool {
    &&& read_bytes(envelope.proof@, Layout::Bare, Shape::OuterProof) is Some
    &&& read_bytes_of_each(texts(&envelope.public_inputs), Layout::Bare, Shape::OuterScalar) is Some
}

/// An envelope carries at most one proof with its public inputs.
pub proof fn lemma_groth_carried_once(
    envelope: &GrothProofBs58,
    first: (Seq<u8>, Seq<Seq<u8>>),
    second: (Seq<u8>, Seq<Seq<u8>>),
)
    requires
        groth_carried(envelope, first.0, first.1),
        groth_carried(envelope, second.0, second.1),
    ensures
        first == second,
{
}

/// Encodes a Groth16 proof and its public inputs.
pub fn groth_proof_to_bs58(
    proof: &Vec<u8>,
    public_inputs: &Vec<Vec<u8>>,
) -> (envelope: GrothProofBs58)
    ensures
        groth_text(proof@, blobs(public_inputs), &envelope),
        groth_valid(proof@, blobs(public_inputs)) ==> groth_carried(
            &envelope,
            proof@,
            blobs(public_inputs),
        ),
{
    let public_inputs = to_wire_all(public_inputs, Layout::Bare);
    let proof = to_wire(proof, Layout::Bare);
    GrothProofBs58 { proof, public_inputs }
}

/// Decodes a Groth16 proof and its public inputs; `None` if one of the
/// strings is not base58.
pub fn groth_proof_from_bs58(
    proof: &GrothProofBs58,
) -> (decoded: Option<(Vec<u8>, Vec<Vec<u8>>)>)
    ensures
        match decoded {
            Some(pair) => groth_carried(proof, pair.0@, blobs(&pair.1)),
            None => !groth_readable(proof),
        },
{
    let inputs = read_wire_all(&proof.public_inputs, Layout::Bare, Shape::OuterScalar);
    let public_inputs = match inputs {
        Some(list) => list,
        None => {
            return None;
        },
    };
    let bytes = match read_wire(&proof.proof, Layout::Bare, Shape::OuterProof) {
        Some(bytes) => bytes,
        None => {
            return None;
        },
    };
    Some((bytes, public_inputs))
}

/// The text of each part of a proof of the polynomial-commitment
/// argument.
pub open spec fn plonk_text(proof: &PlonkProof, envelope: &PlonkProofBs58) -> bool {
    &&& texts(&envelope.input_coins_com) == wire_text_of_each(
        blobs(&proof.input_coins_com),
        Layout::Bare,
    )
    &&& texts(&envelope.output_coins_com) == wire_text_of_each(
        blobs(&proof.output_coins_com),
        Layout::Bare,
    )
    &&& envelope.quotient_com@ == wire_text(proof.quotient_com@, Layout::Bare)
    &&& texts(&envelope.additional_com) == wire_text_of_each(
        blobs(&proof.additional_com),
        Layout::Bare,
    )
    &&& texts(&envelope.input_coins_opening) == wire_text_of_each(
        blobs(&proof.input_coins_opening),
        Layout::Bare,
    )
    &&& texts(&envelope.output_coins_opening) == wire_text_of_each(
        blobs(&proof.output_coins_opening),
        Layout::Bare,
    )
    &&& envelope.quotient_opening@ == wire_text(proof.quotient_opening@, Layout::Bare)
    &&& texts(&envelope.additional_opening) == wire_text_of_each(
        blobs(&proof.additional_opening),
        Layout::Bare,
    )
    &&& texts(&envelope.input_coins_opening_proof) == wire_text_of_each(
        blobs(&proof.input_coins_opening_proof),
        Layout::Bare,
    )
    &&& texts(&envelope.output_coins_opening_proof) == wire_text_of_each(
        blobs(&proof.output_coins_opening_proof),
        Layout::Bare,
    )
    &&& envelope.quotient_opening_proof@ == wire_text(
        proof.quotient_opening_proof@,
        Layout::Bare,
    )
    &&& texts(&envelope.additional_opening_proof) == wire_text_of_each(
        blobs(&proof.additional_opening_proof),
        Layout::Bare,
    )
}

/// The bytes that a bare text carries if they are what `shape` says.
pub open spec fn bare(text: Seq<char>, shape: Shape) -> Option<Seq<u8>> {
    read_bytes(text, Layout::Bare, shape)
}

/// The bytes that each bare text of a list carries if they all are what
/// `shape` says.
pub open spec fn bare_each(items: &Vec<String>, shape: Shape) -> Option<Seq<Seq<u8>>> {
    read_bytes_of_each(texts(items), Layout::Bare, shape)
}

/// Whether each part of a proof is the serialized form of a point or of a
/// field element, as its place asks.
pub open spec fn plonk_valid(proof: &PlonkProof) -> bool {
    &&& each_well_encoded(blobs(&proof.input_coins_com), Shape::InnerPoint)
    &&& each_well_encoded(blobs(&proof.output_coins_com), Shape::InnerPoint)
    &&& well_encoded(proof.quotient_com@, Shape::InnerPoint)
    &&& each_well_encoded(blobs(&proof.additional_com), Shape::InnerPoint)
    &&& each_well_encoded(blobs(&proof.input_coins_opening), Shape::InnerScalar)
    &&& each_well_encoded(blobs(&proof.output_coins_opening), Shape::InnerScalar)
    &&& well_encoded(proof.quotient_opening@, Shape::InnerScalar)
    &&& each_well_encoded(blobs(&proof.additional_opening), Shape::InnerScalar)
    &&& each_well_encoded(blobs(&proof.input_coins_opening_proof), Shape::InnerPoint)
    &&& each_well_encoded(blobs(&proof.output_coins_opening_proof), Shape::InnerPoint)
    &&& well_encoded(proof.quotient_opening_proof@, Shape::InnerPoint)
    &&& each_well_encoded(blobs(&proof.additional_opening_proof), Shape::InnerPoint)
}

/// Every part of the envelope is base58 and carries a point or a field
/// element, as its place asks.
pub open spec fn plonk_readable(envelope: &PlonkProofBs58) -> bool {
    &&& bare_each(&envelope.input_coins_com, Shape::InnerPoint) is Some
    &&& bare_each(&envelope.output_coins_com, Shape::InnerPoint) is Some
    &&& bare(envelope.quotient_com@, Shape::InnerPoint) is Some
    &&& bare_each(&envelope.additional_com, Shape::InnerPoint) is Some
    &&& bare_each(&envelope.input_coins_opening, Shape::InnerScalar) is Some
    &&& bare_each(&envelope.output_coins_opening, Shape::InnerScalar) is Some
    &&& bare(envelope.quotient_opening@, Shape::InnerScalar) is Some
    &&& bare_each(&envelope.additional_opening, Shape::InnerScalar) is Some
    &&& bare_each(&envelope.input_coins_opening_proof, Shape::InnerPoint) is Some
    &&& bare_each(&envelope.output_coins_opening_proof, Shape::InnerPoint) is Some
    &&& bare(envelope.quotient_opening_proof@, Shape::InnerPoint) is Some
    &&& bare_each(&envelope.additional_opening_proof, Shape::InnerPoint) is Some
}

/// The envelope carries exactly this proof.
pub open spec fn plonk_carried(envelope: &PlonkProofBs58, proof: &PlonkProof) -> bool {
    &&& bare_each(&envelope.input_coins_com, Shape::InnerPoint) == Some(
        blobs(&proof.input_coins_com),
    )
    &&& bare_each(&envelope.output_coins_com, Shape::InnerPoint) == Some(
        blobs(&proof.output_coins_com),
    )
    &&& bare(envelope.quotient_com@, Shape::InnerPoint) == Some(proof.quotient_com@)
    &&& bare_each(&envelope.additional_com, Shape::InnerPoint) == Some(
        blobs(&proof.additional_com),
    )
    &&& bare_each(&envelope.input_coins_opening, Shape::InnerScalar) == Some(
        blobs(&proof.input_coins_opening),
    )
    &&& bare_each(&envelope.output_coins_opening, Shape::InnerScalar) == Some(
        blobs(&proof.output_coins_opening),
    )
    &&& bare(envelope.quotient_opening@, Shape::InnerScalar) == Some(proof.quotient_opening@)
    &&& bare_each(&envelope.additional_opening, Shape::InnerScalar) == Some(
        blobs(&proof.additional_opening),
    )
    &&& bare_each(&envelope.input_coins_opening_proof, Shape::InnerPoint) == Some(
        blobs(&proof.input_coins_opening_proof),
    )
    &&& bare_each(&envelope.output_coins_opening_proof, Shape::InnerPoint) == Some(
        blobs(&proof.output_coins_opening_proof),
    )
    &&& bare(envelope.quotient_opening_proof@, Shape::InnerPoint) == Some(
        proof.quotient_opening_proof@,
    )
    &&& bare_each(&envelope.additional_opening_proof, Shape::InnerPoint) == Some(
        blobs(&proof.additional_opening_proof),
    )
}

/// Decodes a proof of the polynomial-commitment argument; `None` if a
/// part is not base58.
pub fn plonk_proof_from_bs58(proof: &PlonkProofBs58) -> (decoded: Option<PlonkProof>)
    ensures
        match decoded {
            Some(plain) => plonk_carried(proof, &plain),
            None => !plonk_readable(proof),
        },
{
    let input_coins_com = match decode_all_g1(&proof.input_coins_com) {
        Some(list) => list,
        None => {
            return None;
        },
    };
    let output_coins_com = match decode_all_g1(&proof.output_coins_com) {
        Some(list) => list,
        None => {
            return None;
        },
    };
    let quotient_com = match decode_bs58_str_as_g1(&proof.quotient_com) {
        Some(bytes) => bytes,
        None => {
            return None;
        },
    };
    let additional_com = match decode_all_g1(&proof.additional_com) {
        Some(list) => list,
        None => {
            return None;
        },
    };
    let input_coins_opening = match decode_all_f(&proof.input_coins_opening) {
        Some(list) => list,
        None => {
            return None;
        },
    };
    let output_coins_opening = match decode_all_f(&proof.output_coins_opening) {
        Some(list) => list,
        None => {
            return None;
        },
    };
    let quotient_opening = match decode_bs58_str_as_f(&proof.quotient_opening) {
        Some(bytes) => bytes,
        None => {
            return None;
        },
    };
    let additional_opening = match decode_all_f(&proof.additional_opening) {
        Some(list) => list,
        None => {
            return None;
        },
    };
    let input_coins_opening_proof = match decode_all_g1(&proof.input_coins_opening_proof) {
        Some(list) => list,
        None => {
            return None;
        },
    };
    let output_coins_opening_proof = match decode_all_g1(&proof.output_coins_opening_proof) {
        Some(list) => list,
        None => {
            return None;
        },
    };
    let quotient_opening_proof = match decode_bs58_str_as_g1(&proof.quotient_opening_proof) {
        Some(bytes) => bytes,
        None => {
            return None;
        },
    };
    let additional_opening_proof = match decode_all_g1(&proof.additional_opening_proof) {
        Some(list) => list,
        None => {
            return None;
        },
    };
    Some(
        PlonkProof {
            input_coins_com,
            output_coins_com,
            quotient_com,
            additional_com,
            input_coins_opening,
            output_coins_opening,
            quotient_opening,
            additional_opening,
            input_coins_opening_proof,
            output_coins_opening_proof,
            quotient_opening_proof,
            additional_opening_proof,
        },
    )
}

/// Encodes a proof of the polynomial-commitment argument.
pub fn plonk_proof_to_bs58(proof: &PlonkProof) -> (envelope: PlonkProofBs58)
    ensures
        plonk_text(proof, &envelope),
        plonk_valid(proof) ==> plonk_carried(&envelope, proof),
{
    let input_coins_com = to_wire_all(&proof.input_coins_com, Layout::Bare);
    let output_coins_com = to_wire_all(&proof.output_coins_com, Layout::Bare);
    let quotient_com = encode_g1_as_bs58_str(&proof.quotient_com);
    let additional_com = to_wire_all(&proof.additional_com, Layout::Bare);
    let input_coins_opening = to_wire_all(&proof.input_coins_opening, Layout::Bare);
    let output_coins_opening = to_wire_all(&proof.output_coins_opening, Layout::Bare);
    let quotient_opening = encode_f_as_bs58_str(&proof.quotient_opening);
    let additional_opening = to_wire_all(&proof.additional_opening, Layout::Bare);
    let input_coins_opening_proof = to_wire_all(&proof.input_coins_opening_proof, Layout::Bare);
    let output_coins_opening_proof = to_wire_all(&proof.output_coins_opening_proof, Layout::Bare);
    let quotient_opening_proof = encode_g1_as_bs58_str(&proof.quotient_opening_proof);
    let additional_opening_proof = to_wire_all(&proof.additional_opening_proof, Layout::Bare);
    PlonkProofBs58 {
        input_coins_com,
        output_coins_com,
        quotient_com,
        additional_com,
        input_coins_opening,
        output_coins_opening,
        quotient_opening,
        additional_opening,
        input_coins_opening_proof,
        output_coins_opening_proof,
        quotient_opening_proof,
        additional_opening_proof,
    }
}

fn decode_all_g1(items: &Vec<String>) -> (decoded: Option<Vec<Vec<u8>>>)
    ensures
        match decoded {
            Some(list) => read_bytes_of_each(texts(items), Layout::Bare, Shape::InnerPoint) == Some(
                blobs(&list),
            ),
            None => read_bytes_of_each(texts(items), Layout::Bare, Shape::InnerPoint) is None,
        },
{
    read_wire_all(items, Layout::Bare, Shape::InnerPoint)
}

fn decode_all_f(items: &Vec<String>) -> (decoded: Option<Vec<Vec<u8>>>)
    ensures
        match decoded {
            Some(list) => read_bytes_of_each(texts(items), Layout::Bare, Shape::InnerScalar)
                == Some(blobs(&list)),
            None => read_bytes_of_each(texts(items), Layout::Bare, Shape::InnerScalar) is None,
        },
{
    read_wire_all(items, Layout::Bare, Shape::InnerScalar)
}

fn decode_bs58_str_as_f(msg: &String) -> (field: Option<Vec<u8>>)
    ensures
        match field {
            Some(bytes) => read_bytes(msg@, Layout::Bare, Shape::InnerScalar) == Some(bytes@),
            None => read_bytes(msg@, Layout::Bare, Shape::InnerScalar) is None,
        },
{
    read_wire(msg, Layout::Bare, Shape::InnerScalar)
}

fn decode_bs58_str_as_g1(msg: &String) -> (point: Option<Vec<u8>>)
    ensures
        match point {
            Some(bytes) => read_bytes(msg@, Layout::Bare, Shape::InnerPoint) == Some(bytes@),
            None => read_bytes(msg@, Layout::Bare, Shape::InnerPoint) is None,
        },
{
    read_wire(msg, Layout::Bare, Shape::InnerPoint)
}

fn encode_f_as_bs58_str(value: &Vec<u8>) -> (text: String)
    ensures
        text@ == wire_text(value@, Layout::Bare),
        well_encoded(value@, Shape::InnerScalar) ==> read_bytes(
            text@,
            Layout::Bare,
            Shape::InnerScalar,
        ) == Some(value@),
{
    to_wire(value, Layout::Bare)
}

fn encode_g1_as_bs58_str(value: &Vec<u8>) -> (text: String)
    ensures
        text@ == wire_text(value@, Layout::Bare),
        well_encoded(value@, Shape::InnerPoint) ==> read_bytes(
            text@,
            Layout::Bare,
            Shape::InnerPoint,
        ) == Some(value@),
{
    to_wire(value, Layout::Bare)
}

} // verus!
