use ark_bls12_377::{Fr, G1Affine};
use ark_ec::AffineRepr;
use ark_serialize::CanonicalSerialize;
use sanctum::framing::{frame_bytes, le_bytes_of, unframe_bytes};
use sanctum::protocol::{
    coin_from_bs58, coin_to_bs58, field_element_from_bs58, field_element_to_bs58,
    groth_proof_from_bs58, groth_proof_to_bs58,
    jubjub_vector_commitment_opening_proof_MTEdOnBls12_377_from_bs58,
    jubjub_vector_commitment_opening_proof_MTEdOnBls12_377_to_bs58,
    jubjub_vector_commitment_opening_proof_MTEdOnBw6_761_from_bs58,
    jubjub_vector_commitment_opening_proof_MTEdOnBw6_761_to_bs58, plonk_proof_from_bs58,
    plonk_proof_to_bs58, sha2_vector_commitment_opening_proof_from_bs58,
    sha2_vector_commitment_opening_proof_to_bs58, CoinBs58, FieldElementBs58, GrothProofBs58,
    MerkleUpdateGrothPublicInput, OnrampGrothPublicInput, PaymentGrothPublicInput, PlonkProof,
    VectorCommitmentOpeningProof, NUM_FIELDS,
};
use sanctum::wire::{from_wire, from_wire_all, to_wire, to_wire_all, Layout};

fn encode(bytes: &Vec<u8>) -> String {
    to_wire(bytes, Layout::Bare)
}

fn decode(text: &String) -> Option<Vec<u8>> {
    from_wire(text, Layout::Bare)
}

fn ser<T: CanonicalSerialize>(value: &T) -> Vec<u8> {
    let mut out = Vec::new();
    value.serialize_compressed(&mut out).unwrap();
    out
}

fn scalar(value: u64) -> Vec<u8> {
    ser(&Fr::from(value))
}

fn point() -> Vec<u8> {
    ser(&G1Affine::generator())
}

fn sample_opening() -> VectorCommitmentOpeningProof {
    VectorCommitmentOpeningProof {
        path_leaf_sibling_hash: vec![1u8; 32],
        path_auth_path: vec![vec![2u8; 32], vec![0u8; 32], vec![3u8; 32]],
        path_leaf_index: 5,
        record: vec![4u8; 32],
        root: vec![0, 0, 7, 7],
    }
}

fn same_opening(a: &VectorCommitmentOpeningProof, b: &VectorCommitmentOpeningProof) -> bool {
    a.path_leaf_sibling_hash == b.path_leaf_sibling_hash
        && a.path_auth_path == b.path_auth_path
        && a.path_leaf_index == b.path_leaf_index
        && a.record == b.record
        && a.root == b.root
}

#[test]
fn base58_of_known_bytes() {
    let bytes = vec![0x04, 0x30, 0x5e, 0x2b, 0x24, 0x73, 0xf0, 0x58];
    assert_eq!(encode(&bytes), "he11owor1d");
    assert_eq!(decode(&"he11owor1d".to_string()), Some(bytes));
    assert_eq!(encode(&vec![0u8, 0, 1]), "112");
    assert_eq!(encode(&vec![]), "");
    assert_eq!(decode(&"".to_string()), Some(vec![]));
}

#[test]
fn base58_refuses_foreign_characters() {
    assert_eq!(decode(&"he11owor1d0".to_string()), None);
    assert_eq!(decode(&"O".to_string()), None);
    assert_eq!(decode(&"I".to_string()), None);
    assert_eq!(decode(&"l".to_string()), None);
    assert_eq!(decode(&"ab cd".to_string()), None);
    assert_eq!(decode(&"é".to_string()), None);
}

#[test]
fn base58_round_trip() {
    for len in 0..40usize {
        let bytes: Vec<u8> = (0..len).map(|i| (i * 37 % 256) as u8).collect();
        assert_eq!(decode(&encode(&bytes)), Some(bytes.clone()));
        let zeros = vec![0u8; len];
        assert_eq!(decode(&encode(&zeros)), Some(zeros));
    }
}

#[test]
fn little_endian_length() {
    assert_eq!(le_bytes_of(0), vec![0u8; 8]);
    assert_eq!(le_bytes_of(3), vec![3, 0, 0, 0, 0, 0, 0, 0]);
    assert_eq!(le_bytes_of(0x0102030405060708), vec![8, 7, 6, 5, 4, 3, 2, 1]);
    assert_eq!(le_bytes_of(u64::MAX), vec![255u8; 8]);
}

#[test]
fn frame_puts_the_length_in_front() {
    assert_eq!(frame_bytes(&b"abc".to_vec()), vec![3, 0, 0, 0, 0, 0, 0, 0, b'a', b'b', b'c']);
    assert_eq!(frame_bytes(&vec![]), vec![0u8; 8]);
    assert_eq!(unframe_bytes(&vec![3, 0, 0, 0, 0, 0, 0, 0, b'a', b'b', b'c']), Some(b"abc".to_vec()));
}

#[test]
fn unframe_fails_on_a_short_frame_and_ignores_what_follows() {
    assert_eq!(unframe_bytes(&vec![]), None);
    assert_eq!(unframe_bytes(&vec![0u8; 7]), None);
    assert_eq!(unframe_bytes(&vec![0u8; 8]), Some(vec![]));
    assert_eq!(unframe_bytes(&vec![2, 0, 0, 0, 0, 0, 0, 0, 9]), None);
    assert_eq!(unframe_bytes(&vec![2, 0, 0, 0, 0, 0, 0, 0, 9, 8, 7]), Some(vec![9, 8]));
    assert_eq!(unframe_bytes(&vec![0, 0, 0, 0, 0, 0, 0, 1, 9]), None);
}

#[test]
fn wire_text_of_known_bytes() {
    assert_eq!(to_wire(&b"abc".to_vec(), Layout::Framed), "k9ZeGasP91zV5c");
    assert_eq!(to_wire(&vec![0u8, 0, 1], Layout::Bare), "112");
    assert_eq!(from_wire(&"k9ZeGasP91zV5c".to_string(), Layout::Framed), Some(b"abc".to_vec()));
    assert_eq!(from_wire(&"112".to_string(), Layout::Bare), Some(vec![0u8, 0, 1]));
    // "112" is base58, but three bytes are no frame
    assert_eq!(from_wire(&"112".to_string(), Layout::Framed), None);
    assert_eq!(from_wire(&"0".to_string(), Layout::Bare), None);
}

#[test]
fn wire_lists_round_trip() {
    let items = vec![vec![], vec![0u8], vec![1u8, 2, 3], vec![255u8; 48]];
    for layout in [Layout::Bare, Layout::Framed] {
        let encoded = to_wire_all(&items, layout);
        assert_eq!(encoded.len(), items.len());
        for (text, bytes) in encoded.iter().zip(items.iter()) {
            assert_eq!(*text, to_wire(bytes, layout));
        }
        assert_eq!(from_wire_all(&encoded, layout), Some(items.clone()));
    }
    let broken = vec!["112".to_string(), "l".to_string()];
    assert_eq!(from_wire_all(&broken, Layout::Bare), None);
    assert_eq!(from_wire_all(&vec![], Layout::Bare), Some(vec![]));
}

#[test]
fn sha2_opening_round_trip() {
    let opening = sample_opening();
    let envelope = sha2_vector_commitment_opening_proof_to_bs58(&opening);
    assert_eq!(envelope.path_leaf_index, 5);
    assert_eq!(envelope.path_auth_path.len(), 3);
    assert_eq!(envelope.root, to_wire(&vec![0, 0, 7, 7], Layout::Framed));
    let back = sha2_vector_commitment_opening_proof_from_bs58(&envelope).unwrap();
    assert!(same_opening(&back, &opening));
}

#[test]
fn sha2_digest_travels_framed() {
    let mut opening = sample_opening();
    opening.root = vec![
        0x66, 0x68, 0x7a, 0xad, 0xf8, 0x62, 0xbd, 0x77, 0x6c, 0x8f, 0xc1, 0x8b, 0x8e, 0x9f, 0x8e,
        0x20, 0x08, 0x97, 0x14, 0x85, 0x6e, 0xe2, 0x33, 0xb3, 0x90, 0x2a, 0x59, 0x1d, 0x0d, 0x5f,
        0x29, 0x25,
    ];
    let framed = sha2_vector_commitment_opening_proof_to_bs58(&opening);
    assert_eq!(framed.root, "2bDkyNhW9LBUh97ELwgN7SBVdPS2Jt79vn8jY5vtnDS1Dmyq976Ezqi");
    let bare = jubjub_vector_commitment_opening_proof_MTEdOnBw6_761_to_bs58(&opening);
    assert_eq!(bare.root, "7tkzFg8RHBmMw1ncRJZCCZAizgq4rwCftTKYLce8RU8t");
}

#[test]
fn jubjub_opening_round_trip() {
    let mut opening = sample_opening();
    opening.record = point();
    let outer = jubjub_vector_commitment_opening_proof_MTEdOnBw6_761_to_bs58(&opening);
    let back = jubjub_vector_commitment_opening_proof_MTEdOnBw6_761_from_bs58(&outer).unwrap();
    assert!(same_opening(&back, &opening));
    let inner = jubjub_vector_commitment_opening_proof_MTEdOnBls12_377_to_bs58(&opening);
    let back = jubjub_vector_commitment_opening_proof_MTEdOnBls12_377_from_bs58(&inner).unwrap();
    assert!(same_opening(&back, &opening));
    assert_eq!(outer.root, encode(&opening.root));
    assert_eq!(outer.record, inner.record);
}

#[test]
fn jubjub_opening_needs_a_point_as_its_record() {
    // 32 bytes of fours are text, but no point of the curve
    let opening = sample_opening();
    let envelope = jubjub_vector_commitment_opening_proof_MTEdOnBw6_761_to_bs58(&opening);
    assert_eq!(envelope.record, encode(&opening.record));
    assert!(jubjub_vector_commitment_opening_proof_MTEdOnBw6_761_from_bs58(&envelope).is_none());
    assert!(jubjub_vector_commitment_opening_proof_MTEdOnBls12_377_from_bs58(&envelope).is_none());
}

#[test]
fn opening_with_a_bad_part_is_refused() {
    let mut opening = sample_opening();
    opening.record = point();
    let good = sha2_vector_commitment_opening_proof_to_bs58(&opening);
    let mut bad = good.clone();
    bad.root = "not base58!".to_string();
    assert!(sha2_vector_commitment_opening_proof_from_bs58(&bad).is_none());
    let mut bad = good.clone();
    bad.path_auth_path[1] = "0".to_string();
    assert!(sha2_vector_commitment_opening_proof_from_bs58(&bad).is_none());
    let mut bad = good.clone();
    bad.record = "112".to_string();
    assert!(sha2_vector_commitment_opening_proof_from_bs58(&bad).is_none());
    let bare = jubjub_vector_commitment_opening_proof_MTEdOnBw6_761_to_bs58(&opening);
    assert!(jubjub_vector_commitment_opening_proof_MTEdOnBw6_761_from_bs58(&bare).is_some());
    let mut bad = bare.clone();
    bad.path_leaf_sibling_hash = "I".to_string();
    assert!(jubjub_vector_commitment_opening_proof_MTEdOnBls12_377_from_bs58(&bad).is_none());
}

#[test]
fn field_element_round_trip() {
    let field = scalar(123456789);
    let envelope = field_element_to_bs58(&field);
    assert_eq!(envelope.field, encode(&field));
    assert_eq!(field_element_from_bs58(&envelope), Some(field));
    assert_eq!(field_element_from_bs58(&FieldElementBs58 { field: "O0".to_string() }), None);
}

#[test]
fn text_that_is_no_field_element_is_refused() {
    // at or above the modulus, and too short
    let large = field_element_to_bs58(&vec![255u8; 32]);
    assert_eq!(field_element_from_bs58(&large), None);
    let short = field_element_to_bs58(&vec![1u8; 31]);
    assert_eq!(field_element_from_bs58(&short), None);
    let zero = field_element_to_bs58(&vec![0u8; 32]);
    assert_eq!(field_element_from_bs58(&zero), Some(vec![0u8; 32]));
}

#[test]
fn coin_round_trip() {
    let coin: Vec<Vec<u8>> = (0u64..5).map(scalar).collect();
    let envelope = coin_to_bs58(&coin);
    assert_eq!(envelope.fields.len(), NUM_FIELDS);
    assert_eq!(envelope.fields[3], encode(&scalar(3)));
    assert_eq!(coin_from_bs58(&envelope), Some(coin));
}

#[test]
fn coin_with_wrong_number_of_fields_is_refused() {
    let one = encode(&scalar(1));
    let four = CoinBs58 { fields: vec![one.clone(); 4] };
    assert_eq!(coin_from_bs58(&four), None);
    let six = CoinBs58 { fields: vec![one.clone(); 6] };
    assert_eq!(coin_from_bs58(&six), None);
    let mut five = CoinBs58 { fields: vec![one.clone(); 5] };
    assert_eq!(coin_from_bs58(&five), Some(vec![scalar(1); 5]));
    five.fields[4] = "l".to_string();
    assert_eq!(coin_from_bs58(&five), None);
    // base58, but three bytes are no field element
    five.fields[4] = "112".to_string();
    assert_eq!(coin_from_bs58(&five), None);
}

#[test]
fn groth_proof_text() {
    let proof = vec![5u8; 96];
    let inputs = vec![vec![1u8; 48], vec![0u8; 48], vec![2u8; 48]];
    let envelope = groth_proof_to_bs58(&proof, &inputs);
    assert_eq!(envelope.proof, encode(&proof));
    assert_eq!(envelope.public_inputs.len(), 3);
    assert_eq!(envelope.public_inputs[0], encode(&inputs[0]));
    assert_eq!(envelope.public_inputs[2], encode(&inputs[2]));
    let copy = envelope.duplicate();
    assert_eq!(copy.proof, envelope.proof);
    assert_eq!(copy.public_inputs, envelope.public_inputs);
    // 96 bytes of fives are text, but no proof
    assert_eq!(groth_proof_from_bs58(&envelope), None);
}

#[test]
fn groth_proof_with_a_bad_string_is_refused() {
    let bad_proof = GrothProofBs58 { proof: "0".to_string(), public_inputs: vec![] };
    assert_eq!(groth_proof_from_bs58(&bad_proof), None);
    let bad_input = GrothProofBs58 {
        proof: "112".to_string(),
        public_inputs: vec!["112".to_string(), "O".to_string()],
    };
    assert_eq!(groth_proof_from_bs58(&bad_input), None);
    let no_proof = GrothProofBs58 { proof: "112".to_string(), public_inputs: vec![] };
    assert_eq!(groth_proof_from_bs58(&no_proof), None);
}

#[test]
fn plonk_proof_round_trip() {
    let proof = PlonkProof {
        input_coins_com: vec![point(), point()],
        output_coins_com: vec![point()],
        quotient_com: point(),
        additional_com: vec![],
        input_coins_opening: vec![scalar(5)],
        output_coins_opening: vec![scalar(6), scalar(7)],
        quotient_opening: scalar(8),
        additional_opening: vec![scalar(9)],
        input_coins_opening_proof: vec![point()],
        output_coins_opening_proof: vec![point()],
        quotient_opening_proof: point(),
        additional_opening_proof: vec![point()],
    };
    let envelope = plonk_proof_to_bs58(&proof);
    assert_eq!(envelope.quotient_com, encode(&proof.quotient_com));
    assert_eq!(envelope.output_coins_opening[1], encode(&scalar(7)));
    let back = plonk_proof_from_bs58(&envelope).unwrap();
    assert_eq!(back.input_coins_com, proof.input_coins_com);
    assert_eq!(back.output_coins_com, proof.output_coins_com);
    assert_eq!(back.quotient_com, proof.quotient_com);
    assert_eq!(back.additional_com, proof.additional_com);
    assert_eq!(back.input_coins_opening, proof.input_coins_opening);
    assert_eq!(back.output_coins_opening, proof.output_coins_opening);
    assert_eq!(back.quotient_opening, proof.quotient_opening);
    assert_eq!(back.additional_opening, proof.additional_opening);
    assert_eq!(back.input_coins_opening_proof, proof.input_coins_opening_proof);
    assert_eq!(back.output_coins_opening_proof, proof.output_coins_opening_proof);
    assert_eq!(back.quotient_opening_proof, proof.quotient_opening_proof);
    assert_eq!(back.additional_opening_proof, proof.additional_opening_proof);
    let mut bad = envelope.clone();
    bad.quotient_opening_proof = "l".to_string();
    assert!(plonk_proof_from_bs58(&bad).is_none());
    // a field element where a point is due, and a point where a field element is due
    let mut bad = envelope.clone();
    bad.quotient_com = encode(&scalar(8));
    assert!(plonk_proof_from_bs58(&bad).is_none());
    let mut bad = envelope.clone();
    bad.additional_opening[0] = encode(&vec![255u8; 32]);
    assert!(plonk_proof_from_bs58(&bad).is_none());
}

#[test]
fn public_input_positions() {
    assert_eq!(PaymentGrothPublicInput::ROOT_X.index(), 0);
    assert_eq!(PaymentGrothPublicInput::ROOT_Y.index(), 1);
    assert_eq!(PaymentGrothPublicInput::NULLIFIER.index(), 2);
    assert_eq!(PaymentGrothPublicInput::COMMITMENT_X.index(), 3);
    assert_eq!(PaymentGrothPublicInput::COMMITMENT_Y.index(), 4);
    assert_eq!(PaymentGrothPublicInput::COUNT, 5);
    assert_eq!(OnrampGrothPublicInput::ASSET_ID.index(), 0);
    assert_eq!(OnrampGrothPublicInput::AMOUNT.index(), 1);
    assert_eq!(OnrampGrothPublicInput::COMMITMENT_X.index(), 2);
    assert_eq!(OnrampGrothPublicInput::COMMITMENT_Y.index(), 3);
    assert_eq!(OnrampGrothPublicInput::COUNT, 4);
    assert_eq!(MerkleUpdateGrothPublicInput::LEAF_INDEX.index(), 0);
    assert_eq!(MerkleUpdateGrothPublicInput::LEAF_VALUE_X.index(), 1);
    assert_eq!(MerkleUpdateGrothPublicInput::LEAF_VALUE_Y.index(), 2);
    assert_eq!(MerkleUpdateGrothPublicInput::OLD_ROOT_X.index(), 3);
    assert_eq!(MerkleUpdateGrothPublicInput::OLD_ROOT_Y.index(), 4);
    assert_eq!(MerkleUpdateGrothPublicInput::NEW_ROOT_X.index(), 5);
    assert_eq!(MerkleUpdateGrothPublicInput::NEW_ROOT_Y.index(), 6);
    assert_eq!(MerkleUpdateGrothPublicInput::COUNT, 7);
}
