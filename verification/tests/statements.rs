use ark_bw6_761::Fr;
use ark_serialize::CanonicalSerialize;
use sanctum::merkle_update_circuit;
use sanctum::note::{
    conserves_value, create_array, get_dummy_utxo, Note, AMOUNT, ASSET_ID, ENTROPY, OWNER, RHO,
};
use sanctum::onramp_circuit;
use sanctum::payment_circuit;
use sanctum::utils::{bytes_to_bits, bytes_to_field, bytes_to_field_checked};

fn field(value: u64) -> Vec<u8> {
    let mut out = Vec::new();
    Fr::from(value).serialize_compressed(&mut out).unwrap();
    out
}

fn note(owner: u8, asset_id: u8, amount: u8) -> Note {
    Note::new(
        create_array(0),
        vec![owner; 31],
        create_array(asset_id),
        create_array(amount),
        create_array(0),
        vec![0u8; 31],
    )
    .unwrap()
}

#[test]
fn bits_run_from_the_least_significant() {
    assert_eq!(bytes_to_bits(&[]), Vec::<bool>::new());
    assert_eq!(
        bytes_to_bits(&[1]),
        vec![true, false, false, false, false, false, false, false]
    );
    assert_eq!(
        bytes_to_bits(&[0x80, 0x05]),
        vec![
            false, false, false, false, false, false, false, true, true, false, true, false,
            false, false, false, false
        ]
    );
    assert_eq!(bytes_to_bits(&[255u8; 31]), vec![true; 248]);
}

#[test]
fn bytes_spell_a_field_element_little_endian() {
    assert_eq!(bytes_to_field(&[]), field(0));
    assert_eq!(bytes_to_field(&[10]), field(10));
    assert_eq!(bytes_to_field(&[0x34, 0x12]), field(0x1234));
    assert_eq!(bytes_to_field(&create_array(1)), field(1));
    assert_eq!(bytes_to_field(&[1, 2, 3, 4, 5, 6, 7, 8]), field(0x0807060504030201));
    // the serialized element is the number in 48 little-endian bytes
    let mut expected = vec![7u8; 47];
    expected.push(0);
    assert_eq!(bytes_to_field(&[7u8; 47]), expected);
}

#[test]
fn too_many_bytes_spell_no_field_element() {
    assert_eq!(bytes_to_field_checked(&[10]), Some(field(10)));
    assert!(bytes_to_field_checked(&[255u8; 47]).is_some());
    assert_eq!(bytes_to_field_checked(&[0u8; 48]), None);
    assert_eq!(bytes_to_field_checked(&[1u8; 100]), None);
}

#[test]
fn small_scalar_array() {
    let arr = create_array(10);
    assert_eq!(arr.len(), 31);
    assert_eq!(arr[0], 10);
    assert!(arr[1..].iter().all(|b| *b == 0));
}

#[test]
fn note_fields_are_31_bytes() {
    let made = note(3, 1, 10);
    assert_eq!(made.field(ENTROPY), vec![0u8; 31]);
    assert_eq!(made.field(OWNER), vec![3u8; 31]);
    assert_eq!(made.field(ASSET_ID), create_array(1));
    assert_eq!(made.field(AMOUNT), create_array(10));
    assert_eq!(made.field(RHO), vec![0u8; 31]);
    assert_eq!(made.blinding(), vec![0u8; 31]);
    let short = Note::new(
        vec![0u8; 31],
        vec![0u8; 30],
        vec![0u8; 31],
        vec![0u8; 31],
        vec![0u8; 31],
        vec![0u8; 31],
    );
    assert!(short.is_none());
    let long_blind = Note::new(
        vec![0u8; 31],
        vec![0u8; 31],
        vec![0u8; 31],
        vec![0u8; 31],
        vec![0u8; 31],
        vec![0u8; 32],
    );
    assert!(long_blind.is_none());
}

#[test]
fn dummy_note_is_all_zero() {
    let dummy = get_dummy_utxo();
    for index in 0..5 {
        assert_eq!(dummy.field(index), vec![0u8; 31]);
    }
    assert_eq!(dummy.blinding(), vec![0u8; 31]);
}

#[test]
fn payment_keeps_asset_and_amount() {
    let input = note(1, 1, 10);
    assert!(conserves_value(&input, &note(2, 1, 10)));
    assert!(!conserves_value(&input, &note(2, 2, 10)));
    assert!(!conserves_value(&input, &note(2, 1, 11)));
    assert!(!conserves_value(&input, &note(1, 10, 1)));
}

#[test]
fn onramp_inputs_declare_asset_then_amount_then_commitment() {
    let utxo = note(1, 1, 10);
    let inputs = onramp_circuit::public_inputs(&utxo, &vec![8u8; 48], &vec![9u8; 48]);
    assert_eq!(inputs, vec![field(1), field(10), vec![8u8; 48], vec![9u8; 48]]);
    assert!(onramp_circuit::declares_note(&inputs, &utxo));
}

#[test]
fn onramp_inputs_with_another_asset_do_not_declare_the_note() {
    let utxo = note(1, 1, 10);
    let declared = vec![field(2), field(10), vec![8u8; 48], vec![9u8; 48]];
    assert!(!onramp_circuit::declares_note(&declared, &utxo));
    let declared = vec![field(1), field(11), vec![8u8; 48], vec![9u8; 48]];
    assert!(!onramp_circuit::declares_note(&declared, &utxo));
    let declared = vec![field(1), field(10), vec![8u8; 48]];
    assert!(!onramp_circuit::declares_note(&declared, &utxo));
    let declared = vec![field(1), field(10), vec![0u8; 48], vec![0u8; 48]];
    assert!(onramp_circuit::declares_note(&declared, &utxo));
}

#[test]
fn payment_inputs_are_root_nullifier_commitment() {
    let nullifier = vec![3u8; 32];
    let inputs = payment_circuit::public_inputs(
        &vec![1u8; 48],
        &vec![2u8; 48],
        &nullifier,
        &vec![4u8; 48],
        &vec![5u8; 48],
    );
    let mut as_field = vec![3u8; 32];
    as_field.extend_from_slice(&[0u8; 16]);
    assert_eq!(
        inputs,
        vec![vec![1u8; 48], vec![2u8; 48], as_field, vec![4u8; 48], vec![5u8; 48]]
    );
}

#[test]
fn merkle_update_inputs_are_index_leaf_old_root_new_root() {
    let inputs = merkle_update_circuit::public_inputs(
        258,
        &vec![1u8; 48],
        &vec![2u8; 48],
        &vec![3u8; 48],
        &vec![4u8; 48],
        &vec![5u8; 48],
        &vec![6u8; 48],
    );
    assert_eq!(
        inputs,
        vec![
            field(258),
            vec![1u8; 48],
            vec![2u8; 48],
            vec![3u8; 48],
            vec![4u8; 48],
            vec![5u8; 48],
            vec![6u8; 48]
        ]
    );
}
