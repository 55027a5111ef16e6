//! Turning byte strings into elements of the proof system's field.

use ark_bw6_761::Fr;
use ark_ff::{BigInt, BigInteger};
use ark_serialize::CanonicalSerialize;
use vstd::prelude::*;

verus! {

/// The longest byte string that is turned into a field element: its
/// 376 bits stay below the 377-bit modulus.
pub const MAX_FIELD_BYTES: usize = 47;

/// Bit `place` of `byte`, counted from the least significant.
pub open spec fn bit_of(byte: u8, place: u8) -> bool {
    (byte >> place) & 1 == 1
}

/// The bits of a byte string: byte after byte, each from its least
/// significant bit.
pub open spec fn bits_of(bytes: Seq<u8>) -> Seq<bool> {
    Seq::new(8 * bytes.len(), |k: int| bit_of(bytes[k / 8], (k % 8) as u8))
}

/// Number of bytes of a serialized element of the scalar field of
/// BW6-761.
pub const ELEMENT_BYTES: usize = 48;

/// What bit `at` of `bits` adds to a number if it counts `weight`.
pub open spec fn bit_value(bits: Seq<bool>, at: int, weight: nat) -> nat {
    if 0 <= at < bits.len() && bits[at] {
        weight
    } else {
        0
    }
}

/// The byte that the eight bits of `bits` from `8 * index` on spell,
/// least significant first; bits past the end count as zero.
pub open spec fn byte_of_bits(bits: Seq<bool>, index: int) -> u8 {
    (bit_value(bits, 8 * index, 1) + bit_value(bits, 8 * index + 1, 2) + bit_value(
        bits,
        8 * index + 2,
        4,
    ) + bit_value(bits, 8 * index + 3, 8) + bit_value(bits, 8 * index + 4, 16) + bit_value(
        bits,
        8 * index + 5,
        32,
    ) + bit_value(bits, 8 * index + 6, 64) + bit_value(bits, 8 * index + 7, 128)) as u8
}

/// The element of the scalar field of BW6-761 whose value is the number
/// that `bits` spell from the least significant bit, in its serialized
/// form: the number in 48 bytes, least significant first. For at most 376
/// bits the number is below the modulus.
pub open spec fn field_of_bits(bits: Seq<bool>) -> Seq<u8> {
    Seq::new(ELEMENT_BYTES as nat, |i: int| byte_of_bits(bits, i))
}

/// Calls `BigInt::<6>::from_bits_le` and `Fr::from` of `ark-ff` and
/// serializes the element with `ark-serialize`. The first gives the
/// number that the bits spell from the least significant one; the second
/// takes it as the element of that value and panics at or above the
/// modulus, which more than 376 bits could spell, so longer inputs are
/// left out; the third writes the value in 48 bytes, least significant
/// first.
#[verifier::external_body]
pub(crate) fn field_from_bits_le(bits: &Vec<bool>) -> (field: Vec<u8>)
    requires
        bits@.len() <= 8 * MAX_FIELD_BYTES,
    ensures
        field@ == field_of_bits(bits@),
{
    let element = Fr::from(BigInt::<6>::from_bits_le(bits.as_slice()));
    let mut field: Vec<u8> = Vec::new();
    element.serialize_compressed(&mut field).unwrap();
    field
}

/// A byte is the sum of its bits.
pub proof fn lemma_byte_is_sum_of_bits(byte: u8)
    ensures
        byte as nat == (if bit_of(byte, 0) { 1nat } else { 0 }) + (if bit_of(byte, 1) { 2nat } else {
            0
        }) + (if bit_of(byte, 2) { 4nat } else { 0 }) + (if bit_of(byte, 3) { 8nat } else { 0 })
            + (if bit_of(byte, 4) { 16nat } else { 0 }) + (if bit_of(byte, 5) { 32nat } else { 0 })
            + (if bit_of(byte, 6) { 64nat } else { 0 }) + (if bit_of(byte, 7) { 128nat } else {
            0
        }),
{
    assert((byte >> 0u8) & 1 == 1 <==> byte & 1 == 1) by (bit_vector);
    assert((byte >> 1u8) & 1 == 1 <==> byte & 2 == 2) by (bit_vector);
    assert((byte >> 2u8) & 1 == 1 <==> byte & 4 == 4) by (bit_vector);
    assert((byte >> 3u8) & 1 == 1 <==> byte & 8 == 8) by (bit_vector);
    assert((byte >> 4u8) & 1 == 1 <==> byte & 16 == 16) by (bit_vector);
    assert((byte >> 5u8) & 1 == 1 <==> byte & 32 == 32) by (bit_vector);
    assert((byte >> 6u8) & 1 == 1 <==> byte & 64 == 64) by (bit_vector);
    assert((byte >> 7u8) & 1 == 1 <==> byte & 128 == 128) by (bit_vector);
    assert(byte == (byte & 1) + (byte & 2) + (byte & 4) + (byte & 8) + (byte & 16) + (byte & 32)
        + (byte & 64) + (byte & 128)) by (bit_vector);
    assert(byte & 1 == 0 || byte & 1 == 1) by (bit_vector);
    assert(byte & 2 == 0 || byte & 2 == 2) by (bit_vector);
    assert(byte & 4 == 0 || byte & 4 == 4) by (bit_vector);
    assert(byte & 8 == 0 || byte & 8 == 8) by (bit_vector);
    assert(byte & 16 == 0 || byte & 16 == 16) by (bit_vector);
    assert(byte & 32 == 0 || byte & 32 == 32) by (bit_vector);
    assert(byte & 64 == 0 || byte & 64 == 64) by (bit_vector);
    assert(byte & 128 == 0 || byte & 128 == 128) by (bit_vector);
}

/// The field element that a byte string spells is the byte string
/// followed by zero bytes, 48 bytes in all.
pub proof fn lemma_field_of_bytes(bytes: Seq<u8>)
    requires
        bytes.len() <= MAX_FIELD_BYTES,
    ensures
        field_of_bits(bits_of(bytes)) == bytes + Seq::new(
            (ELEMENT_BYTES - bytes.len()) as nat,
            |i: int| 0u8,
        ),
{
    let bits = bits_of(bytes);
    let padded = bytes + Seq::new((ELEMENT_BYTES - bytes.len()) as nat, |i: int| 0u8);
    assert forall|i: int| 0 <= i < ELEMENT_BYTES implies field_of_bits(bits)[i] == padded[i] by {
        if i < bytes.len() {
            lemma_byte_is_sum_of_bits(bytes[i]);
            assert(bits[8 * i] == bit_of(bytes[i], 0));
            assert(bits[8 * i + 1] == bit_of(bytes[i], 1));
            assert(bits[8 * i + 2] == bit_of(bytes[i], 2));
            assert(bits[8 * i + 3] == bit_of(bytes[i], 3));
            assert(bits[8 * i + 4] == bit_of(bytes[i], 4));
            assert(bits[8 * i + 5] == bit_of(bytes[i], 5));
            assert(bits[8 * i + 6] == bit_of(bytes[i], 6));
            assert(bits[8 * i + 7] == bit_of(bytes[i], 7));
        }
    }
    assert(field_of_bits(bits) =~= padded);
}

/// Byte strings of one length spell different field elements unless they
/// are equal.
pub proof fn lemma_field_tells_bytes(first: Seq<u8>, second: Seq<u8>)
    requires
        first.len() == second.len(),
        first.len() <= MAX_FIELD_BYTES,
        field_of_bits(bits_of(first)) == field_of_bits(bits_of(second)),
    ensures
        first == second,
{
    lemma_field_of_bytes(first);
    lemma_field_of_bytes(second);
    let a = field_of_bits(bits_of(first));
    assert forall|i: int| 0 <= i < first.len() implies first[i] == second[i] by {
        assert(a[i] == first[i]);
        assert(a[i] == second[i]);
    }
    assert(first =~= second);
}

/// The bits of `bytes`, byte after byte, each from its least significant
/// bit.
pub fn bytes_to_bits(bytes: &[u8]) -> (bits: Vec<bool>)
    ensures
        bits@ == bits_of(bytes@),
{
    let mut bits: Vec<bool> = Vec::new();
    let mut index: usize = 0;
    while index < bytes.len()
        invariant
            index <= bytes@.len(),
            bits@.len() == 8 * index,
            forall|k: int|
                0 <= k < bits@.len() ==> #[trigger] bits@[k] == bit_of(
                    bytes@[k / 8],
                    (k % 8) as u8,
                ),
        decreases bytes@.len() - index,
    {
        let byte: u8 = bytes[index];
        let mut i: u8 = 0;
        while i < 8
            invariant
                i <= 8,
                index < bytes@.len(),
                byte == bytes@[index as int],
                bits@.len() == 8 * index + i,
                forall|k: int|
                    0 <= k < bits@.len() ==> #[trigger] bits@[k] == bit_of(
                        bytes@[k / 8],
                        (k % 8) as u8,
                    ),
            decreases 8 - i,
        {
            let bit: u8 = (byte >> i) & 1;
            bits.push(bit == 1);
            i += 1;
        }
        index += 1;
    }
    assert(bits@ =~= bits_of(bytes@));
    bits
}

/// The field element that `bytes` spells in little-endian order, in its
/// serialized form.
pub fn bytes_to_field(bytes: &[u8]) -> (field: Vec<u8>)
    requires
        bytes@.len() <= MAX_FIELD_BYTES,
    ensures
        field@ == field_of_bits(bits_of(bytes@)),
        field@ == bytes@ + Seq::new((ELEMENT_BYTES - bytes@.len()) as nat, |i: int| 0u8),
{
    proof {
        lemma_field_of_bytes(bytes@);
    }
    let bits = bytes_to_bits(bytes);
    field_from_bits_le(&bits)
}

/// The field element that `bytes` spells, or `None` if `bytes` is too
/// long to stay below the modulus.
pub fn bytes_to_field_checked(bytes: &[u8]) -> (field: Option<Vec<u8>>)
    ensures
        match field {
            Some(element) => bytes@.len() <= MAX_FIELD_BYTES && element@ == field_of_bits(
                bits_of(bytes@),
            ),
            None => bytes@.len() > MAX_FIELD_BYTES,
        },
{
    if bytes.len() <= MAX_FIELD_BYTES {
        Some(bytes_to_field(bytes))
    } else {
        None
    }
}

} // verus!
