//! The canonical framing of a variable-length byte string: its length as
//! eight little-endian bytes, then the bytes. It is the form in which
//! `ark-serialize` writes a byte vector.

use vstd::arithmetic::div_mod::lemma_div_denominator;
use vstd::prelude::*;

verus! {

/// The eight bytes of `n`, least significant first.
pub open spec fn le_bytes8(n: nat) -> Seq<u8> {
    seq![
        (n % 256) as u8,
        ((n / 0x100) % 256) as u8,
        ((n / 0x1_0000) % 256) as u8,
        ((n / 0x100_0000) % 256) as u8,
        ((n / 0x1_0000_0000) % 256) as u8,
        ((n / 0x100_0000_0000) % 256) as u8,
        ((n / 0x1_0000_0000_0000) % 256) as u8,
        ((n / 0x100_0000_0000_0000) % 256) as u8,
    ]
}

/// The number that the first eight bytes of `bytes` spell, least
/// significant first.
pub open spec fn le_value8(bytes: Seq<u8>) -> nat {
    (bytes[0] as nat) + (bytes[1] as nat) * 0x100 + (bytes[2] as nat) * 0x1_0000 + (
    bytes[3] as nat) * 0x100_0000 + (bytes[4] as nat) * 0x1_0000_0000 + (bytes[5] as nat)
        * 0x100_0000_0000 + (bytes[6] as nat) * 0x1_0000_0000_0000 + (bytes[7] as nat)
        * 0x100_0000_0000_0000
}

/// A byte string with its length in front.
pub open spec fn framed(data: Seq<u8>) -> Seq<u8> {
    le_bytes8(data.len()) + data
}

/// The byte string that a frame holds: the bytes that follow the length,
/// as many as the length says. `None` if the frame is cut short. Bytes
/// after the frame are ignored.
pub open spec fn unframed(frame: Seq<u8>) -> Option<Seq<u8>> {
    if frame.len() >= 8 && le_value8(frame) <= frame.len() - 8 {
        Some(frame.subrange(8, 8 + le_value8(frame) as int))
    } else {
        None
    }
}

/// Eight little-endian bytes spell the number they were made from.
pub proof fn lemma_le_bytes8_value(n: nat)
    requires
        n <= u64::MAX,
    ensures
        le_bytes8(n).len() == 8,
        le_value8(le_bytes8(n)) == n,
{
    let n = n as int;
    let q1 = n / 0x100;
    let q2 = q1 / 0x100;
    let q3 = q2 / 0x100;
    let q4 = q3 / 0x100;
    let q5 = q4 / 0x100;
    let q6 = q5 / 0x100;
    let q7 = q6 / 0x100;
    lemma_div_denominator(n, 0x100, 0x100);
    lemma_div_denominator(n, 0x1_0000, 0x100);
    lemma_div_denominator(n, 0x100_0000, 0x100);
    lemma_div_denominator(n, 0x1_0000_0000, 0x100);
    lemma_div_denominator(n, 0x100_0000_0000, 0x100);
    lemma_div_denominator(n, 0x1_0000_0000_0000, 0x100);
    assert(q2 == n / 0x1_0000);
    assert(q3 == n / 0x100_0000);
    assert(q4 == n / 0x1_0000_0000);
    assert(q5 == n / 0x100_0000_0000);
    assert(q6 == n / 0x1_0000_0000_0000);
    assert(q7 == n / 0x100_0000_0000_0000);
    assert(q7 < 256);
    assert(n == n % 256 + 0x100 * q1);
    assert(q1 == q1 % 256 + 0x100 * q2);
    assert(q2 == q2 % 256 + 0x100 * q3);
    assert(q3 == q3 % 256 + 0x100 * q4);
    assert(q4 == q4 % 256 + 0x100 * q5);
    assert(q5 == q5 % 256 + 0x100 * q6);
    assert(q6 == q6 % 256 + 0x100 * q7);
    assert(q7 == q7 % 256);
    let bytes = le_bytes8(n as nat);
    assert(bytes[0] == (n % 256) as u8);
    assert(bytes[1] == (q1 % 256) as u8);
    assert(bytes[2] == (q2 % 256) as u8);
    assert(bytes[3] == (q3 % 256) as u8);
    assert(bytes[4] == (q4 % 256) as u8);
    assert(bytes[5] == (q5 % 256) as u8);
    assert(bytes[6] == (q6 % 256) as u8);
    assert(bytes[7] == (q7 % 256) as u8);
}

/// Taking a frame apart gives back what was framed.
pub proof fn lemma_unframed_framed(data: Seq<u8>)
    requires
        data.len() <= u64::MAX,
    ensures
        unframed(framed(data)) == Some(data),
{
    lemma_le_bytes8_value(data.len());
    let frame = framed(data);
    assert(le_value8(frame) == le_value8(le_bytes8(data.len())));
    assert(frame.subrange(8, 8 + data.len() as int) =~= data);
}

/// The eight bytes of `n`, least significant first.
pub fn le_bytes_of(n: u64) -> (bytes: Vec<u8>)
    ensures
        bytes@ == le_bytes8(n as nat),
{
    let mut bytes: Vec<u8> = Vec::new();
    bytes.push((n % 256) as u8);
    bytes.push(((n / 0x100) % 256) as u8);
    bytes.push(((n / 0x1_0000) % 256) as u8);
    bytes.push(((n / 0x100_0000) % 256) as u8);
    bytes.push(((n / 0x1_0000_0000) % 256) as u8);
    bytes.push(((n / 0x100_0000_0000) % 256) as u8);
    bytes.push(((n / 0x1_0000_0000_0000) % 256) as u8);
    bytes.push(((n / 0x100_0000_0000_0000) % 256) as u8);
    assert(bytes@ =~= le_bytes8(n as nat));
    bytes
}

/// Frames a byte slice: its length as eight little-endian bytes, then the
/// bytes.
pub fn frame_slice(data: &[u8]) -> (frame: Vec<u8>)
    ensures
        frame@ == framed(data@),
        unframed(frame@) == Some(data@),
{
    let length: usize = data.len();
    proof {
        assert(length <= u64::MAX);
        lemma_unframed_framed(data@);
    }
    let mut frame = le_bytes_of(length as u64);
    let mut i: usize = 0;
    while i < length
        invariant
            i <= length,
            length == data@.len(),
            frame@ == le_bytes8(length as nat) + data@.take(i as int),
        decreases length - i,
    {
        frame.push(data[i]);
        proof {
            assert(data@.take(i + 1) =~= data@.take(i as int).push(data@[i as int]));
            assert(frame@ =~= le_bytes8(length as nat) + data@.take(i + 1));
        }
        i += 1;
    }
    proof {
        assert(data@.take(length as int) =~= data@);
    }
    frame
}

/// Frames `data`.
pub fn frame_bytes(data: &Vec<u8>) -> (frame: Vec<u8>)
    ensures
        frame@ == framed(data@),
        unframed(frame@) == Some(data@),
{
    frame_slice(data.as_slice())
}

/// Takes a frame apart: reads the length from the first eight bytes and
/// then as many bytes as it says. `None` if the frame is cut short; what
/// follows the frame is left unread.
pub fn unframe_bytes(frame: &Vec<u8>) -> (data: Option<Vec<u8>>)
    ensures
        match data {
            Some(bytes) => unframed(frame@) == Some(bytes@),
            None => unframed(frame@) is None,
        },
{
    if frame.len() < 8 {
        return None;
    }
    let length: u64 = frame[0] as u64 + frame[1] as u64 * 0x100 + frame[2] as u64 * 0x1_0000
        + frame[3] as u64 * 0x100_0000 + frame[4] as u64 * 0x1_0000_0000 + frame[5] as u64
        * 0x100_0000_0000 + frame[6] as u64 * 0x1_0000_0000_0000 + frame[7] as u64
        * 0x100_0000_0000_0000;
    assert(length as nat == le_value8(frame@));
    let rest: usize = frame.len() - 8;
    if length > rest as u64 {
        return None;
    }
    let count: usize = length as usize;
    let mut data: Vec<u8> = Vec::new();
    let mut i: usize = 0;
    while i < count
        invariant
            i <= count,
            8 + count <= frame@.len(),
            frame@.len() <= usize::MAX,
            data@ == frame@.subrange(8, 8 + i),
        decreases count - i,
    {
        data.push(frame[8 + i]);
        proof {
            assert(data@ =~= frame@.subrange(8, 8 + i + 1));
        }
        i += 1;
    }
    Some(data)
}

} // verus!
