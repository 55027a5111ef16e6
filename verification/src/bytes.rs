//! Small helpers on byte strings.

use vstd::prelude::*;

verus! {

/// A copy of `bytes`.
pub fn copy_bytes(bytes: &Vec<u8>) -> (out: Vec<u8>)
    ensures
        out@ == bytes@,
{
    let out = bytes.clone();
    assert(out@ =~= bytes@);
    out
}

/// Whether two byte strings are equal.
pub fn same_bytes(left: &Vec<u8>, right: &Vec<u8>) -> (same: bool)
    ensures
        same == (left@ == right@),
{
    let same = left == right;
    proof {
        if same {
            assert(left@ =~= right@);
        }
    }
    same
}

/// `count` zero bytes.
pub fn zero_bytes(count: usize) -> (out: Vec<u8>)
    ensures
        out@ == Seq::new(count as nat, |i: int| 0u8),
{
    let out: Vec<u8> = vec![0u8; count];
    assert(out@ =~= Seq::new(count as nat, |i: int| 0u8));
    out
}

} // verus!
