//! The Merkle-update statement: writing a leaf at an index turns one root
//! into another.

use crate::bytes::{copy_bytes, same_bytes};
use crate::framing::{le_bytes8, le_bytes_of};
use crate::merkle_db::{bottom_up, opens, verify_opening};
use crate::protocol::{MerkleUpdateGrothPublicInput, VectorCommitmentOpeningProof};
use crate::utils::{bits_of, bytes_to_field, field_of_bits};
use crate::wire::blobs;
use vstd::prelude::*;

verus! {

/// Positions of the public inputs of the Merkle-update proof.
pub type GrothPublicInput = MerkleUpdateGrothPublicInput;

/// The public inputs of the Merkle-update statement: the leaf index as a
/// field element, the leaf, the old root and the new root.
pub open spec fn statement(
    leaf_index: nat,
    leaf_x: Seq<u8>,
    leaf_y: Seq<u8>,
    old_root_x: Seq<u8>,
    old_root_y: Seq<u8>,
    new_root_x: Seq<u8>,
    new_root_y: Seq<u8>,
) -> Seq<Seq<u8>> {
    seq![
        field_of_bits(bits_of(le_bytes8(leaf_index))),
        leaf_x,
        leaf_y,
        old_root_x,
        old_root_y,
        new_root_x,
        new_root_y,
    ]
}

/// The relation that the Merkle-update proof attests, over a tree of
/// SHA-256 digests: both openings are valid, they show the declared leaf
/// index and share their path, the one before arrives at the old root, and
/// the one after shows the new leaf and arrives at the new root. Nothing
/// is asked of the leaf that was there before.
pub open spec fn relation(
    leaf_index: nat,
    leaf_value: Seq<u8>,
    old_root: Seq<u8>,
    new_root: Seq<u8>,
    old_opening: &VectorCommitmentOpeningProof,
    new_opening: &VectorCommitmentOpeningProof,
) -> bool {
    &&& opens(old_opening)
    &&& opens(new_opening)
    &&& old_opening.path_leaf_index == leaf_index
    &&& new_opening.path_leaf_index == leaf_index
    &&& bottom_up(old_opening) == bottom_up(new_opening)
    &&& old_opening.root@ == old_root
    &&& new_opening.root@ == new_root
    &&& new_opening.record@ == leaf_value
}

/// Whether two lists hold the same byte strings.
fn same_list(left: &Vec<Vec<u8>>, right: &Vec<Vec<u8>>) -> (same: bool)
    ensures
        same == (blobs(left) == blobs(right)),
{
    if left.len() != right.len() {
        proof {
            assert(blobs(left).len() != blobs(right).len());
        }
        return false;
    }
    let mut i: usize = 0;
    while i < left.len()
        invariant
            i <= left@.len(),
            left@.len() == right@.len(),
            forall|k: int| 0 <= k < i ==> (#[trigger] left@[k])@ == right@[k]@,
        decreases left@.len() - i,
    {
        if !same_bytes(&left[i], &right[i]) {
            proof {
                assert(blobs(left)[i as int] != blobs(right)[i as int]);
            }
            return false;
        }
        i += 1;
    }
    proof {
        assert(blobs(left) =~= blobs(right));
    }
    true
}

/// Whether a witness satisfies the relation for the declared index, leaf
/// and roots.
pub fn satisfied(
    leaf_index: usize,
    leaf_value: &Vec<u8>,
    old_root: &Vec<u8>,
    new_root: &Vec<u8>,
    old_opening: &VectorCommitmentOpeningProof,
    new_opening: &VectorCommitmentOpeningProof,
) -> (holds: bool)
    ensures
        holds == relation(
            leaf_index as nat,
            leaf_value@,
            old_root@,
            new_root@,
            old_opening,
            new_opening,
        ),
{
    let same_path = same_bytes(
        &old_opening.path_leaf_sibling_hash,
        &new_opening.path_leaf_sibling_hash,
    ) && same_list(&old_opening.path_auth_path, &new_opening.path_auth_path);
    proof {
        lemma_same_path(old_opening, new_opening);
    }
    verify_opening(old_opening) && verify_opening(new_opening) && old_opening.path_leaf_index
        == leaf_index && new_opening.path_leaf_index == leaf_index && same_path && same_bytes(
        &old_opening.root,
        old_root,
    ) && same_bytes(&new_opening.root, new_root) && same_bytes(&new_opening.record, leaf_value)
}

/// Two openings hold the same siblings exactly if they hold the same
/// sibling of the leaf and the same authentication path.
pub proof fn lemma_same_path(
    first: &VectorCommitmentOpeningProof,
    second: &VectorCommitmentOpeningProof,
)
    ensures
        bottom_up(first) == bottom_up(second) <==> first.path_leaf_sibling_hash@
            == second.path_leaf_sibling_hash@ && blobs(&first.path_auth_path) == blobs(
            &second.path_auth_path,
        ),
{
    let a = bottom_up(first);
    let b = bottom_up(second);
    let m = first.path_auth_path@.len() as int;
    if a == b {
        assert(a.len() == b.len());
        assert(a[0] == b[0]);
        assert forall|k: int| 0 <= k < m implies #[trigger] blobs(&first.path_auth_path)[k]
            == blobs(&second.path_auth_path)[k] by {
            assert(a[m - k] == b[m - k]);
        }
        assert(blobs(&first.path_auth_path) =~= blobs(&second.path_auth_path));
    }
    if first.path_leaf_sibling_hash@ == second.path_leaf_sibling_hash@ && blobs(
        &first.path_auth_path,
    ) == blobs(&second.path_auth_path) {
        assert(blobs(&first.path_auth_path).len() == blobs(&second.path_auth_path).len());
        assert forall|l: int| 0 <= l < a.len() implies #[trigger] a[l] == b[l] by {
            if l > 0 {
                assert(blobs(&first.path_auth_path)[m - l] == blobs(&second.path_auth_path)[m - l]);
            }
        }
        assert(a =~= b);
    }
}

/// Arranges the public inputs of the Merkle-update proof.
pub fn public_inputs(
    leaf_index: usize,
    leaf_x: &Vec<u8>,
    leaf_y: &Vec<u8>,
    old_root_x: &Vec<u8>,
    old_root_y: &Vec<u8>,
    new_root_x: &Vec<u8>,
    new_root_y: &Vec<u8>,
) -> (inputs: Vec<Vec<u8>>)
    ensures
        blobs(&inputs) == statement(
            leaf_index as nat,
            leaf_x@,
            leaf_y@,
            old_root_x@,
            old_root_y@,
            new_root_x@,
            new_root_y@,
        ),
{
    let index_bytes = le_bytes_of(leaf_index as u64);
    let mut inputs: Vec<Vec<u8>> = Vec::new();
    inputs.push(bytes_to_field(index_bytes.as_slice()));
    inputs.push(copy_bytes(leaf_x));
    inputs.push(copy_bytes(leaf_y));
    inputs.push(copy_bytes(old_root_x));
    inputs.push(copy_bytes(old_root_y));
    inputs.push(copy_bytes(new_root_x));
    inputs.push(copy_bytes(new_root_y));
    assert(blobs(&inputs) =~= statement(
        leaf_index as nat,
        leaf_x@,
        leaf_y@,
        old_root_x@,
        old_root_y@,
        new_root_x@,
        new_root_y@,
    ));
    inputs
}

} // verus!
