//! The mathematical Merkle tree that the ledger's data structures are
//! measured against: the table of empty subtrees, the node at any position
//! of a tree whose leaves are filled from the left, and the facts about
//! positions that the append algorithm rests on.

use crate::hash::sha256;
use vstd::prelude::*;

verus! {

/// The value of a leaf slot that holds no note yet: 32 zero bytes.
pub open spec fn empty_leaf() -> Seq<u8> {
    Seq::new(32, |i: int| 0u8)
}

/// The digest of an empty subtree of the given height. Height 0 is the
/// digest of the empty leaf; each further height hashes two copies of the
/// one below it.
pub open spec fn zero_hash(level: nat) -> Seq<u8>
    decreases level,
{
    if level == 0 {
        sha256(empty_leaf())
    } else {
        sha256(zero_hash((level - 1) as nat) + zero_hash((level - 1) as nat))
    }
}

/// Number of leaves under a node of the given height: `2^level`.
pub open spec fn width(level: nat) -> nat
    decreases level,
{
    if level == 0 {
        1
    } else {
        2 * width((level - 1) as nat)
    }
}

/// The node at `index` on `level` of the tree whose first `leaves.len()`
/// bottom nodes are `leaves` and whose other bottom nodes are empty.
pub open spec fn node(leaves: Seq<Seq<u8>>, level: nat, index: nat) -> Seq<u8>
    decreases level,
{
    if level == 0 {
        if index < leaves.len() {
            leaves[index as int]
        } else {
            zero_hash(0)
        }
    } else {
        sha256(
            node(leaves, (level - 1) as nat, 2 * index) + node(
                leaves,
                (level - 1) as nat,
                2 * index + 1,
            ),
        )
    }
}

/// The root of the tree of the given depth over `leaves`.
pub open spec fn tree_root(leaves: Seq<Seq<u8>>, levels: nat) -> Seq<u8> {
    node(leaves, levels, 0)
}

/// The index, on `level`, of the node above bottom position `position`.
pub open spec fn index_at(position: nat, level: nat) -> nat
    decreases level,
{
    if level == 0 {
        position
    } else {
        index_at(position, (level - 1) as nat) / 2
    }
}

/// Each entry of the empty-subtree table above the first is the digest of
/// the entry below it, twice.
pub proof fn lemma_zero_hash_step(level: nat)
    requires
        level > 0,
    ensures
        zero_hash(level) == sha256(
            zero_hash((level - 1) as nat) + zero_hash((level - 1) as nat),
        ),
{
}

/// A subtree has at least one leaf.
pub proof fn lemma_width_positive(level: nat)
    ensures
        width(level) >= 1,
    decreases level,
{
    if level > 0 {
        lemma_width_positive((level - 1) as nat);
    }
}

/// Taller subtrees are at least as wide.
pub proof fn lemma_width_monotonic(low: nat, high: nat)
    requires
        low <= high,
    ensures
        width(low) <= width(high),
    decreases high,
{
    if low < high {
        lemma_width_monotonic(low, (high - 1) as nat);
    }
}

/// The children of a node split its span of leaves in two.
pub proof fn lemma_child_spans(level: nat, index: nat)
    requires
        level > 0,
    ensures
        (2 * index) * width((level - 1) as nat) == index * width(level),
        (2 * index + 1) * width((level - 1) as nat) == index * width(level) + width(
            (level - 1) as nat,
        ),
        (2 * index + 2) * width((level - 1) as nat) == (index + 1) * width(level),
{
    let w = width((level - 1) as nat);
    assert(width(level) == 2 * w);
    assert((2 * index) * w == index * (2 * w)) by (nonlinear_arith);
    assert((2 * index + 1) * w == index * (2 * w) + w) by (nonlinear_arith);
    assert((2 * index + 2) * w == (index + 1) * (2 * w)) by (nonlinear_arith);
}

/// A node whose span starts at or after the last leaf is an empty subtree.
pub proof fn lemma_node_empty(leaves: Seq<Seq<u8>>, level: nat, index: nat)
    requires
        index * width(level) >= leaves.len(),
    ensures
        node(leaves, level, index) == zero_hash(level),
    decreases level,
{
    if level > 0 {
        lemma_child_spans(level, index);
        lemma_node_empty(leaves, (level - 1) as nat, 2 * index);
        lemma_node_empty(leaves, (level - 1) as nat, 2 * index + 1);
    } else {
        assert(index * 1 == index) by (nonlinear_arith);
    }
}

/// A node whose whole span is filled does not change when a leaf is
/// appended.
pub proof fn lemma_node_push(leaves: Seq<Seq<u8>>, leaf: Seq<u8>, level: nat, index: nat)
    requires
        (index + 1) * width(level) <= leaves.len(),
    ensures
        node(leaves.push(leaf), level, index) == node(leaves, level, index),
    decreases level,
{
    if level > 0 {
        lemma_child_spans(level, index);
        lemma_width_positive((level - 1) as nat);
        assert((index + 1) * width(level) == index * width(level) + width(level))
            by (nonlinear_arith);
        lemma_node_push(leaves, leaf, (level - 1) as nat, 2 * index);
        lemma_node_push(leaves, leaf, (level - 1) as nat, 2 * index + 1);
    } else {
        assert((index + 1) * 1 == index + 1) by (nonlinear_arith);
    }
}

/// The node above a position spans that position.
pub proof fn lemma_index_at_bounds(position: nat, level: nat)
    ensures
        index_at(position, level) * width(level) <= position,
        position < (index_at(position, level) + 1) * width(level),
    decreases level,
{
    if level == 0 {
        assert(position * 1 == position) by (nonlinear_arith);
        assert((position + 1) * 1 == position + 1) by (nonlinear_arith);
    } else {
        let below = index_at(position, (level - 1) as nat);
        let here = index_at(position, level);
        let w = width((level - 1) as nat);
        lemma_index_at_bounds(position, (level - 1) as nat);
        lemma_child_spans(level, here);
        assert(here == below / 2);
        assert(2 * here <= below <= 2 * here + 1);
        assert((2 * here) * w <= below * w) by (nonlinear_arith)
            requires
                2 * here <= below,
        ;
        assert((below + 1) * w <= (2 * here + 2) * w) by (nonlinear_arith)
            requires
                below + 1 <= 2 * here + 2,
        ;
    }
}

/// The first position lies under the first node of every level.
pub proof fn lemma_index_at_zero(level: nat)
    ensures
        index_at(0, level) == 0,
    decreases level,
{
    if level > 0 {
        lemma_index_at_zero((level - 1) as nat);
    }
}

/// Moving one position to the right moves the node above it by at most
/// one.
pub proof fn lemma_index_at_step(position: nat, level: nat)
    ensures
        index_at(position + 1, level) == index_at(position, level) || index_at(
            position + 1,
            level,
        ) == index_at(position, level) + 1,
    decreases level,
{
    if level > 0 {
        lemma_index_at_step(position, (level - 1) as nat);
    }
}

/// A position inside a tree of the given depth lies under its root.
pub proof fn lemma_index_at_top(position: nat, levels: nat)
    requires
        position < width(levels),
    ensures
        index_at(position, levels) == 0,
{
    lemma_index_at_bounds(position, levels);
    let top = index_at(position, levels);
    if top >= 1 {
        assert(top * width(levels) >= 1 * width(levels)) by (nonlinear_arith)
            requires
                top >= 1,
        ;
    }
}

/// In a tree all of whose leaves are empty, every node is an empty
/// subtree.
pub proof fn lemma_node_blank(leaves: Seq<Seq<u8>>, level: nat, index: nat)
    requires
        forall|k: int| 0 <= k < leaves.len() ==> #[trigger] leaves[k] == zero_hash(0),
    ensures
        node(leaves, level, index) == zero_hash(level),
    decreases level,
{
    if level > 0 {
        lemma_node_blank(leaves, (level - 1) as nat, 2 * index);
        lemma_node_blank(leaves, (level - 1) as nat, 2 * index + 1);
    }
}

/// Writing a leaf changes no node that does not lie above it.
pub proof fn lemma_node_frame(
    leaves: Seq<Seq<u8>>,
    position: nat,
    leaf: Seq<u8>,
    level: nat,
    index: nat,
)
    requires
        position < leaves.len(),
        index_at(position, level) != index,
    ensures
        node(leaves.update(position as int, leaf), level, index) == node(leaves, level, index),
    decreases level,
{
    if level > 0 {
        lemma_node_frame(leaves, position, leaf, (level - 1) as nat, 2 * index);
        lemma_node_frame(leaves, position, leaf, (level - 1) as nat, 2 * index + 1);
    }
}

/// An empty leaf at the end of the leaves changes no node.
pub proof fn lemma_node_pad(leaves: Seq<Seq<u8>>, level: nat, index: nat)
    ensures
        node(leaves.push(zero_hash(0)), level, index) == node(leaves, level, index),
    decreases level,
{
    if level > 0 {
        lemma_node_pad(leaves, (level - 1) as nat, 2 * index);
        lemma_node_pad(leaves, (level - 1) as nat, 2 * index + 1);
    }
}

/// `leaves` followed by empty leaves, `total` leaves in all.
pub open spec fn padded(leaves: Seq<Seq<u8>>, total: nat) -> Seq<Seq<u8>> {
    Seq::new(
        if total >= leaves.len() {
            total
        } else {
            leaves.len()
        },
        |k: int|
            if k < leaves.len() {
                leaves[k]
            } else {
                zero_hash(0)
            },
    )
}

/// Filling the free leaf slots with empty leaves changes no node.
pub proof fn lemma_node_padded(leaves: Seq<Seq<u8>>, total: nat, level: nat, index: nat)
    ensures
        node(padded(leaves, total), level, index) == node(leaves, level, index),
    decreases total,
{
    if total <= leaves.len() {
        assert(padded(leaves, total) =~= leaves);
    } else {
        let shorter = padded(leaves, (total - 1) as nat);
        assert(padded(leaves, total) =~= shorter.push(zero_hash(0)));
        lemma_node_pad(shorter, level, index);
        lemma_node_padded(leaves, (total - 1) as nat, level, index);
    }
}

/// The index of the other child of a node's parent.
pub open spec fn sibling(index: nat) -> nat {
    if index % 2 == 0 {
        index + 1
    } else {
        (index - 1) as nat
    }
}

/// The siblings of the nodes above `position`, from the bottom level up
/// to just below `level`.
pub open spec fn siblings_below(leaves: Seq<Seq<u8>>, position: nat, level: nat) -> Seq<Seq<u8>> {
    Seq::new(level, |l: int| node(leaves, l as nat, sibling(index_at(position, l as nat))))
}

/// The node reached from `leaf` at `position` by hashing, level after
/// level, with the given siblings, each on the side that the position
/// tells.
pub open spec fn climb(leaf: Seq<u8>, position: nat, siblings: Seq<Seq<u8>>) -> Seq<u8>
    decreases siblings.len(),
{
    if siblings.len() == 0 {
        leaf
    } else {
        let below = climb(leaf, position, siblings.drop_last());
        if index_at(position, (siblings.len() - 1) as nat) % 2 == 0 {
            sha256(below + siblings.last())
        } else {
            sha256(siblings.last() + below)
        }
    }
}

/// Climbing from a leaf with the siblings found in the tree arrives at
/// the node above the leaf.
pub proof fn lemma_climb_reaches_node(leaves: Seq<Seq<u8>>, position: nat, level: nat)
    requires
        position < leaves.len(),
    ensures
        climb(leaves[position as int], position, siblings_below(leaves, position, level)) == node(
            leaves,
            level,
            index_at(position, level),
        ),
    decreases level,
{
    if level > 0 {
        let lower = (level - 1) as nat;
        lemma_climb_reaches_node(leaves, position, lower);
        assert(siblings_below(leaves, position, level).drop_last() =~= siblings_below(
            leaves,
            position,
            lower,
        ));
        let here = index_at(position, lower);
        assert(index_at(position, level) == here / 2);
    }
}

} // verus!
