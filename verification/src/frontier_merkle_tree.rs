//! The append-only Merkle tree in frontier form, with a window of recent
//! roots.
//!
//! Only the leftmost filled node of each level is stored, which is enough
//! to append a leaf and compute the new root. The last `root_history_size`
//! roots are kept in a ring, so that a proof made against a slightly older
//! root is still accepted.
//!
//! What the tree stores is a function of its leaves, and it can be taken
//! out as `FrontierParts` and put back. A tree put back from parts that
//! have the right shape works as a tree; what is stated of its roots is
//! stated of traced trees, those whose parts are known to come from the
//! leaves.

use crate::bytes::{copy_bytes, same_bytes, zero_bytes};
use crate::hash::{sha256_compress, sha256_evaluate};
use crate::merkle::{
    index_at, lemma_index_at_bounds, lemma_index_at_step, lemma_index_at_top,
    lemma_index_at_zero, lemma_node_empty, lemma_node_padded, lemma_node_push,
    lemma_width_monotonic, lemma_width_positive, node, padded, tree_root, width, zero_hash,
};
use vstd::arithmetic::div_mod::{lemma_add_mod_noop, lemma_mod_self_0, lemma_small_mod};
use vstd::prelude::*;

verus! {

/// The root that the tree shows after `count` leaves. Before the first
/// leaf this is the empty subtree one level below the top; afterwards it
/// is the root of the tree over the first `count` leaves.
pub open spec fn root_after(leaves: Seq<Seq<u8>>, count: nat, levels: nat) -> Seq<u8> {
    if count == 0 {
        zero_hash((levels - 1) as nat)
    } else {
        tree_root(leaves.take(count as int), levels)
    }
}

/// How many roots are retained once `total` roots have been recorded in a
/// ring of `history_size` slots.
pub open spec fn retained(total: nat, history_size: nat) -> nat {
    if total < history_size {
        total
    } else {
        history_size
    }
}

/// The roots that a tree over `leaves` retains, oldest first: the roots
/// after each of the last few leaf counts, ending with the current one.
pub open spec fn recent_roots(leaves: Seq<Seq<u8>>, levels: nat, history_size: nat) -> Seq<
    Seq<u8>,
> {
    let total = leaves.len() + 1;
    let kept = retained(total, history_size);
    Seq::new(kept, |i: int| root_after(leaves, (total - kept + i) as nat, levels))
}

/// The leaf count whose root sits in ring slot `slot`, when `count` leaves
/// have been appended and the newest root sits in slot `newest`.
pub open spec fn slot_count(count: nat, newest: nat, history_size: nat, slot: int) -> nat {
    if slot <= newest {
        (count - newest + slot) as nat
    } else {
        (count - newest + slot - history_size) as nat
    }
}

/// The index of the left child of the parent of node `index`: `index`
/// itself if it is even, the one before it otherwise.
pub open spec fn left_of(index: nat) -> nat {
    (index - index % 2) as nat
}

/// What the table of filled subtrees holds for `level` once `leaves` were
/// appended: the empty subtree before the first leaf; afterwards the last
/// node of that level that was a left child when a leaf was appended under
/// it, as it was then. That is the left one of the pair of nodes above
/// the last leaf: complete if the leaf lies under its right sibling, as
/// far as filled otherwise.
pub open spec fn filled_entry(leaves: Seq<Seq<u8>>, level: nat) -> Seq<u8> {
    if leaves.len() == 0 {
        zero_hash(level)
    } else {
        node(leaves, level, left_of(index_at((leaves.len() - 1) as nat, level)))
    }
}

/// A tree of at most 31 levels has at most `2^31` leaves.
pub proof fn lemma_width_fits(levels: nat)
    requires
        levels <= 31,
    ensures
        width(levels) <= 0x8000_0000,
{
    lemma_width_monotonic(levels, 31);
    assert(width(31) == 0x8000_0000) by {
        reveal_with_fuel(width, 32);
    }
}

/// Once a leaf was appended, the root that the frontier computes is the
/// root of the full tree whose first leaves are the appended ones and
/// whose other leaves are empty.
pub proof fn lemma_frontier_root_is_full_tree_root(leaves: Seq<Seq<u8>>, levels: nat)
    requires
        leaves.len() > 0,
    ensures
        root_after(leaves, leaves.len(), levels) == tree_root(
            padded(leaves, width(levels)),
            levels,
        ),
{
    assert(leaves.take(leaves.len() as int) =~= leaves);
    lemma_node_padded(leaves, width(levels), levels, 0);
}

/// Writing the first free leaf of a full tree is appending a leaf.
pub proof fn lemma_padded_append(leaves: Seq<Seq<u8>>, leaf: Seq<u8>, total: nat)
    requires
        leaves.len() < total,
    ensures
        padded(leaves, total).update(leaves.len() as int, leaf) == padded(
            leaves.push(leaf),
            total,
        ),
{
    assert(padded(leaves, total).update(leaves.len() as int, leaf) =~= padded(
        leaves.push(leaf),
        total,
    ));
}

/// The ring retains one root for each leaf count so far, the empty tree
/// included, but never more than it has slots.
pub proof fn lemma_recent_roots_count(leaves: Seq<Seq<u8>>, levels: nat, history_size: nat)
    ensures
        recent_roots(leaves, levels, history_size).len() == retained(
            leaves.len() + 1,
            history_size,
        ),
        history_size > 0 ==> recent_roots(leaves, levels, history_size).last() == root_after(
            leaves,
            leaves.len(),
            levels,
        ),
{
}

/// The digest of an empty subtree of height `level`.
pub fn zeros(level: u32) -> (out: Vec<u8>)
    ensures
        out@ == zero_hash(level as nat),
        out@.len() == 32,
    decreases level,
{
    if level == 0 {
        let blank = zero_bytes(32);
        sha256_evaluate(blank.as_slice())
    } else {
        let below = zeros(level - 1);
        sha256_compress(&below, &below)
    }
}

/// What a frontier tree stores: one entry for each of the keys under
/// which the tree is kept in a key-value store.
pub struct FrontierParts {
    /// Depth of the tree.
    pub levels: u32,
    /// Number of slots in the ring of recent roots.
    pub root_history_size: u32,
    /// For each level, the last node that was a left child there.
    pub filled_subtrees: Vec<Vec<u8>>,
    /// The ring of recent roots; slots that were never written are left
    /// out at the end.
    pub historical_roots: Vec<Vec<u8>>,
    /// The ring slot of the newest root.
    pub current_root_index: u32,
    /// The index of the next leaf.
    pub next_index: u32,
}

impl FrontierParts {
    /// Whether the parts have the sizes and indices of a tree's parts:
    /// what can be told without looking at a digest.
    pub open spec fn shaped(&self) -> bool {
        let n = self.next_index as nat;
        let j = self.current_root_index as nat;
        let h = self.root_history_size as nat;
        &&& 0 < self.levels < 32
        &&& h > 0
        &&& n <= width(self.levels as nat)
        &&& self.filled_subtrees@.len() == self.levels
        &&& j == n % h
        &&& j < h
        &&& j <= n
        &&& (n < h ==> j == n)
        &&& (n >= h ==> n - j >= h)
        &&& self.historical_roots@.len() == retained(n + 1, h)
        &&& forall|s: int|
            0 <= s < self.historical_roots@.len() ==> (#[trigger] self.historical_roots@[s])@.len()
                == 32
    }

    /// The parts of a tree have the shape of a tree's parts.
    pub proof fn lemma_described_is_shaped(&self, leaves: Seq<Seq<u8>>)
        requires
            self.describes(leaves),
        ensures
            self.shaped(),
            self.next_index as nat == leaves.len(),
            self.current_root_index as nat == leaves.len() % (self.root_history_size as nat),
    {
    }

    /// Whether the parts have the sizes and indices of a tree's parts.
    pub fn well_shaped(&self) -> (ok: bool)
        ensures
            ok == self.shaped(),
    {
        if self.levels == 0 || self.levels >= 32 || self.root_history_size == 0 {
            return false;
        }
        let mut slots: u64 = 1;
        let mut i: u32 = 0;
        while i < self.levels
            invariant
                i <= self.levels < 32,
                slots as nat == width(i as nat),
            decreases self.levels - i,
        {
            proof {
                lemma_width_fits(i as nat);
            }
            slots = slots * 2;
            i += 1;
        }
        let n: u32 = self.next_index;
        let j: u32 = self.current_root_index;
        let h: u32 = self.root_history_size;
        let kept: u64 = if (n as u64) + 1 < h as u64 {
            n as u64 + 1
        } else {
            h as u64
        };
        if !(n as u64 <= slots && self.filled_subtrees.len() == self.levels as usize && j == n % h
            && j < h && j <= n && (n >= h || j == n) && (n < h || n - j >= h)
            && self.historical_roots.len() as u64 == kept) {
            return false;
        }
        let mut s: usize = 0;
        while s < self.historical_roots.len()
            invariant
                s <= self.historical_roots@.len(),
                forall|k: int| 0 <= k < s ==> (#[trigger] self.historical_roots@[k])@.len() == 32,
            decreases self.historical_roots@.len() - s,
        {
            if self.historical_roots[s].len() != 32 {
                return false;
            }
            s += 1;
        }
        true
    }

    /// Whether these parts are what a tree over `leaves` stores. The
    /// table of filled subtrees holds what `filled_entry` says for each
    /// level. With `n` leaves the newest root sits in ring slot `n mod h`,
    /// and ring slot `s` holds the root after the leaf count that
    /// `slot_count` gives for it. Every root has 32 bytes.
    pub open spec fn describes(&self, leaves: Seq<Seq<u8>>) -> bool {
        let n = leaves.len();
        let j = self.current_root_index as nat;
        let h = self.root_history_size as nat;
        &&& 0 < self.levels < 32
        &&& h > 0
        &&& self.next_index as nat == n
        &&& n <= width(self.levels as nat)
        &&& self.filled_subtrees@.len() == self.levels
        &&& forall|k: int|
            0 <= k < self.levels ==> (#[trigger] self.filled_subtrees@[k])@ == filled_entry(
                leaves,
                k as nat,
            )
        &&& j == n % h
        &&& j < h
        &&& j <= n
        &&& (n < h ==> j == n)
        &&& (n >= h ==> n - j >= h)
        &&& self.historical_roots@.len() == retained(n + 1, h)
        &&& forall|s: int|
            0 <= s < self.historical_roots@.len() ==> (#[trigger] self.historical_roots@[s])@
                == root_after(leaves, slot_count(n, j, h, s), self.levels as nat)
        &&& forall|s: int|
            0 <= s < self.historical_roots@.len() ==> (#[trigger] self.historical_roots@[s])@.len()
                == 32
    }
}

/// A copy of a list of byte strings.
fn copy_list(items: &Vec<Vec<u8>>) -> (copy: Vec<Vec<u8>>)
    ensures
        copy@.len() == items@.len(),
        forall|k: int| 0 <= k < items@.len() ==> (#[trigger] copy@[k])@ == items@[k]@,
{
    let mut copy: Vec<Vec<u8>> = Vec::new();
    let mut i: usize = 0;
    while i < items.len()
        invariant
            i <= items@.len(),
            copy@.len() == i,
            forall|k: int| 0 <= k < i ==> (#[trigger] copy@[k])@ == items@[k]@,
        decreases items@.len() - i,
    {
        copy.push(copy_bytes(&items[i]));
        i += 1;
    }
    copy
}

/// An append-only Merkle tree that stores its frontier and its recent
/// roots.
pub struct FrontierMerkleTreeWithHistory {
    parts: FrontierParts,
    leaves: Ghost<Seq<Seq<u8>>>,
    traced: Ghost<bool>,
}

impl FrontierMerkleTreeWithHistory {
    /// The leaves appended so far, in order.
    pub closed spec fn leaves(&self) -> Seq<Seq<u8>> {
        self.leaves@
    }

    /// Depth of the tree: it holds up to `2^depth` leaves.
    pub closed spec fn depth(&self) -> nat {
        self.parts.levels as nat
    }

    /// Number of slots in the ring of recent roots.
    pub closed spec fn history_size(&self) -> nat {
        self.parts.root_history_size as nat
    }

    /// The ring slot that holds the newest root.
    pub closed spec fn newest_slot(&self) -> nat {
        self.parts.current_root_index as nat
    }

    /// Whether the tree is known to be the tree over `leaves()`. A tree
    /// made by `new` is; a tree read back from a store is if what was read
    /// is what a tree stores.
    pub closed spec fn traced(&self) -> bool {
        self.traced@
    }

    /// The index of the next leaf: the number of leaves so far.
    pub closed spec fn count(&self) -> nat {
        self.parts.next_index as nat
    }

    /// What is stored has the shape of a tree's parts, and it describes
    /// the tree over `leaves()` if the tree is traced.
    pub closed spec fn wf(&self) -> bool {
        &&& self.parts.shaped()
        &&& self.traced@ ==> self.parts.describes(self.leaves@)
    }

    /// A traced tree has as many leaves as it counts.
    pub proof fn lemma_count(&self)
        requires
            self.wf(),
            self.traced(),
        ensures
            self.count() == self.leaves().len(),
    {
    }

    /// The newest root sits in the ring slot that the number of leaves
    /// gives, counted round the ring.
    pub proof fn lemma_newest_slot(&self)
        requires
            self.wf(),
            self.traced(),
        ensures
            self.history_size() > 0,
            self.newest_slot() == self.leaves().len() % self.history_size(),
    {
    }

    /// The roots that are currently accepted, oldest first.
    pub open spec fn known_roots(&self) -> Seq<Seq<u8>> {
        recent_roots(self.leaves(), self.depth(), self.history_size())
    }

    /// Whether every leaf slot is taken.
    pub open spec fn is_full(&self) -> bool {
        self.count() >= width(self.depth())
    }

    /// An empty tree of the given depth with a ring of the given size.
    pub fn new(levels: u32, root_history_size: u32) -> (tree: Self)
        requires
            0 < levels < 32,
            root_history_size > 0,
        ensures
            tree.wf(),
            tree.traced(),
            tree.depth() == levels,
            tree.history_size() == root_history_size,
            tree.leaves() == Seq::<Seq<u8>>::empty(),
            tree.count() == 0,
            tree.newest_slot() == 0,
    {
        let mut filled_subtrees: Vec<Vec<u8>> = Vec::new();
        let mut historical_roots: Vec<Vec<u8>> = Vec::new();
        let mut i: u32 = 0;
        while i < levels
            invariant
                i <= levels,
                filled_subtrees@.len() == i,
                forall|k: int|
                    0 <= k < i ==> (#[trigger] filled_subtrees@[k])@ == zero_hash(k as nat),
            decreases levels - i,
        {
            filled_subtrees.push(zeros(i));
            i += 1;
        }
        historical_roots.push(zeros(levels - 1));
        let tree = FrontierMerkleTreeWithHistory {
            parts: FrontierParts {
                levels,
                root_history_size,
                filled_subtrees,
                historical_roots,
                current_root_index: 0,
                next_index: 0,
            },
            leaves: Ghost(Seq::empty()),
            traced: Ghost(true),
        };
        proof {
            assert forall|k: int| 0 <= k < levels implies #[trigger] index_at(0, k as nat) == 0 by {
                lemma_index_at_zero(k as nat);
            }
            lemma_width_positive(levels as nat);
            lemma_small_mod(0, root_history_size as nat);
            assert(tree.parts.shaped());
            assert(tree.parts.describes(Seq::empty()));
        }
        tree
    }

    /// A copy of what the tree stores.
    pub fn to_parts(&self) -> (parts: FrontierParts)
        requires
            self.wf(),
        ensures
            parts.shaped(),
            self.traced() ==> parts.describes(self.leaves()),
            parts.levels as nat == self.depth(),
            parts.root_history_size as nat == self.history_size(),
            parts.current_root_index as nat == self.newest_slot(),
            parts.next_index as nat == self.count(),
    {
        let parts = FrontierParts {
            levels: self.parts.levels,
            root_history_size: self.parts.root_history_size,
            filled_subtrees: copy_list(&self.parts.filled_subtrees),
            historical_roots: copy_list(&self.parts.historical_roots),
            current_root_index: self.parts.current_root_index,
            next_index: self.parts.next_index,
        };
        parts
    }

    /// The tree that stores `parts`: the way back from a key-value store.
    /// `None` if the parts have not the shape of a tree's parts. The tree
    /// is traced if the parts are those of some tree, which is so if they
    /// were taken from a traced tree with `to_parts`.
    pub fn from_parts(parts: FrontierParts) -> (tree: Option<Self>)
        ensures
            tree is Some <==> parts.shaped(),
            tree matches Some(made) ==> {
                &&& made.wf()
                &&& made.traced() == exists|leaves: Seq<Seq<u8>>| parts.describes(leaves)
                &&& made.traced() ==> parts.describes(made.leaves())
                &&& made.depth() == parts.levels
                &&& made.history_size() == parts.root_history_size
                &&& made.newest_slot() == parts.current_root_index
                &&& made.count() == parts.next_index
            },
    {
        if !parts.well_shaped() {
            return None;
        }
        let ghost traced = exists|leaves: Seq<Seq<u8>>| parts.describes(leaves);
        let ghost leaves = choose|leaves: Seq<Seq<u8>>| parts.describes(leaves);
        Some(FrontierMerkleTreeWithHistory { parts, leaves: Ghost(leaves), traced: Ghost(traced) })
    }

    /// Depth of the tree.
    pub fn levels(&self) -> (levels: u32)
        ensures
            levels as nat == self.depth(),
    {
        self.parts.levels
    }

    /// Number of slots in the ring of recent roots.
    pub fn root_history_size(&self) -> (size: u32)
        ensures
            size as nat == self.history_size(),
    {
        self.parts.root_history_size
    }

    /// Number of leaves appended so far.
    pub fn leaf_count(&self) -> (count: u32)
        requires
            self.wf(),
        ensures
            count as nat == self.count(),
            self.traced() ==> count as nat == self.leaves().len(),
    {
        self.parts.next_index
    }

    /// Whether every leaf slot is taken.
    pub fn full(&self) -> (full: bool)
        requires
            self.wf(),
        ensures
            full == self.is_full(),
    {
        self.parts.next_index as u64 >= self.capacity()
    }

    /// Number of leaves the tree can hold: `2^levels`.
    pub fn capacity(&self) -> (slots: u64)
        requires
            self.wf(),
        ensures
            slots as nat == width(self.depth()),
    {
        let mut slots: u64 = 1;
        let mut i: u32 = 0;
        while i < self.parts.levels
            invariant
                i <= self.parts.levels < 32,
                slots as nat == width(i as nat),
            decreases self.parts.levels - i,
        {
            proof {
                lemma_width_fits(i as nat);
            }
            slots = slots * 2;
            i += 1;
        }
        slots
    }

    /// Appends `leaf` as the next bottom node and records the new root as
    /// the newest of the ring.
    pub fn insert(&mut self, leaf: &Vec<u8>)
        requires
            old(self).wf(),
            !old(self).is_full(),
        ensures
            final(self).wf(),
            final(self).depth() == old(self).depth(),
            final(self).history_size() == old(self).history_size(),
            final(self).traced() == old(self).traced(),
            final(self).count() == old(self).count() + 1,
            old(self).traced() ==> final(self).leaves() == old(self).leaves().push(leaf@),
            final(self).newest_slot() == (old(self).newest_slot() + 1) % old(self).history_size(),
    {
        let ghost traced = self.traced@;
        let ghost before = self.leaves@;
        let ghost after = before.push(leaf@);
        let ghost n = self.parts.next_index as nat;
        let ghost old_roots = self.parts.historical_roots@;
        let levels: u32 = self.parts.levels;
        let history_size: u32 = self.parts.root_history_size;
        let newest: u32 = self.parts.current_root_index;
        let position: u32 = self.parts.next_index;

        let mut current_index: u32 = position;
        let mut current_level_hash: Vec<u8> = copy_bytes(leaf);
        let mut i: u32 = 0;
        while i < levels
            invariant
                i <= levels < 32,
                n < width(levels as nat),
                after == before.push(leaf@),
                traced ==> n == before.len(),
                n == position,
                self.parts.levels == levels,
                self.parts.root_history_size == history_size,
                self.parts.current_root_index == newest,
                self.parts.next_index == position,
                self.leaves@ == before,
                self.traced@ == traced,
                self.parts.historical_roots@ == old_roots,
                self.parts.filled_subtrees@.len() == levels,
                current_index as nat == index_at(n, i as nat),
                traced ==> current_level_hash@ == node(after, i as nat, index_at(n, i as nat)),
                traced ==> forall|k: int|
                    0 <= k < i ==> (#[trigger] self.parts.filled_subtrees@[k])@ == filled_entry(
                        after,
                        k as nat,
                    ),
                traced ==> forall|k: int|
                    i <= k < levels ==> (#[trigger] self.parts.filled_subtrees@[k])@
                        == filled_entry(before, k as nat),
                i > 0 ==> current_level_hash@.len() == 32,
            decreases levels - i,
        {
            let ghost here = index_at(n, i as nat);
            proof {
                lemma_index_at_bounds(n, i as nat);
                lemma_index_at_step(n, i as nat);
            }
            let left: Vec<u8>;
            let right: Vec<u8>;
            if current_index % 2 == 0 {
                left = copy_bytes(&current_level_hash);
                right = zeros(i);
                self.parts.filled_subtrees.set(i as usize, current_level_hash);
                proof {
                    if traced {
                        lemma_node_empty(after, i as nat, here + 1);
                    }
                }
            } else {
                left = copy_bytes(&self.parts.filled_subtrees[i as usize]);
                right = current_level_hash;
                proof {
                    if traced {
                        // the leaf before this one lies under this node or under its left
                        // sibling
                        lemma_index_at_zero(i as nat);
                        lemma_index_at_step((n - 1) as nat, i as nat);
                        assert(left@ == node(before, i as nat, (here - 1) as nat));
                        lemma_node_push(before, leaf@, i as nat, (here - 1) as nat);
                    }
                }
            }
            current_level_hash = sha256_compress(&left, &right);
            current_index = current_index / 2;
            i += 1;
        }

        proof {
            lemma_index_at_top(n, levels as nat);
            lemma_width_fits(levels as nat);
            assert(after.take(after.len() as int) =~= after);
            if newest + 1 < history_size {
                lemma_small_mod((newest + 1) as nat, history_size as nat);
            } else {
                lemma_mod_self_0(history_size as int);
            }
            lemma_add_mod_noop(n as int, 1, history_size as int);
            if history_size > 1 {
                lemma_small_mod(1, history_size as nat);
            }
        }
        let new_root_index: u32 = (newest + 1) % history_size;
        if (new_root_index as usize) < self.parts.historical_roots.len() {
            self.parts.historical_roots.set(new_root_index as usize, current_level_hash);
        } else {
            self.parts.historical_roots.push(current_level_hash);
        }
        self.parts.current_root_index = new_root_index;
        self.parts.next_index = position + 1;
        self.leaves = Ghost(after);

        proof {
            let h = history_size as nat;
            let j = new_root_index as nat;
            assert forall|s: int| 0 <= s < self.parts.historical_roots@.len() implies (
            #[trigger] self.parts.historical_roots@[s])@.len() == 32 by {
                if s != j {
                    assert(self.parts.historical_roots@[s] == old_roots[s]);
                }
            }
            if traced {
                assert forall|s: int| 0 <= s < self.parts.historical_roots@.len() implies (
                #[trigger] self.parts.historical_roots@[s])@ == root_after(
                    after,
                    slot_count(n + 1, j, h, s),
                    levels as nat,
                ) by {
                    if s != j {
                        let m = slot_count(n, newest as nat, h, s);
                        assert(m == slot_count(n + 1, j, h, s));
                        assert(self.parts.historical_roots@[s] == old_roots[s]);
                        assert(m <= n);
                        if m > 0 {
                            assert(after.take(m as int) =~= before.take(m as int));
                        }
                    }
                }
            }
        }
    }

    /// Whether `root` is one of the retained roots. The ring is scanned
    /// from the newest root backwards.
    pub fn is_known_root(&self, root: &Vec<u8>) -> (known: bool)
        requires
            self.wf(),
        ensures
            self.traced() ==> known == self.known_roots().contains(root@),
    {
        let newest: usize = self.parts.current_root_index as usize;
        let stored: usize = self.parts.historical_roots.len();
        let ghost window = self.known_roots();

        let mut i: usize = newest + 1;
        while i > 0
            invariant
                self.wf(),
                i <= newest + 1 <= stored,
                newest == self.parts.current_root_index,
                stored == self.parts.historical_roots@.len(),
                forall|s: int|
                    i <= s <= newest ==> (#[trigger] self.parts.historical_roots@[s])@ != root@,
            decreases i,
        {
            i -= 1;
            if same_bytes(&self.parts.historical_roots[i], root) {
                proof {
                    if self.traced@ {
                        self.lemma_slot_in_window(i as int);
                    }
                }
                return true;
            }
        }
        let mut i: usize = stored;
        while i > newest + 1
            invariant
                self.wf(),
                newest + 1 <= i <= stored,
                newest == self.parts.current_root_index,
                stored == self.parts.historical_roots@.len(),
                forall|s: int|
                    0 <= s <= newest ==> (#[trigger] self.parts.historical_roots@[s])@ != root@,
                forall|s: int|
                    i <= s < stored ==> (#[trigger] self.parts.historical_roots@[s])@ != root@,
            decreases i,
        {
            i -= 1;
            if same_bytes(&self.parts.historical_roots[i], root) {
                proof {
                    if self.traced@ {
                        self.lemma_slot_in_window(i as int);
                    }
                }
                return true;
            }
        }
        proof {
            if self.traced@ {
                assert forall|w: int| 0 <= w < window.len() implies window[w] != root@ by {
                    self.lemma_window_in_slot(w);
                }
            }
        }
        false
    }

    /// The newest root.
    pub fn get_latest_root(&self) -> (root: Vec<u8>)
        requires
            self.wf(),
        ensures
            self.traced() ==> root@ == self.known_roots().last(),
            self.traced() ==> root@ == root_after(
                self.leaves(),
                self.leaves().len(),
                self.depth(),
            ),
            root@.len() == 32,
    {
        proof {
            if self.traced@ {
                self.lemma_slot_in_window(self.parts.current_root_index as int);
            }
        }
        copy_bytes(&self.parts.historical_roots[self.parts.current_root_index as usize])
    }

    /// The entry of the table of filled subtrees for `level`.
    pub fn filled_subtree(&self, level: u32) -> (entry: Vec<u8>)
        requires
            self.wf(),
            level < self.depth(),
        ensures
            self.traced() ==> entry@ == filled_entry(self.leaves(), level as nat),
    {
        copy_bytes(&self.parts.filled_subtrees[level as usize])
    }

    /// The ring slot that holds the newest root.
    pub fn current_root_index(&self) -> (slot: u32)
        ensures
            slot as nat == self.newest_slot(),
    {
        self.parts.current_root_index
    }

    /// The root in ring slot `slot`, if that slot was written yet.
    pub fn root_in_slot(&self, slot: u32) -> (root: Option<Vec<u8>>)
        requires
            self.wf(),
        ensures
            root is Some <==> slot < retained(self.count() + 1, self.history_size()),
            root matches Some(held) ==> held@.len() == 32,
            self.traced() ==> (root matches Some(held) ==> held@ == root_after(
                self.leaves(),
                slot_count(
                    self.leaves().len(),
                    self.newest_slot(),
                    self.history_size(),
                    slot as int,
                ),
                self.depth(),
            )),
    {
        if (slot as usize) < self.parts.historical_roots.len() {
            Some(copy_bytes(&self.parts.historical_roots[slot as usize]))
        } else {
            None
        }
    }

    /// Every ring slot holds one root of the window.
    proof fn lemma_slot_in_window(&self, slot: int)
        requires
            self.wf(),
            self.traced(),
            0 <= slot < self.parts.historical_roots@.len(),
        ensures
            ({
                let n = self.leaves@.len();
                let count = slot_count(
                    n,
                    self.parts.current_root_index as nat,
                    self.parts.root_history_size as nat,
                    slot,
                );
                let w = count - (n + 1 - self.parts.historical_roots@.len());
                &&& 0 <= w < self.known_roots().len()
                &&& self.known_roots()[w] == self.parts.historical_roots@[slot]@
                &&& self.known_roots().contains(self.parts.historical_roots@[slot]@)
                &&& slot == self.parts.current_root_index ==> w == self.known_roots().len() - 1
            }),
    {
        let n = self.leaves@.len();
        let count = slot_count(
            n,
            self.parts.current_root_index as nat,
            self.parts.root_history_size as nat,
            slot,
        );
        let w = count - (n + 1 - self.parts.historical_roots@.len());
        assert(self.known_roots()[w] == self.parts.historical_roots@[slot]@);
    }

    /// Every root of the window sits in one ring slot.
    proof fn lemma_window_in_slot(&self, w: int)
        requires
            self.wf(),
            self.traced(),
            0 <= w < self.known_roots().len(),
        ensures
            exists|s: int|
                0 <= s < self.parts.historical_roots@.len() && (
                #[trigger] self.parts.historical_roots@[s])@
                    == self.known_roots()[w],
    {
        let n = self.leaves@.len() as int;
        let j = self.parts.current_root_index as int;
        let h = self.parts.root_history_size as int;
        let stored = self.parts.historical_roots@.len() as int;
        let count = n + 1 - stored + w;
        let s = if count >= n - j {
            count - (n - j)
        } else {
            count - (n - j) + h
        };
        assert(0 <= s < stored);
        assert(slot_count(n as nat, j as nat, h as nat, s) == count);
        assert(self.parts.historical_roots@[s]@ == self.known_roots()[w]);
    }
}

} // verus!
