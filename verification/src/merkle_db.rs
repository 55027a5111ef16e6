//! The full Merkle tree over a vector of leaves: the sequencer's
//! datastore.
//!
//! Every node of every level is stored, so that the root can be read, any
//! leaf can be replaced and any leaf can be opened: shown to lie at its
//! index under the root by the siblings along its path.

use crate::bytes::{copy_bytes, same_bytes};
use crate::frontier_merkle_tree::{lemma_width_fits, zeros};
use crate::hash::sha256_compress;
use crate::merkle::{
    climb, index_at, lemma_climb_reaches_node, lemma_index_at_top, lemma_node_blank,
    lemma_node_frame, node, sibling, siblings_below, tree_root, width, zero_hash,
};
use crate::protocol::VectorCommitmentOpeningProof;
use vstd::prelude::*;

verus! {

/// The siblings that an opening holds, from the bottom level up: the
/// sibling of the leaf, then the authentication path read backwards.
pub open spec fn bottom_up(opening: &VectorCommitmentOpeningProof) -> Seq<Seq<u8>> {
    Seq::new(
        opening.path_auth_path@.len() + 1,
        |l: int|
            if l == 0 {
                opening.path_leaf_sibling_hash@
            } else {
                opening.path_auth_path@[opening.path_auth_path@.len() - l]@
            },
    )
}

/// The authentication path for siblings given from the bottom up: all but
/// the lowest, from the top down.
pub open spec fn top_down(siblings: Seq<Seq<u8>>) -> Seq<Seq<u8>> {
    Seq::new((siblings.len() - 1) as nat, |j: int| siblings[siblings.len() - 1 - j])
}

/// Whether an opening is valid: hashing upwards from its leaf with its
/// siblings arrives at its root.
pub open spec fn opens(opening: &VectorCommitmentOpeningProof) -> bool {
    climb(opening.record@, opening.path_leaf_index as nat, bottom_up(opening)) == opening.root@
}

/// Whether `opening` is the opening of leaf `index` in the tree of depth
/// `levels` over `leaves`.
pub open spec fn opening_of(
    opening: &VectorCommitmentOpeningProof,
    leaves: Seq<Seq<u8>>,
    levels: nat,
    index: nat,
) -> bool {
    &&& opening.path_leaf_index == index
    &&& opening.record@ == leaves[index as int]
    &&& opening.root@ == tree_root(leaves, levels)
    &&& bottom_up(opening) == siblings_below(leaves, index, levels)
}

/// The opening of a leaf that lies in the tree is valid.
pub proof fn lemma_opening_is_valid(
    opening: &VectorCommitmentOpeningProof,
    leaves: Seq<Seq<u8>>,
    levels: nat,
    index: nat,
)
    requires
        opening_of(opening, leaves, levels, index),
        index < leaves.len(),
        index < width(levels),
    ensures
        opens(opening),
{
    lemma_climb_reaches_node(leaves, index, levels);
    lemma_index_at_top(index, levels);
}

/// Replacing a leaf leaves the siblings along its path as they were.
pub proof fn lemma_update_keeps_path(
    leaves: Seq<Seq<u8>>,
    index: nat,
    leaf: Seq<u8>,
    levels: nat,
)
    requires
        index < leaves.len(),
    ensures
        siblings_below(leaves.update(index as int, leaf), index, levels) == siblings_below(
            leaves,
            index,
            levels,
        ),
{
    let updated = leaves.update(index as int, leaf);
    assert forall|l: int| 0 <= l < levels implies #[trigger] siblings_below(
        updated,
        index,
        levels,
    )[l] == siblings_below(leaves, index, levels)[l] by {
        lemma_node_frame(leaves, index, leaf, l as nat, sibling(index_at(index, l as nat)));
    }
    assert(siblings_below(leaves.update(index as int, leaf), index, levels) =~= siblings_below(
        leaves,
        index,
        levels,
    ));
}

/// Checks an opening by hashing upwards from its leaf.
pub fn verify_opening(opening: &VectorCommitmentOpeningProof) -> (valid: bool)
    ensures
        valid == opens(opening),
{
    let steps: usize = opening.path_auth_path.len();
    let ghost siblings = bottom_up(opening);
    let ghost position = opening.path_leaf_index as nat;
    let mut current: Vec<u8> = copy_bytes(&opening.record);
    let mut index: usize = opening.path_leaf_index;
    proof {
        assert(siblings.take(0) =~= Seq::<Seq<u8>>::empty());
    }
    // the sibling of the leaf comes first
    if index % 2 == 0 {
        current = sha256_compress(&current, &opening.path_leaf_sibling_hash);
    } else {
        current = sha256_compress(&opening.path_leaf_sibling_hash, &current);
    }
    index = index / 2;
    proof {
        assert(siblings.take(1).drop_last() =~= siblings.take(0));
        assert(siblings.take(1).last() == opening.path_leaf_sibling_hash@);
        assert(climb(opening.record@, position, siblings.take(0)) == opening.record@);
        assert(index_at(position, 0) == position);
        assert(index_at(position, 1) == index_at(position, 0) / 2);
    }
    let mut done: usize = 0;
    while done < steps
        invariant
            done <= steps,
            steps == opening.path_auth_path@.len(),
            siblings == bottom_up(opening),
            position == opening.path_leaf_index as nat,
            index as nat == index_at(position, (done + 1) as nat),
            current@ == climb(opening.record@, position, siblings.take(done + 1)),
        decreases steps - done,
    {
        let next = &opening.path_auth_path[steps - 1 - done];
        proof {
            assert(siblings.take(done + 2).drop_last() =~= siblings.take(done + 1));
            assert(siblings.take(done + 2).last() == next@);
        }
        if index % 2 == 0 {
            current = sha256_compress(&current, next);
        } else {
            current = sha256_compress(next, &current);
        }
        index = index / 2;
        done += 1;
    }
    proof {
        assert(siblings.take(steps + 1) =~= siblings);
    }
    same_bytes(&current, &opening.root)
}

/// A Merkle tree that stores all of its nodes.
pub struct MerkleDb {
    levels: u32,
    layers: Vec<Vec<Vec<u8>>>,
}

impl MerkleDb {
    /// Depth of the tree: it has `2^depth` leaves.
    pub closed spec fn depth(&self) -> nat {
        self.levels as nat
    }

    /// The leaves of the tree, in order.
    pub closed spec fn leaves(&self) -> Seq<Seq<u8>> {
        Seq::new(self.layers@[0]@.len(), |i: int| self.layers@[0]@[i]@)
    }

    /// Every stored node is the node of the tree over the leaves.
    pub closed spec fn wf(&self) -> bool {
        &&& 0 < self.levels < 32
        &&& self.layers@.len() == self.levels + 1
        &&& forall|m: int|
            0 <= m <= self.levels ==> (#[trigger] self.layers@[m])@.len() == width(
                (self.levels - m) as nat,
            )
        &&& forall|m: int, i: int|
            0 <= m <= self.levels && 0 <= i < self.layers@[m]@.len() ==> (
            #[trigger] self.layers@[m]@[i])@ == node(self.leaves(), m as nat, i as nat)
        &&& forall|m: int, i: int|
            1 <= m <= self.levels && 0 <= i < self.layers@[m]@.len() ==> (
            #[trigger] self.layers@[m]@[i])@.len() == 32
    }

    /// A tree has as many leaves as its depth allows.
    pub proof fn lemma_leaf_count(&self)
        requires
            self.wf(),
        ensures
            self.leaves().len() == width(self.depth()),
            0 < self.depth() < 32,
    {
        assert(self.layers@[0]@.len() == width((self.levels - 0) as nat));
    }

    /// A tree of the given depth all of whose leaves are empty.
    pub fn new(levels: u32) -> (db: Self)
        requires
            0 < levels < 32,
        ensures
            db.wf(),
            db.depth() == levels,
            db.leaves() == Seq::new(width(levels as nat), |i: int| zero_hash(0)),
    {
        let mut count: usize = 1;
        let mut grown: u32 = 0;
        while grown < levels
            invariant
                grown <= levels < 32,
                count as nat == width(grown as nat),
            decreases levels - grown,
        {
            proof {
                lemma_width_fits((grown + 1) as nat);
            }
            count = count * 2;
            grown += 1;
        }
        let mut layers: Vec<Vec<Vec<u8>>> = Vec::new();
        let mut l: u32 = 0;
        while l <= levels
            invariant
                l <= levels + 1,
                levels < 32,
                layers@.len() == l,
                l <= levels ==> count as nat == width((levels - l) as nat),
                forall|m: int|
                    0 <= m < l ==> (#[trigger] layers@[m])@.len() == width((levels - m) as nat),
                forall|m: int, i: int|
                    0 <= m < l && 0 <= i < layers@[m]@.len() ==> (#[trigger] layers@[m]@[i])@
                        == zero_hash(m as nat) && layers@[m]@[i]@.len() == 32,
            decreases levels + 1 - l,
        {
            let blank = zeros(l);
            let mut layer: Vec<Vec<u8>> = Vec::new();
            let mut i: usize = 0;
            while i < count
                invariant
                    i <= count,
                    layer@.len() == i,
                    blank@ == zero_hash(l as nat),
                    blank@.len() == 32,
                    forall|k: int|
                        0 <= k < i ==> (#[trigger] layer@[k])@ == zero_hash(l as nat)
                            && layer@[k]@.len() == 32,
                decreases count - i,
            {
                layer.push(copy_bytes(&blank));
                i += 1;
            }
            layers.push(layer);
            count = count / 2;
            l += 1;
        }
        let db = MerkleDb { levels, layers };
        proof {
            assert(db.leaves() =~= Seq::new(width(levels as nat), |i: int| zero_hash(0)));
            assert forall|m: int, i: int|
                0 <= m <= db.levels && 0 <= i < db.layers@[m]@.len() implies (
            #[trigger] db.layers@[m]@[i])@ == node(db.leaves(), m as nat, i as nat) by {
                lemma_node_blank(db.leaves(), m as nat, i as nat);
            }
        }
        db
    }

    /// Depth of the tree.
    pub fn levels(&self) -> (levels: u32)
        ensures
            levels as nat == self.depth(),
    {
        self.levels
    }

    /// Number of leaves of the tree.
    pub fn leaf_count(&self) -> (count: usize)
        requires
            self.wf(),
        ensures
            count as nat == self.leaves().len(),
            count as nat == width(self.depth()),
    {
        proof {
            self.lemma_leaf_count();
        }
        self.layers[0].len()
    }

    /// The root of the tree.
    pub fn commitment(&self) -> (root: Vec<u8>)
        requires
            self.wf(),
        ensures
            root@ == tree_root(self.leaves(), self.depth()),
            root@.len() == 32,
    {
        proof {
            assert(self.layers@[self.levels as int]@.len() == width(0));
        }
        copy_bytes(&self.layers[self.levels as usize][0])
    }

    /// Leaf number `index`.
    pub fn get_record(&self, index: usize) -> (record: Vec<u8>)
        requires
            self.wf(),
            index < self.leaves().len(),
        ensures
            record@ == self.leaves()[index as int],
    {
        copy_bytes(&self.layers[0][index])
    }

    /// Replaces leaf number `index` by `record` and recomputes the nodes
    /// above it.
    pub fn update(&mut self, index: usize, record: &Vec<u8>)
        requires
            old(self).wf(),
            index < old(self).leaves().len(),
        ensures
            final(self).wf(),
            final(self).depth() == old(self).depth(),
            final(self).leaves() == old(self).leaves().update(index as int, record@),
    {
        let ghost before = self.leaves();
        let ghost after = before.update(index as int, record@);
        let levels: u32 = self.levels;
        proof {
            self.lemma_leaf_count();
        }
        self.layers[0][index] = copy_bytes(record);
        assert(self.leaves() =~= after);
        let mut l: u32 = 0;
        let mut current: usize = index;
        while l < levels
            invariant
                l <= levels < 32,
                self.levels == levels,
                index < before.len(),
                after == before.update(index as int, record@),
                self.layers@.len() == levels + 1,
                forall|m: int|
                    0 <= m <= levels ==> (#[trigger] self.layers@[m])@.len() == width(
                        (levels - m) as nat,
                    ),
                self.leaves() == after,
                current as nat == index_at(index as nat, l as nat),
                current < width((levels - l) as nat),
                forall|m: int, i: int|
                    0 <= m <= l && 0 <= i < self.layers@[m]@.len() ==> (
                    #[trigger] self.layers@[m]@[i])@ == node(after, m as nat, i as nat),
                forall|m: int, i: int|
                    l < m <= levels && 0 <= i < self.layers@[m]@.len() ==> (
                    #[trigger] self.layers@[m]@[i])@ == node(before, m as nat, i as nat),
                forall|m: int, i: int|
                    1 <= m <= levels && 0 <= i < self.layers@[m]@.len() ==> (
                    #[trigger] self.layers@[m]@[i])@.len() == 32,
            decreases levels - l,
        {
            let parent: usize = current / 2;
            let ghost stored = self.layers@;
            proof {
                assert(stored[l as int]@.len() == width((levels - l) as nat));
                assert(stored[l + 1]@.len() == width((levels - (l + 1)) as nat));
                assert(width((levels - l) as nat) == 2 * width((levels - l - 1) as nat));
            }
            let hash = sha256_compress(
                &self.layers[l as usize][2 * parent],
                &self.layers[l as usize][2 * parent + 1],
            );
            self.layers[l as usize + 1][parent] = hash;
            proof {
                assert(self.leaves() =~= after);
                assert forall|m: int, i: int|
                    0 <= m <= l + 1 && 0 <= i < self.layers@[m]@.len() implies (
                #[trigger] self.layers@[m]@[i])@ == node(after, m as nat, i as nat) by {
                    if m == l + 1 {
                        if i == parent {
                            assert(stored[l as int]@[2 * parent]@ == node(
                                after,
                                l as nat,
                                (2 * parent) as nat,
                            ));
                            assert(stored[l as int]@[2 * parent + 1]@ == node(
                                after,
                                l as nat,
                                (2 * parent + 1) as nat,
                            ));
                        } else {
                            assert(self.layers@[m]@[i] == stored[m]@[i]);
                            lemma_node_frame(before, index as nat, record@, m as nat, i as nat);
                        }
                    } else {
                        assert(self.layers@[m] == stored[m]);
                    }
                }
                assert forall|m: int, i: int|
                    l + 1 < m <= levels && 0 <= i < self.layers@[m]@.len() implies (
                #[trigger] self.layers@[m]@[i])@ == node(before, m as nat, i as nat) by {
                    assert(self.layers@[m] == stored[m]);
                }
                assert forall|m: int| 0 <= m <= levels implies (#[trigger] self.layers@[m])@.len()
                    == width((levels - m) as nat) by {
                    if m != l + 1 {
                        assert(self.layers@[m] == stored[m]);
                    }
                }
                assert forall|m: int, i: int|
                    1 <= m <= levels && 0 <= i < self.layers@[m]@.len() implies (
                #[trigger] self.layers@[m]@[i])@.len() == 32 by {
                    if m != l + 1 {
                        assert(self.layers@[m] == stored[m]);
                    } else if i != parent {
                        assert(self.layers@[m]@[i] == stored[m]@[i]);
                    }
                }
            }
            current = parent;
            l += 1;
        }
    }

    /// The opening of leaf number `index`: the leaf, the root and the
    /// siblings along the path between them.
    pub fn opening_at(&self, index: usize) -> (opening: VectorCommitmentOpeningProof)
        requires
            self.wf(),
            index < self.leaves().len(),
        ensures
            opening_of(&opening, self.leaves(), self.depth(), index as nat),
            opens(&opening),
            opening.root@.len() == 32,
    {
        let levels: u32 = self.levels;
        proof {
            self.lemma_leaf_count();
        }
        // siblings from the bottom up
        let mut upward: Vec<Vec<u8>> = Vec::new();
        let mut current: usize = index;
        let mut l: u32 = 0;
        while l < levels
            invariant
                self.wf(),
                l <= levels < 32,
                self.levels == levels,
                current as nat == index_at(index as nat, l as nat),
                l < levels ==> current < width((levels - l) as nat),
                upward@.len() == l,
                forall|k: int|
                    0 <= k < l ==> (#[trigger] upward@[k])@ == node(
                        self.leaves(),
                        k as nat,
                        sibling(index_at(index as nat, k as nat)),
                    ),
            decreases levels - l,
        {
            proof {
                assert(self.layers@[l as int]@.len() == width((levels - l) as nat));
                assert(width((levels - l) as nat) == 2 * width((levels - l - 1) as nat));
            }
            let beside: usize = if current % 2 == 0 {
                current + 1
            } else {
                current - 1
            };
            upward.push(copy_bytes(&self.layers[l as usize][beside]));
            current = current / 2;
            l += 1;
        }
        // the authentication path runs from the top down
        let path_leaf_sibling_hash = copy_bytes(&upward[0]);
        let mut path_auth_path: Vec<Vec<u8>> = Vec::new();
        let mut taken: usize = upward.len();
        while taken > 1
            invariant
                1 <= taken <= upward@.len(),
                path_auth_path@.len() == upward@.len() - taken,
                forall|k: int|
                    0 <= k < path_auth_path@.len() ==> (#[trigger] path_auth_path@[k])@
                        == upward@[upward@.len() - 1 - k]@,
            decreases taken,
        {
            taken -= 1;
            path_auth_path.push(copy_bytes(&upward[taken]));
        }
        let opening = VectorCommitmentOpeningProof {
            path_leaf_sibling_hash,
            path_auth_path,
            path_leaf_index: index,
            record: self.get_record(index),
            root: self.commitment(),
        };
        proof {
            assert(bottom_up(&opening) =~= siblings_below(
                self.leaves(),
                index as nat,
                self.depth(),
            ));
            lemma_opening_is_valid(&opening, self.leaves(), self.depth(), index as nat);
        }
        opening
    }

    /// Replaces leaf number `index` by `record` and answers the opening of
    /// that leaf before and after. The two openings differ in the leaf and
    /// in the root, and in nothing else.
    pub fn update_with_openings(&mut self, index: usize, record: &Vec<u8>) -> (openings: (
        VectorCommitmentOpeningProof,
        VectorCommitmentOpeningProof,
    ))
        requires
            old(self).wf(),
            index < old(self).leaves().len(),
        ensures
            final(self).wf(),
            final(self).depth() == old(self).depth(),
            final(self).leaves() == old(self).leaves().update(index as int, record@),
            opening_of(&openings.0, old(self).leaves(), old(self).depth(), index as nat),
            opening_of(&openings.1, final(self).leaves(), final(self).depth(), index as nat),
            opens(&openings.0),
            opens(&openings.1),
            bottom_up(&openings.0) == bottom_up(&openings.1),
            openings.1.record@ == record@,
            openings.0.root@.len() == 32,
            openings.1.root@.len() == 32,
    {
        let old_opening = self.opening_at(index);
        proof {
            lemma_update_keeps_path(self.leaves(), index as nat, record@, self.depth());
        }
        self.update(index, record);
        let new_opening = self.opening_at(index);
        (old_opening, new_opening)
    }
}

} // verus!
