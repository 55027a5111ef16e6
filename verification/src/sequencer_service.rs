//! The sequencer service's decisions.
//!
//! The sequencer verifies each submitted proof, reads the commitment of
//! the new note from its public inputs, inserts it at the next free leaf
//! of its tree and hands out the witness and the public inputs of the
//! Merkle-update proof. The tree is the full tree over SHA-256, of the
//! depth of the contract's tree; a note's leaf is the digest of the two
//! coordinates of its commitment, and a root enters the public inputs as
//! two field elements, one for each half of its bytes.

use crate::bytes::copy_bytes;
use crate::contract::MERKLE_TREE_LEVELS;
use crate::curve::{g1_check, inner_curve_point};
use crate::frontier_merkle_tree::{
    lemma_frontier_root_is_full_tree_root, lemma_padded_append, root_after,
};
use crate::groth16::{envelope_verdict, judge, verdict_outcome, verify_envelope, Rejection};
use crate::hash::{sha256, sha256_compress};
use crate::merkle::{padded, siblings_below, tree_root, width, zero_hash};
use crate::merkle_db::{bottom_up, opening_of, opens, top_down, MerkleDb};
use crate::merkle_update_circuit::{public_inputs, relation, statement};
use crate::protocol::{
    sha2_vector_commitment_opening_proof_to_bs58, GrothProofBs58, MerkleUpdateGrothPublicInput,
    OnRampProofBs58, OnrampGrothPublicInput, PaymentGrothPublicInput, PaymentProofBs58,
    VectorCommitmentOpeningProof, VectorCommitmentOpeningProofBs58,
};
use crate::utils::{bits_of, bytes_to_field, field_of_bits};
use crate::wire::{blobs, from_wire, texts, wire_bytes, wire_bytes_of_each, Layout};
use vstd::prelude::*;

verus! {

/// Which kind of transaction a proof belongs to.
#[derive(Clone, Copy, Debug, PartialEq, Eq, Structural)]
pub enum TxKind {
    /// A deposit: a public asset becomes a note.
    OnRamp,
    /// A spend: a note becomes another note.
    Payment,
}

impl TxKind {
    /// Number of public inputs of a proof of this kind.
    pub open spec fn input_count(self) -> usize {
        match self {
            TxKind::OnRamp => OnrampGrothPublicInput::COUNT,
            TxKind::Payment => PaymentGrothPublicInput::COUNT,
        }
    }

    /// Where the first coordinate of the new note's commitment stands
    /// among the public inputs.
    pub open spec fn commitment_x_at(self) -> usize {
        match self {
            TxKind::OnRamp => OnrampGrothPublicInput::COMMITMENT_X.position(),
            TxKind::Payment => PaymentGrothPublicInput::COMMITMENT_X.position(),
        }
    }

    /// Where the second coordinate of the new note's commitment stands
    /// among the public inputs.
    pub open spec fn commitment_y_at(self) -> usize {
        match self {
            TxKind::OnRamp => OnrampGrothPublicInput::COMMITMENT_Y.position(),
            TxKind::Payment => PaymentGrothPublicInput::COMMITMENT_Y.position(),
        }
    }
}

/// The witness of a tree update: the opening of the written leaf before
/// and after.
pub type UpdateWitness = (VectorCommitmentOpeningProof, VectorCommitmentOpeningProof);

/// The tree of notes: the full tree whose first leaves are the leaves
/// inserted so far and whose other leaves are empty.
pub struct CoinTree {
    db: MerkleDb,
    num_coins: usize,
    coins: Ghost<Seq<Seq<u8>>>,
}

impl CoinTree {
    /// The leaves inserted so far, in order.
    pub closed spec fn coins(&self) -> Seq<Seq<u8>> {
        self.coins@
    }

    /// Depth of the tree.
    pub closed spec fn depth(&self) -> nat {
        self.db.depth()
    }

    /// The leaves of the tree: the inserted ones, then empty leaves.
    pub open spec fn leaves(&self) -> Seq<Seq<u8>> {
        padded(self.coins(), width(self.depth()))
    }

    /// The root of the tree.
    pub open spec fn root_of(&self) -> Seq<u8> {
        tree_root(self.leaves(), self.depth())
    }

    /// The stored tree is the tree over `leaves()`.
    pub closed spec fn wf(&self) -> bool {
        &&& self.db.wf()
        &&& self.num_coins as nat == self.coins@.len()
        &&& self.coins@.len() <= width(self.db.depth())
        &&& self.db.leaves() == padded(self.coins@, width(self.db.depth()))
    }

    /// An empty tree of the given depth.
    pub fn new(levels: u32) -> (tree: Self)
        requires
            0 < levels < 32,
        ensures
            tree.wf(),
            tree.depth() == levels,
            tree.coins() == Seq::<Seq<u8>>::empty(),
    {
        let tree = CoinTree { db: MerkleDb::new(levels), num_coins: 0, coins: Ghost(Seq::empty()) };
        proof {
            assert(tree.db.leaves() =~= padded(tree.coins@, width(tree.db.depth())));
        }
        tree
    }

    /// Number of leaves inserted so far.
    pub fn coin_count(&self) -> (count: usize)
        requires
            self.wf(),
        ensures
            count as nat == self.coins().len(),
    {
        self.num_coins
    }

    /// Whether every leaf is taken.
    pub fn full(&self) -> (full: bool)
        requires
            self.wf(),
        ensures
            full == (self.coins().len() >= width(self.depth())),
    {
        self.num_coins >= self.db.leaf_count()
    }

    /// The root of the tree. Once a leaf was inserted, it is the root that
    /// a frontier tree computes for the same leaves.
    pub fn root(&self) -> (root: Vec<u8>)
        requires
            self.wf(),
        ensures
            root@ == self.root_of(),
            root@.len() == 32,
            self.coins().len() > 0 ==> root@ == root_after(
                self.coins(),
                self.coins().len(),
                self.depth(),
            ),
    {
        proof {
            if self.coins@.len() > 0 {
                lemma_frontier_root_is_full_tree_root(self.coins@, self.db.depth());
            }
        }
        self.db.commitment()
    }

    /// Inserts `com` at the first free leaf and answers the opening of
    /// that leaf before and after: the witness of the tree update. The
    /// opening before shows the empty leaf and the root before; the two
    /// openings share their path; the root after is the root that a
    /// frontier tree computes for the same leaves.
    pub fn add_coin(&mut self, com: &Vec<u8>) -> (outcome: Result<UpdateWitness, Rejection>)
        requires
            old(self).wf(),
        ensures
            final(self).wf(),
            final(self).depth() == old(self).depth(),
            match outcome {
                Ok(openings) => {
                    &&& old(self).coins().len() < width(old(self).depth())
                    &&& final(self).coins() == old(self).coins().push(com@)
                    &&& opening_of(
                        &openings.0,
                        old(self).leaves(),
                        old(self).depth(),
                        old(self).coins().len(),
                    )
                    &&& opening_of(
                        &openings.1,
                        final(self).leaves(),
                        final(self).depth(),
                        old(self).coins().len(),
                    )
                    &&& openings.0.record@ == zero_hash(0)
                    &&& openings.0.root@.len() == 32
                    &&& openings.1.root@.len() == 32
                    &&& final(self).root_of() == root_after(
                        final(self).coins(),
                        final(self).coins().len(),
                        final(self).depth(),
                    )
                    &&& relation(
                        old(self).coins().len(),
                        com@,
                        old(self).root_of(),
                        final(self).root_of(),
                        &openings.0,
                        &openings.1,
                    )
                },
                Err(rejection) => {
                    &&& rejection == Rejection::TreeFull
                    &&& old(self).coins().len() >= width(old(self).depth())
                    &&& final(self).coins() == old(self).coins()
                },
            },
    {
        let leaf_index: usize = self.num_coins;
        if leaf_index >= self.db.leaf_count() {
            return Err(Rejection::TreeFull);
        }
        proof {
            lemma_padded_append(self.coins@, com@, width(self.db.depth()));
            lemma_frontier_root_is_full_tree_root(self.coins@.push(com@), self.db.depth());
        }
        let openings = self.db.update_with_openings(leaf_index, com);
        self.num_coins = leaf_index + 1;
        self.coins = Ghost(self.coins@.push(com@));
        Ok(openings)
    }

    /// Answers a request for the opening of leaf number `index`, as text.
    pub fn serve_merkle_proof_request(
        &self,
        index: usize,
    ) -> (outcome: Result<VectorCommitmentOpeningProofBs58, Rejection>)
        requires
            self.wf(),
        ensures
            match outcome {
                Ok(envelope) => index < width(self.depth()) && opening_text_of(
                    &envelope,
                    self.leaves(),
                    self.depth(),
                    index as nat,
                ),
                Err(rejection) => rejection == Rejection::LeafOutOfRange && index >= width(
                    self.depth(),
                ),
            },
    {
        if index >= self.db.leaf_count() {
            return Err(Rejection::LeafOutOfRange);
        }
        let merkle_proof = self.db.opening_at(index);
        let envelope = sha2_vector_commitment_opening_proof_to_bs58(&merkle_proof);
        proof {
            assert(blobs(&merkle_proof.path_auth_path) =~= top_down(bottom_up(&merkle_proof)));
            assert(bottom_up(&merkle_proof)[0] == merkle_proof.path_leaf_sibling_hash@);
        }
        Ok(envelope)
    }
}

/// Whether an envelope carries the opening of leaf `index` in the tree of
/// depth `levels` over `leaves`, each digest framed.
pub open spec fn opening_text_of(
    envelope: &VectorCommitmentOpeningProofBs58,
    leaves: Seq<Seq<u8>>,
    levels: nat,
    index: nat,
) -> bool {
    &&& envelope.path_leaf_index == index
    &&& wire_bytes(envelope.record@, Layout::Framed) == Some(leaves[index as int])
    &&& wire_bytes(envelope.root@, Layout::Framed) == Some(tree_root(leaves, levels))
    &&& wire_bytes(envelope.path_leaf_sibling_hash@, Layout::Framed) == Some(
        siblings_below(leaves, index, levels)[0],
    )
    &&& wire_bytes_of_each(texts(&envelope.path_auth_path), Layout::Framed) == Some(
        top_down(siblings_below(leaves, index, levels)),
    )
}

/// The leaf of a note: the digest of the two coordinates of its
/// commitment, the first one first.
pub open spec fn leaf_of(commitment_x: Seq<u8>, commitment_y: Seq<u8>) -> Seq<u8> {
    sha256(commitment_x + commitment_y)
}

/// The two field elements in which a root enters the public inputs: its
/// first sixteen bytes and its last sixteen bytes, each as a number
/// written least significant byte first.
pub open spec fn root_coordinates(root: Seq<u8>) -> (Seq<u8>, Seq<u8>) {
    (field_of_bits(bits_of(root.subrange(0, 16))), field_of_bits(bits_of(root.subrange(16, 32))))
}

/// The public inputs of the proof that writing the note with the given
/// commitment at leaf `leaf_index` turns `old_root` into `new_root`.
pub open spec fn update_statement(
    leaf_index: nat,
    commitment_x: Seq<u8>,
    commitment_y: Seq<u8>,
    old_root: Seq<u8>,
    new_root: Seq<u8>,
) -> Seq<Seq<u8>> {
    statement(
        leaf_index,
        commitment_x,
        commitment_y,
        root_coordinates(old_root).0,
        root_coordinates(old_root).1,
        root_coordinates(new_root).0,
        root_coordinates(new_root).1,
    )
}

/// What the sequencer hands to the prover of the Merkle update: where the
/// note went, the witness and the public inputs.
#[derive(Debug, Clone)]
pub struct TreeUpdate {
    /// The leaf that the new note got.
    pub leaf_index: usize,
    /// First coordinate of the note's commitment, serialized.
    pub commitment_x: Vec<u8>,
    /// Second coordinate of the note's commitment, serialized.
    pub commitment_y: Vec<u8>,
    /// The opening of the leaf before the update.
    pub old_merkle_proof: VectorCommitmentOpeningProof,
    /// The opening of the leaf after the update.
    pub new_merkle_proof: VectorCommitmentOpeningProof,
    /// The public inputs of the Merkle-update proof, in their order.
    pub public_inputs: Vec<Vec<u8>>,
}

/// The commitment that a proof's public inputs declare, if both
/// coordinates are there and readable.
pub open spec fn declared_commitment(kind: TxKind, input: &GrothProofBs58) -> Option<
    (Seq<u8>, Seq<u8>),
> {
    if input.public_inputs@.len() == kind.input_count() {
        match (
            wire_bytes(texts(&input.public_inputs)[kind.commitment_x_at() as int], Layout::Bare),
            wire_bytes(texts(&input.public_inputs)[kind.commitment_y_at() as int], Layout::Bare),
        ) {
            (Some(x), Some(y)) => Some((x, y)),
            _ => None,
        }
    } else {
        None
    }
}

/// Whether a submission gets a leaf, given the verifier's verdict on its
/// proof, or the first check that fails.
pub open spec fn intake_check(
    num_coins: nat,
    kind: TxKind,
    input: &GrothProofBs58,
    verdict: Option<bool>,
) -> Result<(), Rejection> {
    match verdict_outcome(verdict) {
        Err(rejection) => Err(rejection),
        Ok(_) => match declared_commitment(kind, input) {
            None => Err(Rejection::MalformedInput),
            Some(point) => if !inner_curve_point(point.0, point.1) {
                Err(Rejection::MalformedInput)
            } else if num_coins >= width(MERKLE_TREE_LEVELS as nat) {
                Err(Rejection::TreeFull)
            } else {
                Ok(())
            },
        },
    }
}

/// The sequencer's state: the verifying keys for submissions and the
/// tree of notes.
pub struct AppStateType {
    onramp_vk: Vec<u8>,
    payment_vk: Vec<u8>,
    tree: CoinTree,
}

impl AppStateType {
    /// The verifying key for deposits, serialized.
    pub closed spec fn onramp_vk(&self) -> Seq<u8> {
        self.onramp_vk@
    }

    /// The verifying key for payments, serialized.
    pub closed spec fn payment_vk(&self) -> Seq<u8> {
        self.payment_vk@
    }

    /// The leaves of the notes in the tree, in order.
    pub closed spec fn coins(&self) -> Seq<Seq<u8>> {
        self.tree.coins()
    }

    /// Number of notes in the tree.
    pub open spec fn num_coins(&self) -> nat {
        self.coins().len()
    }

    /// The root of the tree.
    pub open spec fn root_of(&self) -> Seq<u8> {
        tree_root(
            padded(self.coins(), width(MERKLE_TREE_LEVELS as nat)),
            MERKLE_TREE_LEVELS as nat,
        )
    }

    /// The tree is in order and has the depth of the contract's tree.
    pub closed spec fn wf(&self) -> bool {
        self.tree.wf() && self.tree.depth() == MERKLE_TREE_LEVELS
    }

    /// The key that proofs of `kind` are verified against.
    pub open spec fn vk_for(&self, kind: TxKind) -> Seq<u8> {
        match kind {
            TxKind::OnRamp => self.onramp_vk(),
            TxKind::Payment => self.payment_vk(),
        }
    }

    /// Whether `other` has the same keys.
    pub open spec fn same_keys(&self, other: &Self) -> bool {
        other.onramp_vk() == self.onramp_vk() && other.payment_vk() == self.payment_vk()
    }

    /// Number of notes in the tree.
    pub fn coin_count(&self) -> (count: usize)
        requires
            self.wf(),
        ensures
            count as nat == self.num_coins(),
    {
        self.tree.coin_count()
    }

    /// The root of the tree.
    pub fn root(&self) -> (root: Vec<u8>)
        requires
            self.wf(),
        ensures
            root@ == self.root_of(),
            root@.len() == 32,
    {
        self.tree.root()
    }
}

/// A sequencer with an empty tree and the given serialized verifying
/// keys.
pub fn initialize_state(onramp_vk: Vec<u8>, payment_vk: Vec<u8>) -> (state: AppStateType)
    ensures
        state.wf(),
        state.onramp_vk() == onramp_vk@,
        state.payment_vk() == payment_vk@,
        state.coins() == Seq::<Seq<u8>>::empty(),
{
    AppStateType { onramp_vk, payment_vk, tree: CoinTree::new(MERKLE_TREE_LEVELS) }
}

/// The first or the last sixteen bytes of a root as a field element.
fn root_coordinate(root: &Vec<u8>, start: usize) -> (field: Vec<u8>)
    requires
        root@.len() == 32,
        start == 0 || start == 16,
    ensures
        field@ == field_of_bits(bits_of(root@.subrange(start as int, start + 16))),
{
    let mut half: Vec<u8> = Vec::new();
    let mut i: usize = 0;
    while i < 16
        invariant
            i <= 16,
            start == 0 || start == 16,
            root@.len() == 32,
            half@.len() == i,
            forall|k: int| 0 <= k < i ==> #[trigger] half@[k] == root@[start + k],
        decreases 16 - i,
    {
        half.push(root[start + i]);
        i += 1;
    }
    assert(half@ =~= root@.subrange(start as int, start + 16));
    bytes_to_field(half.as_slice())
}

/// What `add_coin_to_state` comes to: the note with the given commitment
/// lies at the leaf that was the next free one, the witness satisfies the
/// relation of the Merkle update from the root before to the root after,
/// and the public inputs are those of that update.
pub open spec fn tree_updated(
    before: &AppStateType,
    after: &AppStateType,
    commitment_x: Seq<u8>,
    commitment_y: Seq<u8>,
    update: &TreeUpdate,
) -> bool {
    &&& before.num_coins() < width(MERKLE_TREE_LEVELS as nat)
    &&& after.coins() == before.coins().push(leaf_of(commitment_x, commitment_y))
    &&& update.leaf_index as nat == before.num_coins()
    &&& update.commitment_x@ == commitment_x
    &&& update.commitment_y@ == commitment_y
    &&& update.old_merkle_proof.record@ == zero_hash(0)
    &&& relation(
        before.num_coins(),
        leaf_of(commitment_x, commitment_y),
        before.root_of(),
        after.root_of(),
        &update.old_merkle_proof,
        &update.new_merkle_proof,
    )
    &&& after.root_of() == root_after(
        after.coins(),
        after.coins().len(),
        MERKLE_TREE_LEVELS as nat,
    )
    &&& blobs(&update.public_inputs) == update_statement(
        before.num_coins(),
        commitment_x,
        commitment_y,
        before.root_of(),
        after.root_of(),
    )
}

/// Inserts the note with the given commitment at the next free leaf and
/// answers the witness and the public inputs of the Merkle update. The
/// update starts from the root that the update before it arrived at.
pub fn add_coin_to_state(
    state: &mut AppStateType,
    commitment_x: &Vec<u8>,
    commitment_y: &Vec<u8>,
) -> (outcome: Result<TreeUpdate, Rejection>)
    requires
        old(state).wf(),
    ensures
        final(state).wf(),
        old(state).same_keys(final(state)),
        match outcome {
            Ok(update) => tree_updated(
                old(state),
                final(state),
                commitment_x@,
                commitment_y@,
                &update,
            ),
            Err(rejection) => {
                &&& rejection == Rejection::TreeFull
                &&& old(state).num_coins() >= width(MERKLE_TREE_LEVELS as nat)
                &&& final(state).coins() == old(state).coins()
            },
        },
{
    let leaf_index = state.tree.coin_count();
    let old_root = state.tree.root();
    let leaf = sha256_compress(commitment_x, commitment_y);
    let (old_merkle_proof, new_merkle_proof) = match state.tree.add_coin(&leaf) {
        Ok(openings) => openings,
        Err(rejection) => {
            return Err(rejection);
        },
    };
    let new_root = state.tree.root();
    let old_root_x = root_coordinate(&old_root, 0);
    let old_root_y = root_coordinate(&old_root, 16);
    let new_root_x = root_coordinate(&new_root, 0);
    let new_root_y = root_coordinate(&new_root, 16);
    let inputs = public_inputs(
        leaf_index,
        commitment_x,
        commitment_y,
        &old_root_x,
        &old_root_y,
        &new_root_x,
        &new_root_y,
    );
    Ok(
        TreeUpdate {
            leaf_index,
            commitment_x: copy_bytes(commitment_x),
            commitment_y: copy_bytes(commitment_y),
            old_merkle_proof,
            new_merkle_proof,
            public_inputs: inputs,
        },
    )
}

/// Reads the commitment that a proof's public inputs declare.
pub fn read_commitment(kind: TxKind, input: &GrothProofBs58) -> (point: Option<(Vec<u8>, Vec<u8>)>)
    ensures
        match point {
            Some(pair) => declared_commitment(kind, input) == Some((pair.0@, pair.1@)),
            None => declared_commitment(kind, input) is None,
        },
{
    let (count, x_at, y_at): (usize, usize, usize) = match kind {
        TxKind::OnRamp => (
            OnrampGrothPublicInput::COUNT,
            OnrampGrothPublicInput::COMMITMENT_X.index(),
            OnrampGrothPublicInput::COMMITMENT_Y.index(),
        ),
        TxKind::Payment => (
            PaymentGrothPublicInput::COUNT,
            PaymentGrothPublicInput::COMMITMENT_X.index(),
            PaymentGrothPublicInput::COMMITMENT_Y.index(),
        ),
    };
    if input.public_inputs.len() != count {
        return None;
    }
    let x = from_wire(&input.public_inputs[x_at], Layout::Bare);
    let y = from_wire(&input.public_inputs[y_at], Layout::Bare);
    match (x, y) {
        (Some(x), Some(y)) => Some((x, y)),
        _ => None,
    }
}

/// What a decision on a submission comes to, given the verifier's verdict
/// on its proof. An accepted submission has the note it declares inserted
/// at the next leaf, as `tree_updated` says; a rejected one is told the
/// first check that failed, and nothing changes. The keys stay as they
/// are.
pub open spec fn intake(
    before: &AppStateType,
    after: &AppStateType,
    kind: TxKind,
    input: &GrothProofBs58,
    verdict: Option<bool>,
    outcome: Result<TreeUpdate, Rejection>,
) -> bool {
    &&& before.same_keys(after)
    &&& match outcome {
        Ok(update) => {
            &&& intake_check(before.num_coins(), kind, input, verdict) is Ok
            &&& declared_commitment(kind, input) == Some(
                (update.commitment_x@, update.commitment_y@),
            )
            &&& tree_updated(before, after, update.commitment_x@, update.commitment_y@, &update)
        },
        Err(rejection) => {
            &&& intake_check(before.num_coins(), kind, input, verdict) == Err::<(), Rejection>(
                rejection,
            )
            &&& after.coins() == before.coins()
        },
    }
}

/// Decides on a submission, given the verifier's verdict on its proof:
/// if the proof is valid, the declared commitment is a point of the curve
/// and the tree has room, the note is inserted at the next leaf.
pub fn settle_tx(
    state: &mut AppStateType,
    kind: TxKind,
    input: &GrothProofBs58,
    verdict: Option<bool>,
) -> (outcome: Result<TreeUpdate, Rejection>)
    requires
        old(state).wf(),
    ensures
        final(state).wf(),
        intake(old(state), final(state), kind, input, verdict, outcome),
{
    match judge(verdict) {
        Err(rejection) => {
            return Err(rejection);
        },
        Ok(_) => {},
    }
    // grab the commitment of the note being created by this transaction
    let (commitment_x, commitment_y) = match read_commitment(kind, input) {
        Some(pair) => pair,
        None => {
            return Err(Rejection::MalformedInput);
        },
    };
    if !g1_check(&commitment_x, &commitment_y) {
        return Err(Rejection::MalformedInput);
    }
    // add the note to the tree
    add_coin_to_state(state, &commitment_x, &commitment_y)
}

/// Handles a submission of the given kind: verifies its proof against
/// the key of that kind and decides as `settle_tx` does.
pub fn process_tx(
    state: &mut AppStateType,
    kind: TxKind,
    input: &GrothProofBs58,
) -> (outcome: Result<TreeUpdate, Rejection>)
    requires
        old(state).wf(),
    ensures
        final(state).wf(),
        intake(
            old(state),
            final(state),
            kind,
            input,
            envelope_verdict(old(state).vk_for(kind), input),
            outcome,
        ),
{
    let verdict = match kind {
        TxKind::OnRamp => verify_envelope(&state.onramp_vk, input),
        TxKind::Payment => verify_envelope(&state.payment_vk, input),
    };
    settle_tx(state, kind, input, verdict)
}

/// Handles a deposit: verifies the on-ramp proof and inserts the new
/// note at the next leaf.
pub fn process_onramp_tx(
    state: &mut AppStateType,
    input: &GrothProofBs58,
) -> (outcome: Result<TreeUpdate, Rejection>)
    requires
        old(state).wf(),
    ensures
        final(state).wf(),
        intake(
            old(state),
            final(state),
            TxKind::OnRamp,
            input,
            envelope_verdict(old(state).onramp_vk(), input),
            outcome,
        ),
{
    process_tx(state, TxKind::OnRamp, input)
}

/// Handles a spend: verifies the payment proof and inserts the output
/// note at the next leaf.
pub fn process_payment_tx(
    state: &mut AppStateType,
    tx: &GrothProofBs58,
) -> (outcome: Result<TreeUpdate, Rejection>)
    requires
        old(state).wf(),
    ensures
        final(state).wf(),
        intake(
            old(state),
            final(state),
            TxKind::Payment,
            tx,
            envelope_verdict(old(state).payment_vk(), tx),
            outcome,
        ),
{
    process_tx(state, TxKind::Payment, tx)
}

/// Answers a request for the opening of leaf number `index`, as text.
pub fn serve_merkle_proof_request(
    state: &AppStateType,
    index: usize,
) -> (outcome: Result<VectorCommitmentOpeningProofBs58, Rejection>)
    requires
        state.wf(),
    ensures
        match outcome {
            Ok(envelope) => index < width(MERKLE_TREE_LEVELS as nat) && opening_text_of(
                &envelope,
                padded(state.coins(), width(MERKLE_TREE_LEVELS as nat)),
                MERKLE_TREE_LEVELS as nat,
                index as nat,
            ),
            Err(rejection) => rejection == Rejection::LeafOutOfRange && index >= width(
                MERKLE_TREE_LEVELS as nat,
            ),
        },
{
    state.tree.serve_merkle_proof_request(index)
}

/// Two updates in a row chain: the second starts from the root at which
/// the first arrived, and takes the leaf after the first one's.
pub proof fn lemma_updates_chain(
    start: &AppStateType,
    middle: &AppStateType,
    end: &AppStateType,
    first: &TreeUpdate,
    second: &TreeUpdate,
)
    requires
        tree_updated(start, middle, first.commitment_x@, first.commitment_y@, first),
        tree_updated(middle, end, second.commitment_x@, second.commitment_y@, second),
    ensures
        second.leaf_index == first.leaf_index + 1,
        second.old_merkle_proof.root@ == first.new_merkle_proof.root@,
        blobs(&second.public_inputs)[MerkleUpdateGrothPublicInput::OLD_ROOT_X.position() as int]
            == blobs(&first.public_inputs)[MerkleUpdateGrothPublicInput::NEW_ROOT_X.position() as int],
        blobs(&second.public_inputs)[MerkleUpdateGrothPublicInput::OLD_ROOT_Y.position() as int]
            == blobs(&first.public_inputs)[MerkleUpdateGrothPublicInput::NEW_ROOT_Y.position() as int],
{
}

/// The bundle that goes to the verifier for a deposit: the submitted
/// proof and the proof of the tree update it caused.
pub fn onramp_bundle(
    input: &GrothProofBs58,
    merkle_update_proof: GrothProofBs58,
) -> (bundle: OnRampProofBs58)
    ensures
        bundle.on_ramp_proof.proof@ == input.proof@,
        texts(&bundle.on_ramp_proof.public_inputs) == texts(&input.public_inputs),
        bundle.merkle_update_proof == merkle_update_proof,
{
    OnRampProofBs58 { on_ramp_proof: input.duplicate(), merkle_update_proof }
}

/// The bundle that goes to the verifier for a spend: the submitted proof
/// and the proof of the tree update it caused.
pub fn payment_bundle(
    tx: &GrothProofBs58,
    merkle_update_proof: GrothProofBs58,
) -> (bundle: PaymentProofBs58)
    ensures
        bundle.payment_proof.proof@ == tx.proof@,
        texts(&bundle.payment_proof.public_inputs) == texts(&tx.public_inputs),
        bundle.merkle_update_proof == merkle_update_proof,
{
    PaymentProofBs58 { payment_proof: tx.duplicate(), merkle_update_proof }
}

/// What the sender is told once the verifier has answered.
pub fn reply(verifier_accepted: bool) -> (text: String)
    ensures
        verifier_accepted ==> text@ == "OK"@,
        !verifier_accepted ==> text@ == "FAILED"@,
{
    if verifier_accepted {
        "OK".to_owned()
    } else {
        "FAILED".to_owned()
    }
}

} // verus!
