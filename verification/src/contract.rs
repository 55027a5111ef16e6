//! The on-chain payment contract: the arbiter of the ledger.
//!
//! It keeps the frontier of the tree of note commitments, the ring of
//! recent roots and the set of spent nullifiers, and it is bound to the
//! payment verifying key by the key's digest. A payment is accepted if its
//! nullifier is new, the root it was proved against is still in the ring,
//! and a Groth16 proof over the root, the nullifier and the output
//! commitment verifies under the bound key; it then records the nullifier
//! and appends the output commitment.
//!
//! The host ledger knows four error codes. A call whose values are not 32
//! bytes long, and a call whose proof does not verify, are answered with
//! `IllegalContractCall`.

use crate::bytes::{copy_bytes, same_bytes};
use crate::frontier_merkle_tree::{
    filled_entry, recent_roots, FrontierMerkleTreeWithHistory,
};
use crate::groth16::groth16_verdict_inner;
use crate::groth_verifier::{bound_verdict, bound_verify};
use crate::merkle::{tree_root, width};
use crate::wire::blobs;
use vstd::prelude::*;

verus! {

/// Depth of the contract's tree.
pub const MERKLE_TREE_LEVELS: u32 = 15;

/// Number of recent roots the contract accepts.
pub const ROOT_HISTORY_SIZE: u32 = 30;

/// Why the contract refused a call.
#[derive(Copy, Clone, Debug, PartialEq, Eq, PartialOrd, Ord, Structural)]
pub enum SanctumError {
    /// The contract has not been initialized.
    ContractUninitialized,
    /// The call is not allowed in the contract's state.
    IllegalContractCall,
    /// The nullifier was already spent.
    DuplicateNullifier,
    /// The root is not among the recent roots.
    UnknownRoot,
}

impl SanctumError {
    /// The number under which the host ledger reports the error.
    pub open spec fn code_of(self) -> u32 {
        match self {
            SanctumError::ContractUninitialized => 1,
            SanctumError::IllegalContractCall => 2,
            SanctumError::DuplicateNullifier => 3,
            SanctumError::UnknownRoot => 4,
        }
    }

    /// The number under which the host ledger reports the error.
    pub fn code(&self) -> (code: u32)
        ensures
            code == self.code_of(),
    {
        match self {
            SanctumError::ContractUninitialized => 1,
            SanctumError::IllegalContractCall => 2,
            SanctumError::DuplicateNullifier => 3,
            SanctumError::UnknownRoot => 4,
        }
    }
}

/// Number of bytes of a root, a commitment and a nullifier.
pub const VALUE_BYTES: usize = 32;

/// What the contract stores, as mathematics.
pub struct Ledger {
    /// Whether `initialize` has run.
    pub initialized: bool,
    /// The digest of the payment verifying key that the contract is bound
    /// to.
    pub vk_hash: Seq<u8>,
    /// The commitments appended to the tree, in order.
    pub coins: Seq<Seq<u8>>,
    /// The nullifiers spent so far.
    pub nullifiers: Set<Seq<u8>>,
}

/// One call of `payment`.
pub struct PaymentCall {
    /// The root the spend was proved against.
    pub root: Seq<u8>,
    /// The commitment of the output note.
    pub new_coin_hash: Seq<u8>,
    /// The nullifier of the input note.
    pub old_coin_nullifier: Seq<u8>,
}

/// A call of `payment` together with the verdict on its proof.
pub struct Submission {
    /// The call.
    pub call: PaymentCall,
    /// What the proof system answered for the call's proof.
    pub verdict: Option<bool>,
}

/// The ledger of a contract that was deployed and not yet initialized.
pub open spec fn blank_ledger(vk_hash: Seq<u8>) -> Ledger {
    Ledger { initialized: false, vk_hash, coins: Seq::empty(), nullifiers: Set::empty() }
}

/// The ledger right after `initialize`.
pub open spec fn fresh_ledger(vk_hash: Seq<u8>) -> Ledger {
    Ledger { initialized: true, vk_hash, coins: Seq::empty(), nullifiers: Set::empty() }
}

/// The roots a ledger accepts, oldest first.
pub open spec fn ledger_roots(ledger: Ledger) -> Seq<Seq<u8>> {
    if ledger.initialized {
        recent_roots(ledger.coins, MERKLE_TREE_LEVELS as nat, ROOT_HISTORY_SIZE as nat)
    } else {
        Seq::empty()
    }
}

/// Whether the three values of a call have 32 bytes each.
pub open spec fn well_formed(call: PaymentCall) -> bool {
    &&& call.root.len() == VALUE_BYTES
    &&& call.new_coin_hash.len() == VALUE_BYTES
    &&& call.old_coin_nullifier.len() == VALUE_BYTES
}

/// Sixteen bytes of a value from `start` on as an element of the scalar
/// field of BLS12-377 in its serialized form: the bytes, then sixteen zero
/// bytes.
pub open spec fn half_element(value: Seq<u8>, start: int) -> Seq<u8> {
    value.subrange(start, start + 16) + Seq::new(16, |i: int| 0u8)
}

/// The public inputs of a payment's proof: the root, the nullifier and
/// the output commitment, in this order, each as two field elements, the
/// lower half first.
pub open spec fn payment_image(call: PaymentCall) -> Seq<Seq<u8>> {
    seq![
        half_element(call.root, 0),
        half_element(call.root, 16),
        half_element(call.old_coin_nullifier, 0),
        half_element(call.old_coin_nullifier, 16),
        half_element(call.new_coin_hash, 0),
        half_element(call.new_coin_hash, 16),
    ]
}

/// The two halves of a value tell the value.
pub proof fn lemma_halves_tell_value(first: Seq<u8>, second: Seq<u8>)
    requires
        first.len() == VALUE_BYTES,
        second.len() == VALUE_BYTES,
        half_element(first, 0) == half_element(second, 0),
        half_element(first, 16) == half_element(second, 16),
    ensures
        first == second,
{
    assert forall|i: int| 0 <= i < 32 implies first[i] == second[i] by {
        if i < 16 {
            assert(half_element(first, 0)[i] == first[i]);
            assert(half_element(second, 0)[i] == second[i]);
        } else {
            assert(half_element(first, 16)[i - 16] == first[i]);
            assert(half_element(second, 16)[i - 16] == second[i]);
        }
    }
    assert(first =~= second);
}

/// Different calls have different public inputs: a proof for one call is
/// a proof for no other.
pub proof fn lemma_image_tells_call(first: PaymentCall, second: PaymentCall)
    requires
        well_formed(first),
        well_formed(second),
        payment_image(first) == payment_image(second),
    ensures
        first == second,
{
    let a = payment_image(first);
    let b = payment_image(second);
    assert(a[0] == b[0] && a[1] == b[1] && a[2] == b[2] && a[3] == b[3] && a[4] == b[4] && a[5]
        == b[5]);
    lemma_halves_tell_value(first.root, second.root);
    lemma_halves_tell_value(first.old_coin_nullifier, second.old_coin_nullifier);
    lemma_halves_tell_value(first.new_coin_hash, second.new_coin_hash);
}

/// What the verdict on a payment's proof is for a contract bound to the
/// key with digest `vk_hash`: the answer of the proof system for the key
/// shown, the call's public inputs and the proof, if the key is the bound
/// one.
pub open spec fn payment_verdict(
    vk_hash: Seq<u8>,
    key: Seq<u8>,
    proof: Seq<u8>,
    call: PaymentCall,
) -> Option<bool> {
    bound_verdict(vk_hash, key, groth16_verdict_inner(key, payment_image(call), proof))
}

/// What a payment is answered by an initialized contract with the given
/// tree, once its nullifier set was asked whether it holds the payment's
/// nullifier: the new root, or the first check that fails.
pub open spec fn spend_outcome(
    coins: Seq<Seq<u8>>,
    nullifier_spent: bool,
    call: PaymentCall,
    verdict: Option<bool>,
) -> Result<Seq<u8>, SanctumError> {
    if !well_formed(call) {
        Err(SanctumError::IllegalContractCall)
    } else if nullifier_spent {
        Err(SanctumError::DuplicateNullifier)
    } else if !recent_roots(coins, MERKLE_TREE_LEVELS as nat, ROOT_HISTORY_SIZE as nat).contains(
        call.root,
    ) {
        Err(SanctumError::UnknownRoot)
    } else if verdict != Some(true) {
        Err(SanctumError::IllegalContractCall)
    } else {
        Ok(tree_root(coins.push(call.new_coin_hash), MERKLE_TREE_LEVELS as nat))
    }
}

/// What `payment` answers, given the verdict on its proof: the new root,
/// or the first check that fails. Nothing is accepted unless the verdict
/// is favourable.
pub open spec fn payment_outcome(
    ledger: Ledger,
    call: PaymentCall,
    verdict: Option<bool>,
) -> Result<Seq<u8>, SanctumError> {
    if !ledger.initialized {
        Err(SanctumError::ContractUninitialized)
    } else {
        spend_outcome(
            ledger.coins,
            ledger.nullifiers.contains(call.old_coin_nullifier),
            call,
            verdict,
        )
    }
}

/// The ledger after `payment`: unchanged if the call is refused.
pub open spec fn payment_effect(
    ledger: Ledger,
    call: PaymentCall,
    verdict: Option<bool>,
) -> Ledger {
    if payment_outcome(ledger, call, verdict) is Ok {
        Ledger {
            coins: ledger.coins.push(call.new_coin_hash),
            nullifiers: ledger.nullifiers.insert(call.old_coin_nullifier),
            ..ledger
        }
    } else {
        ledger
    }
}

/// The ledger after a run of payments.
pub open spec fn run_payments(ledger: Ledger, calls: Seq<Submission>) -> Ledger
    decreases calls.len(),
{
    if calls.len() == 0 {
        ledger
    } else {
        payment_effect(
            run_payments(ledger, calls.drop_last()),
            calls.last().call,
            calls.last().verdict,
        )
    }
}

/// How many payments of a run are accepted.
pub open spec fn accepted_payments(ledger: Ledger, calls: Seq<Submission>) -> nat
    decreases calls.len(),
{
    if calls.len() == 0 {
        0
    } else {
        let earlier = accepted_payments(ledger, calls.drop_last());
        if payment_outcome(
            run_payments(ledger, calls.drop_last()),
            calls.last().call,
            calls.last().verdict,
        ) is Ok {
            earlier + 1
        } else {
            earlier
        }
    }
}

/// Sixteen bytes of `value` from `start` on as a field element.
fn half_as_element(value: &Vec<u8>, start: usize) -> (element: Vec<u8>)
    requires
        value@.len() == VALUE_BYTES,
        start == 0 || start == 16,
    ensures
        element@ == half_element(value@, start as int),
{
    let mut element: Vec<u8> = Vec::new();
    let mut i: usize = 0;
    while i < 16
        invariant
            i <= 16,
            start == 0 || start == 16,
            value@.len() == VALUE_BYTES,
            element@.len() == i,
            forall|k: int| 0 <= k < i ==> #[trigger] element@[k] == value@[start + k],
        decreases 16 - i,
    {
        element.push(value[start + i]);
        i += 1;
    }
    let mut j: usize = 0;
    while j < 16
        invariant
            j <= 16,
            start == 0 || start == 16,
            value@.len() == VALUE_BYTES,
            element@.len() == 16 + j,
            forall|k: int| 0 <= k < 16 ==> #[trigger] element@[k] == value@[start + k],
            forall|k: int| 16 <= k < 16 + j ==> #[trigger] element@[k] == 0u8,
        decreases 16 - j,
    {
        element.push(0u8);
        j += 1;
    }
    assert(element@ =~= half_element(value@, start as int));
    element
}

/// Arranges the public inputs of a payment's proof.
pub fn arrange_payment(
    root: &Vec<u8>,
    new_coin_hash: &Vec<u8>,
    old_coin_nullifier: &Vec<u8>,
) -> (image: Vec<Vec<u8>>)
    requires
        root@.len() == VALUE_BYTES,
        new_coin_hash@.len() == VALUE_BYTES,
        old_coin_nullifier@.len() == VALUE_BYTES,
    ensures
        blobs(&image) == payment_image(
            (PaymentCall {
                root: root@,
                new_coin_hash: new_coin_hash@,
                old_coin_nullifier: old_coin_nullifier@,
            }),
        ),
{
    let mut image: Vec<Vec<u8>> = Vec::new();
    image.push(half_as_element(root, 0));
    image.push(half_as_element(root, 16));
    image.push(half_as_element(old_coin_nullifier, 0));
    image.push(half_as_element(old_coin_nullifier, 16));
    image.push(half_as_element(new_coin_hash, 0));
    image.push(half_as_element(new_coin_hash, 16));
    assert(blobs(&image) =~= payment_image(
        (PaymentCall {
            root: root@,
            new_coin_hash: new_coin_hash@,
            old_coin_nullifier: old_coin_nullifier@,
        }),
    ));
    image
}

/// The verdict on a payment's proof for a contract bound to the key with
/// digest `vk_hash`; none if a value of the call has not 32 bytes.
pub fn verify_payment(
    vk_hash: &Vec<u8>,
    key: &Vec<u8>,
    proof: &Vec<u8>,
    root: &Vec<u8>,
    new_coin_hash: &Vec<u8>,
    old_coin_nullifier: &Vec<u8>,
) -> (verdict: Option<bool>)
    ensures
        ({
            let call = PaymentCall {
                root: root@,
                new_coin_hash: new_coin_hash@,
                old_coin_nullifier: old_coin_nullifier@,
            };
            verdict == if well_formed(call) {
                payment_verdict(vk_hash@, key@, proof@, call)
            } else {
                None
            }
        }),
{
    if root.len() != VALUE_BYTES || new_coin_hash.len() != VALUE_BYTES || old_coin_nullifier.len()
        != VALUE_BYTES {
        return None;
    }
    let image = arrange_payment(root, new_coin_hash, old_coin_nullifier);
    bound_verify(vk_hash, key, proof, &image)
}

/// What `spend` comes to on a traced tree: the answer is the one of
/// `spend_outcome`, and the output commitment is appended exactly if the
/// payment is accepted.
pub open spec fn spent_as(
    before: Seq<Seq<u8>>,
    after: Seq<Seq<u8>>,
    nullifier_spent: bool,
    call: PaymentCall,
    verdict: Option<bool>,
    outcome: Result<Vec<u8>, SanctumError>,
) -> bool {
    match outcome {
        Ok(new_root) => {
            &&& spend_outcome(before, nullifier_spent, call, verdict) == Ok::<
                Seq<u8>,
                SanctumError,
            >(new_root@)
            &&& after == before.push(call.new_coin_hash)
        },
        Err(error) => {
            &&& spend_outcome(before, nullifier_spent, call, verdict) == Err::<
                Seq<u8>,
                SanctumError,
            >(error)
            &&& after == before
        },
    }
}

/// Settles a payment on the tree of an initialized contract that keeps
/// its nullifier set in a key-value store and has looked the payment's
/// nullifier up there. If the payment is accepted, the output commitment
/// is appended and the new root is answered; the caller then records the
/// nullifier.
pub fn spend(
    tree: &mut FrontierMerkleTreeWithHistory,
    nullifier_spent: bool,
    root: &Vec<u8>,
    new_coin_hash: &Vec<u8>,
    old_coin_nullifier: &Vec<u8>,
    verdict: Option<bool>,
) -> (outcome: Result<Vec<u8>, SanctumError>)
    requires
        old(tree).wf(),
        old(tree).depth() == MERKLE_TREE_LEVELS,
        old(tree).history_size() == ROOT_HISTORY_SIZE,
        old(tree).traced() && spend_outcome(
            old(tree).leaves(),
            nullifier_spent,
            (PaymentCall {
                root: root@,
                new_coin_hash: new_coin_hash@,
                old_coin_nullifier: old_coin_nullifier@,
            }),
            verdict,
        ) is Ok ==> !old(tree).is_full(),
    ensures
        final(tree).wf(),
        final(tree).depth() == MERKLE_TREE_LEVELS,
        final(tree).history_size() == ROOT_HISTORY_SIZE,
        final(tree).traced() == old(tree).traced(),
        outcome matches Ok(new_root) ==> new_root@.len() == VALUE_BYTES,
        outcome is Err ==> final(tree).count() == old(tree).count(),
        old(tree).traced() ==> spent_as(
            old(tree).leaves(),
            final(tree).leaves(),
            nullifier_spent,
            (PaymentCall {
                root: root@,
                new_coin_hash: new_coin_hash@,
                old_coin_nullifier: old_coin_nullifier@,
            }),
            verdict,
            outcome,
        ),
{
    if root.len() != VALUE_BYTES || new_coin_hash.len() != VALUE_BYTES || old_coin_nullifier.len()
        != VALUE_BYTES {
        return Err(SanctumError::IllegalContractCall);
    }
    // check for double spending
    if nullifier_spent {
        return Err(SanctumError::DuplicateNullifier);
    }
    // check that the proof was made against a recent root
    if !tree.is_known_root(root) {
        return Err(SanctumError::UnknownRoot);
    }
    // check the proof
    match verdict {
        Some(true) => {},
        _ => {
            return Err(SanctumError::IllegalContractCall);
        },
    }
    // a tree that was read back full and cannot be traced takes no leaf
    if tree.full() {
        return Err(SanctumError::IllegalContractCall);
    }
    tree.insert(new_coin_hash);
    let new_root = tree.get_latest_root();
    proof {
        assert(tree.leaves().take(tree.leaves().len() as int) =~= tree.leaves());
    }
    Ok(new_root)
}

/// Verifies a payment's proof and settles the payment on the tree of a
/// contract that keeps its nullifier set in a key-value store.
pub fn stored_payment(
    tree: &mut FrontierMerkleTreeWithHistory,
    vk_hash: &Vec<u8>,
    nullifier_spent: bool,
    key: &Vec<u8>,
    proof: &Vec<u8>,
    root: &Vec<u8>,
    new_coin_hash: &Vec<u8>,
    old_coin_nullifier: &Vec<u8>,
) -> (outcome: Result<Vec<u8>, SanctumError>)
    requires
        old(tree).wf(),
        old(tree).depth() == MERKLE_TREE_LEVELS,
        old(tree).history_size() == ROOT_HISTORY_SIZE,
        old(tree).traced() && spend_outcome(
            old(tree).leaves(),
            nullifier_spent,
            (PaymentCall {
                root: root@,
                new_coin_hash: new_coin_hash@,
                old_coin_nullifier: old_coin_nullifier@,
            }),
            Some(true),
        ) is Ok ==> !old(tree).is_full(),
    ensures
        final(tree).wf(),
        final(tree).depth() == MERKLE_TREE_LEVELS,
        final(tree).history_size() == ROOT_HISTORY_SIZE,
        final(tree).traced() == old(tree).traced(),
        outcome matches Ok(new_root) ==> new_root@.len() == VALUE_BYTES,
        outcome is Err ==> final(tree).count() == old(tree).count(),
        old(tree).traced() ==> spent_as(
            old(tree).leaves(),
            final(tree).leaves(),
            nullifier_spent,
            (PaymentCall {
                root: root@,
                new_coin_hash: new_coin_hash@,
                old_coin_nullifier: old_coin_nullifier@,
            }),
            payment_verdict(
                vk_hash@,
                key@,
                proof@,
                (PaymentCall {
                    root: root@,
                    new_coin_hash: new_coin_hash@,
                    old_coin_nullifier: old_coin_nullifier@,
                }),
            ),
            outcome,
        ),
{
    let verdict = verify_payment(vk_hash, key, proof, root, new_coin_hash, old_coin_nullifier);
    spend(tree, nullifier_spent, root, new_coin_hash, old_coin_nullifier, verdict)
}

/// The payment contract's state.
pub struct SanctumContract {
    initialized: bool,
    vk_hash: Vec<u8>,
    tree: FrontierMerkleTreeWithHistory,
    nullifiers: Vec<Vec<u8>>,
    spent: Ghost<Set<Seq<u8>>>,
}

impl View for SanctumContract {
    type V = Ledger;

    closed spec fn view(&self) -> Ledger {
        Ledger {
            initialized: self.initialized,
            vk_hash: self.vk_hash@,
            coins: self.tree.leaves(),
            nullifiers: self.spent@,
        }
    }
}

impl SanctumContract {
    /// The stored tree and nullifier list describe the ledger.
    pub closed spec fn wf(&self) -> bool {
        &&& self.tree.wf()
        &&& self.tree.traced()
        &&& self.tree.depth() == MERKLE_TREE_LEVELS
        &&& self.tree.history_size() == ROOT_HISTORY_SIZE
        &&& self.spent@.finite()
        &&& self.spent@.len() == self.nullifiers@.len()
        &&& forall|i: int|
            0 <= i < self.nullifiers@.len() ==> self.spent@.contains(
                (#[trigger] self.nullifiers@[i])@,
            )
        &&& forall|x: Seq<u8>|
            self.spent@.contains(x) ==> exists|i: int|
                0 <= i < self.nullifiers@.len() && (#[trigger] self.nullifiers@[i])@ == x
        &&& (!self.initialized ==> self.tree.leaves().len() == 0 && self.nullifiers@.len() == 0)
    }

    /// Whether the tree has no room for another commitment.
    pub open spec fn is_full(&self) -> bool {
        self@.coins.len() >= width(MERKLE_TREE_LEVELS as nat)
    }

    /// A contract as deployed, bound to the payment verifying key with
    /// digest `vk_hash`: not yet initialized, nothing stored.
    pub fn new(vk_hash: Vec<u8>) -> (contract: Self)
        ensures
            contract.wf(),
            contract@ == blank_ledger(vk_hash@),
    {
        let contract = SanctumContract {
            initialized: false,
            vk_hash,
            tree: FrontierMerkleTreeWithHistory::new(MERKLE_TREE_LEVELS, ROOT_HISTORY_SIZE),
            nullifiers: Vec::new(),
            spent: Ghost(Set::empty()),
        };
        assert(contract@.nullifiers =~= Set::<Seq<u8>>::empty());
        contract
    }

    /// Sets up the empty tree. Allowed once.
    pub fn initialize(&mut self) -> (outcome: Result<(), SanctumError>)
        requires
            old(self).wf(),
        ensures
            final(self).wf(),
            old(self)@.initialized ==> outcome == Err::<(), SanctumError>(
                SanctumError::IllegalContractCall,
            ) && final(self)@ == old(self)@,
            !old(self)@.initialized ==> outcome == Ok::<(), SanctumError>(()) && final(self)@
                == fresh_ledger(old(self)@.vk_hash),
    {
        if self.initialized {
            return Err(SanctumError::IllegalContractCall);
        }
        self.tree = FrontierMerkleTreeWithHistory::new(MERKLE_TREE_LEVELS, ROOT_HISTORY_SIZE);
        self.initialized = true;
        assert(self@.nullifiers =~= Set::<Seq<u8>>::empty()) by {
            assert forall|x: Seq<u8>| !self.spent@.contains(x) by {}
        }
        Ok(())
    }

    /// Whether `initialize` has run.
    pub fn is_initialized(&self) -> (initialized: bool)
        ensures
            initialized == self@.initialized,
    {
        self.initialized
    }

    /// Number of commitments in the tree: the index of the next leaf.
    pub fn coin_count(&self) -> (count: u32)
        requires
            self.wf(),
        ensures
            count as nat == self@.coins.len(),
    {
        self.tree.leaf_count()
    }

    /// Number of nullifiers spent.
    pub fn nullifier_count(&self) -> (count: usize)
        requires
            self.wf(),
        ensures
            count as nat == self@.nullifiers.len(),
            self@.nullifiers.finite(),
    {
        self.nullifiers.len()
    }

    /// Whether the tree has no room for another commitment.
    pub fn full(&self) -> (full: bool)
        requires
            self.wf(),
        ensures
            full == self.is_full(),
    {
        proof {
            self.tree.lemma_count();
        }
        self.tree.leaf_count() as u64 >= self.tree.capacity()
    }

    /// The entry of the table of filled subtrees for `level`, once the
    /// contract is initialized. It is told by the commitments alone.
    pub fn filled_subtree(&self, level: u32) -> (entry: Option<Vec<u8>>)
        requires
            self.wf(),
            level < MERKLE_TREE_LEVELS,
        ensures
            entry is Some <==> self@.initialized,
            entry matches Some(held) ==> held@ == filled_entry(self@.coins, level as nat),
    {
        if !self.initialized {
            return None;
        }
        Some(self.tree.filled_subtree(level))
    }

    /// The ring slot of the newest root, once the contract is
    /// initialized: the number of commitments, counted round the ring.
    pub fn current_root_index(&self) -> (slot: Option<u32>)
        requires
            self.wf(),
        ensures
            slot is Some <==> self@.initialized,
            slot matches Some(index) ==> index as nat == self@.coins.len() % (
            ROOT_HISTORY_SIZE as nat),
    {
        if !self.initialized {
            return None;
        }
        proof {
            self.tree.lemma_newest_slot();
        }
        Some(self.tree.current_root_index())
    }

    /// Decides on a payment, given the verdict on its proof: spends the
    /// note with nullifier `old_coin_nullifier` and creates the note with
    /// commitment `new_coin_hash`, on a proof made against `root`. Answers
    /// the new root of the tree. A refused payment changes nothing.
    pub fn settle_payment(
        &mut self,
        root: &Vec<u8>,
        new_coin_hash: &Vec<u8>,
        old_coin_nullifier: &Vec<u8>,
        verdict: Option<bool>,
    ) -> (outcome: Result<Vec<u8>, SanctumError>)
        requires
            old(self).wf(),
            payment_outcome(
                old(self)@,
                (PaymentCall {
                    root: root@,
                    new_coin_hash: new_coin_hash@,
                    old_coin_nullifier: old_coin_nullifier@,
                }),
                verdict,
            ) is Ok ==> !old(self).is_full(),
        ensures
            final(self).wf(),
            final(self)@ == payment_effect(
                old(self)@,
                (PaymentCall {
                    root: root@,
                    new_coin_hash: new_coin_hash@,
                    old_coin_nullifier: old_coin_nullifier@,
                }),
                verdict,
            ),
            match outcome {
                Ok(new_root) => new_root@.len() == VALUE_BYTES && payment_outcome(
                    old(self)@,
                    (PaymentCall {
                        root: root@,
                        new_coin_hash: new_coin_hash@,
                        old_coin_nullifier: old_coin_nullifier@,
                    }),
                    verdict,
                ) == Ok::<Seq<u8>, SanctumError>(new_root@),
                Err(error) => payment_outcome(
                    old(self)@,
                    (PaymentCall {
                        root: root@,
                        new_coin_hash: new_coin_hash@,
                        old_coin_nullifier: old_coin_nullifier@,
                    }),
                    verdict,
                ) == Err::<Seq<u8>, SanctumError>(error),
            },
    {
        if !self.initialized {
            return Err(SanctumError::ContractUninitialized);
        }
        if root.len() != VALUE_BYTES || new_coin_hash.len() != VALUE_BYTES
            || old_coin_nullifier.len() != VALUE_BYTES {
            return Err(SanctumError::IllegalContractCall);
        }
        // check for double spending
        if self.exists_nullifier(old_coin_nullifier) {
            return Err(SanctumError::DuplicateNullifier);
        }
        // check that the proof was made against a recent root
        if !self.is_known_root(root) {
            return Err(SanctumError::UnknownRoot);
        }
        // check the proof
        match verdict {
            Some(true) => {},
            _ => {
                return Err(SanctumError::IllegalContractCall);
            },
        }
        // valid spend: record the nullifier, then append the new coin
        match self.insert_nullifier(old_coin_nullifier) {
            Err(error) => {
                return Err(error);
            },
            Ok(_) => {},
        }
        self.insert_coin(new_coin_hash)
    }

    /// Verifies `proof` under `key`, which must be the payment verifying
    /// key the contract is bound to, for the public inputs that `root`,
    /// `old_coin_nullifier` and `new_coin_hash` make, and decides on the
    /// payment as `settle_payment` does.
    pub fn payment(
        &mut self,
        key: &Vec<u8>,
        proof: &Vec<u8>,
        root: &Vec<u8>,
        new_coin_hash: &Vec<u8>,
        old_coin_nullifier: &Vec<u8>,
    ) -> (outcome: Result<Vec<u8>, SanctumError>)
        requires
            old(self).wf(),
            payment_outcome(
                old(self)@,
                (PaymentCall {
                    root: root@,
                    new_coin_hash: new_coin_hash@,
                    old_coin_nullifier: old_coin_nullifier@,
                }),
                Some(true),
            ) is Ok ==> !old(self).is_full(),
        ensures
            final(self).wf(),
            ({
                let call = PaymentCall {
                    root: root@,
                    new_coin_hash: new_coin_hash@,
                    old_coin_nullifier: old_coin_nullifier@,
                };
                let verdict = payment_verdict(old(self)@.vk_hash, key@, proof@, call);
                &&& final(self)@ == payment_effect(old(self)@, call, verdict)
                &&& match outcome {
                    Ok(new_root) => new_root@.len() == VALUE_BYTES && payment_outcome(
                        old(self)@,
                        call,
                        verdict,
                    ) == Ok::<Seq<u8>, SanctumError>(new_root@),
                    Err(error) => payment_outcome(old(self)@, call, verdict) == Err::<
                        Seq<u8>,
                        SanctumError,
                    >(error),
                }
            }),
    {
        let verdict = verify_payment(
            &self.vk_hash,
            key,
            proof,
            root,
            new_coin_hash,
            old_coin_nullifier,
        );
        self.settle_payment(root, new_coin_hash, old_coin_nullifier, verdict)
    }

    /// Appends `leaf` to the tree and answers the new root; refused
    /// before `initialize`.
    fn insert_coin(&mut self, leaf: &Vec<u8>) -> (outcome: Result<Vec<u8>, SanctumError>)
        requires
            old(self).wf(),
            old(self)@.initialized ==> !old(self).is_full(),
        ensures
            final(self).wf(),
            match outcome {
                Ok(root) => {
                    &&& old(self)@.initialized
                    &&& final(self)@ == (Ledger {
                        coins: old(self)@.coins.push(leaf@),
                        ..old(self)@
                    })
                    &&& root@ == tree_root(final(self)@.coins, MERKLE_TREE_LEVELS as nat)
                    &&& root@.len() == VALUE_BYTES
                },
                Err(error) => {
                    &&& error == SanctumError::ContractUninitialized
                    &&& !old(self)@.initialized
                    &&& final(self)@ == old(self)@
                },
            },
    {
        // only proceed if the contract is initialized
        if !self.initialized {
            return Err(SanctumError::ContractUninitialized);
        }
        let ghost before = self.nullifiers@;
        proof {
            self.tree.lemma_count();
        }
        self.tree.insert(leaf);
        let root = self.tree.get_latest_root();
        proof {
            assert(self.tree.leaves().take(self.tree.leaves().len() as int) =~= self.tree.leaves());
            assert(self.nullifiers@ == before);
            assert forall|x: Seq<u8>| self.spent@.contains(x) implies exists|i: int|
                0 <= i < self.nullifiers@.len() && (#[trigger] self.nullifiers@[i])@ == x by {
                let i = choose|i: int| 0 <= i < before.len() && (#[trigger] before[i])@ == x;
                assert(self.nullifiers@[i]@ == x);
            }
        }
        Ok(root)
    }

    /// Whether `nullifier` was already spent.
    pub fn exists_nullifier(&self, nullifier: &Vec<u8>) -> (spent: bool)
        requires
            self.wf(),
        ensures
            spent == self@.nullifiers.contains(nullifier@),
    {
        let mut i: usize = 0;
        while i < self.nullifiers.len()
            invariant
                self.wf(),
                i <= self.nullifiers@.len(),
                forall|k: int| 0 <= k < i ==> (#[trigger] self.nullifiers@[k])@ != nullifier@,
            decreases self.nullifiers@.len() - i,
        {
            if same_bytes(&self.nullifiers[i], nullifier) {
                return true;
            }
            i += 1;
        }
        false
    }

    /// Records `nullifier` as spent; refused before `initialize` and for
    /// a nullifier that is already recorded, which stays recorded once.
    fn insert_nullifier(&mut self, nullifier: &Vec<u8>) -> (outcome: Result<(), SanctumError>)
        requires
            old(self).wf(),
        ensures
            final(self).wf(),
            !old(self)@.initialized ==> outcome == Err::<(), SanctumError>(
                SanctumError::ContractUninitialized,
            ) && final(self)@ == old(self)@,
            old(self)@.initialized && old(self)@.nullifiers.contains(nullifier@) ==> outcome
                == Err::<(), SanctumError>(SanctumError::DuplicateNullifier) && final(self)@
                == old(self)@,
            old(self)@.initialized && !old(self)@.nullifiers.contains(nullifier@) ==> outcome
                == Ok::<(), SanctumError>(()) && final(self)@ == (Ledger {
                nullifiers: old(self)@.nullifiers.insert(nullifier@),
                ..old(self)@
            }),
    {
        if !self.initialized {
            return Err(SanctumError::ContractUninitialized);
        }
        // a nullifier that exists shows an attempt to spend twice
        if self.exists_nullifier(nullifier) {
            return Err(SanctumError::DuplicateNullifier);
        }
        let ghost before = self.nullifiers@;
        self.nullifiers.push(copy_bytes(nullifier));
        self.spent = Ghost(self.spent@.insert(nullifier@));
        proof {
            assert forall|x: Seq<u8>| self.spent@.contains(x) implies exists|i: int|
                0 <= i < self.nullifiers@.len() && (#[trigger] self.nullifiers@[i])@ == x by {
                if x == nullifier@ {
                    assert(self.nullifiers@[before.len() as int]@ == x);
                } else {
                    let i = choose|i: int| 0 <= i < before.len() && (#[trigger] before[i])@ == x;
                    assert(self.nullifiers@[i]@ == x);
                }
            }
        }
        Ok(())
    }

    /// Whether `root` is among the recent roots.
    pub fn is_known_root(&self, root: &Vec<u8>) -> (known: bool)
        requires
            self.wf(),
        ensures
            known == ledger_roots(self@).contains(root@),
    {
        if !self.initialized {
            return false;
        }
        self.tree.is_known_root(root)
    }

    /// The newest root, once the contract is initialized.
    pub fn latest_root(&self) -> (root: Option<Vec<u8>>)
        requires
            self.wf(),
        ensures
            root is Some <==> self@.initialized,
            root matches Some(r) ==> r@ == ledger_roots(self@).last() && r@.len() == VALUE_BYTES,
    {
        if !self.initialized {
            return None;
        }
        Some(self.tree.get_latest_root())
    }
}

/// A payment is accepted only with a favourable verdict on its proof, on
/// a root that the ledger holds at that moment, and with a nullifier that
/// it does not hold yet. The proof is over the call's own root, nullifier
/// and commitment, so what the proof attests of the two notes, that the
/// output keeps the asset and the amount of the input, holds of every
/// accepted payment.
pub proof fn lemma_accepted_payment(ledger: Ledger, call: PaymentCall, verdict: Option<bool>)
    requires
        payment_outcome(ledger, call, verdict) is Ok,
    ensures
        ledger.initialized,
        well_formed(call),
        verdict == Some(true),
        ledger_roots(ledger).contains(call.root),
        !ledger.nullifiers.contains(call.old_coin_nullifier),
{
}

/// A payment without a favourable verdict on its proof is refused and
/// changes nothing.
pub proof fn lemma_unproved_payment_refused(
    ledger: Ledger,
    call: PaymentCall,
    verdict: Option<bool>,
)
    requires
        verdict != Some(true),
    ensures
        payment_outcome(ledger, call, verdict) is Err,
        payment_effect(ledger, call, verdict) == ledger,
{
}

/// A payment whose nullifier is already spent is refused and changes
/// nothing.
pub proof fn lemma_double_spend_refused(ledger: Ledger, call: PaymentCall, verdict: Option<bool>)
    requires
        ledger.nullifiers.contains(call.old_coin_nullifier),
    ensures
        payment_outcome(ledger, call, verdict) is Err,
        payment_effect(ledger, call, verdict) == ledger,
{
}

/// After any run of payments on a fresh ledger, the nullifier set has one
/// entry for each accepted payment, and so has the tree.
pub proof fn lemma_one_nullifier_per_payment(vk_hash: Seq<u8>, calls: Seq<Submission>)
    ensures
        run_payments(fresh_ledger(vk_hash), calls).initialized,
        run_payments(fresh_ledger(vk_hash), calls).vk_hash == vk_hash,
        run_payments(fresh_ledger(vk_hash), calls).nullifiers.finite(),
        run_payments(fresh_ledger(vk_hash), calls).nullifiers.len() == accepted_payments(
            fresh_ledger(vk_hash),
            calls,
        ),
        run_payments(fresh_ledger(vk_hash), calls).coins.len() == accepted_payments(
            fresh_ledger(vk_hash),
            calls,
        ),
    decreases calls.len(),
{
    if calls.len() > 0 {
        lemma_one_nullifier_per_payment(vk_hash, calls.drop_last());
    }
}

} // verus!
