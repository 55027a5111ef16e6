//! The verifier service's decisions.
//!
//! The verifier keeps only the ring of recent roots. For each bundle it
//! checks the inner proof, checks that the Merkle update starts from the
//! latest root, checks the update proof, and then takes the new root into
//! the ring. Nothing is recorded unless every check passes.

use crate::contract::ROOT_HISTORY_SIZE;
use crate::groth16::{
    envelope_verdict, judge, verdict_outcome, verify_envelope, Rejection,
};
use crate::merkle_root_history::{window, MerkleRootHistory, RootText};
use crate::protocol::{
    GrothProofBs58, MerkleUpdateGrothPublicInput, OnRampProofBs58, PaymentGrothPublicInput,
    PaymentProofBs58,
};
use crate::wire::texts;
use vstd::prelude::*;

verus! {

/// The root that a payment declares it was proved against.
pub open spec fn claimed_root(payment: &GrothProofBs58) -> RootText {
    (
        texts(&payment.public_inputs)[PaymentGrothPublicInput::ROOT_X.position() as int],
        texts(&payment.public_inputs)[PaymentGrothPublicInput::ROOT_Y.position() as int],
    )
}

/// The root that a Merkle update declares to start from.
pub open spec fn old_root(update: &GrothProofBs58) -> RootText {
    (
        texts(&update.public_inputs)[MerkleUpdateGrothPublicInput::OLD_ROOT_X.position() as int],
        texts(&update.public_inputs)[MerkleUpdateGrothPublicInput::OLD_ROOT_Y.position() as int],
    )
}

/// The root that a Merkle update declares to arrive at.
pub open spec fn new_root(update: &GrothProofBs58) -> RootText {
    (
        texts(&update.public_inputs)[MerkleUpdateGrothPublicInput::NEW_ROOT_X.position() as int],
        texts(&update.public_inputs)[MerkleUpdateGrothPublicInput::NEW_ROOT_Y.position() as int],
    )
}

/// Whether a Merkle update may follow the roots recorded so far, before
/// its proof is looked at: it has the right number of public inputs and
/// starts from the latest root, if there is one.
pub open spec fn chain_check(recorded: Seq<RootText>, update: &GrothProofBs58) -> Result<
    (),
    Rejection,
> {
    if update.public_inputs@.len() != MerkleUpdateGrothPublicInput::COUNT {
        Err(Rejection::MalformedInput)
    } else if recorded.len() > 0 && recorded.last() != old_root(update) {
        Err(Rejection::RootChainMismatch)
    } else {
        Ok(())
    }
}

/// The root that a Merkle update adds, given the verifier's verdict on
/// its proof, or the first check that fails.
pub open spec fn ratchet_check(
    recorded: Seq<RootText>,
    update: &GrothProofBs58,
    verdict: Option<bool>,
) -> Result<RootText, Rejection> {
    match chain_check(recorded, update) {
        Err(rejection) => Err(rejection),
        Ok(_) => match verdict_outcome(verdict) {
            Err(rejection) => Err(rejection),
            Ok(_) => Ok(new_root(update)),
        },
    }
}

/// The root that a deposit bundle adds, given the verdicts on its two
/// proofs, or the first check that fails.
pub open spec fn onramp_check(
    recorded: Seq<RootText>,
    input: &OnRampProofBs58,
    onramp_verdict: Option<bool>,
    update_verdict: Option<bool>,
) -> Result<RootText, Rejection> {
    match verdict_outcome(onramp_verdict) {
        Err(rejection) => Err(rejection),
        Ok(_) => ratchet_check(recorded, &input.merkle_update_proof, update_verdict),
    }
}

/// Whether a payment was proved against a root that is still retained.
pub open spec fn root_check(
    recorded: Seq<RootText>,
    history_size: nat,
    payment: &GrothProofBs58,
) -> Result<(), Rejection> {
    if payment.public_inputs@.len() != PaymentGrothPublicInput::COUNT {
        Err(Rejection::MalformedInput)
    } else if !window(recorded, history_size).contains(claimed_root(payment)) {
        Err(Rejection::UnknownRoot)
    } else {
        Ok(())
    }
}

/// The root that a payment bundle adds, given the verdicts on its two
/// proofs, or the first check that fails.
pub open spec fn payment_check(
    recorded: Seq<RootText>,
    history_size: nat,
    input: &PaymentProofBs58,
    payment_verdict: Option<bool>,
    update_verdict: Option<bool>,
) -> Result<RootText, Rejection> {
    match root_check(recorded, history_size, &input.payment_proof) {
        Err(rejection) => Err(rejection),
        Ok(_) => match verdict_outcome(payment_verdict) {
            Err(rejection) => Err(rejection),
            Ok(_) => ratchet_check(recorded, &input.merkle_update_proof, update_verdict),
        },
    }
}

/// The roots recorded after a bundle whose checks gave `check`.
pub open spec fn recorded_after(recorded: Seq<RootText>, check: Result<RootText, Rejection>) -> Seq<
    RootText,
> {
    match check {
        Ok(root) => recorded.push(root),
        Err(_) => recorded,
    }
}

/// What a bundle's sender is told.
pub open spec fn answer(check: Result<RootText, Rejection>) -> Result<(), Rejection> {
    match check {
        Ok(_) => Ok(()),
        Err(rejection) => Err(rejection),
    }
}

/// An accepted Merkle update starts from the latest root, if there is
/// one, and its proof was found valid.
pub proof fn lemma_accepted_update_extends_chain(
    recorded: Seq<RootText>,
    update: &GrothProofBs58,
    verdict: Option<bool>,
)
    requires
        ratchet_check(recorded, update, verdict) is Ok,
    ensures
        recorded.len() > 0 ==> old_root(update) == recorded.last(),
        verdict == Some(true),
        recorded_after(recorded, ratchet_check(recorded, update, verdict)).last() == new_root(
            update,
        ),
{
}

/// An accepted payment bundle was proved against a root that is retained
/// at that moment, both of its proofs were found valid, and its update
/// starts from the latest root.
pub proof fn lemma_accepted_payment_bundle(
    recorded: Seq<RootText>,
    history_size: nat,
    input: &PaymentProofBs58,
    payment_verdict: Option<bool>,
    update_verdict: Option<bool>,
)
    requires
        payment_check(recorded, history_size, input, payment_verdict, update_verdict) is Ok,
    ensures
        window(recorded, history_size).contains(claimed_root(&input.payment_proof)),
        payment_verdict == Some(true),
        update_verdict == Some(true),
        recorded.len() > 0 ==> old_root(&input.merkle_update_proof) == recorded.last(),
{
}

/// The verifier's state: the three verifying keys and the ring of recent
/// roots.
pub struct AppStateType {
    onramp_vk: Vec<u8>,
    payment_vk: Vec<u8>,
    merkle_update_vk: Vec<u8>,
    merkle_root_history: MerkleRootHistory,
}

impl AppStateType {
    /// The verifying key for deposits, serialized.
    pub closed spec fn onramp_vk(&self) -> Seq<u8> {
        self.onramp_vk@
    }

    /// The verifying key for payments, serialized.
    pub closed spec fn payment_vk(&self) -> Seq<u8> {
        self.payment_vk@
    }

    /// The verifying key for Merkle updates, serialized.
    pub closed spec fn merkle_update_vk(&self) -> Seq<u8> {
        self.merkle_update_vk@
    }

    /// Every root accepted so far, oldest first.
    pub closed spec fn recorded(&self) -> Seq<RootText> {
        self.merkle_root_history.recorded()
    }

    /// Number of slots in the ring.
    pub closed spec fn history_size(&self) -> nat {
        self.merkle_root_history.history_size()
    }

    /// The ring is in order.
    pub closed spec fn wf(&self) -> bool {
        self.merkle_root_history.wf()
    }

    /// The roots that are still retained, oldest first.
    pub open spec fn known_roots(&self) -> Seq<RootText> {
        window(self.recorded(), self.history_size())
    }

    /// Whether `other` differs from this state at most in its roots.
    pub open spec fn same_keys(&self, other: &Self) -> bool {
        &&& other.onramp_vk() == self.onramp_vk()
        &&& other.payment_vk() == self.payment_vk()
        &&& other.merkle_update_vk() == self.merkle_update_vk()
        &&& other.history_size() == self.history_size()
    }

    /// The latest root, if a bundle was accepted yet.
    pub fn latest_root(&self) -> (latest: Option<(String, String)>)
        requires
            self.wf(),
        ensures
            latest is None <==> self.recorded().len() == 0,
            latest matches Some(root) ==> (root.0@, root.1@) == self.recorded().last(),
    {
        self.merkle_root_history.get_latest_root()
    }

    /// Whether `root` is one of the retained roots.
    pub fn is_known_root(&self, root: &(String, String)) -> (known: bool)
        requires
            self.wf(),
        ensures
            known == self.known_roots().contains((root.0@, root.1@)),
    {
        self.merkle_root_history.is_known_root(root)
    }
}

/// A verifier that has accepted nothing yet, with the given serialized
/// verifying keys.
pub fn initialize_state(
    onramp_vk: Vec<u8>,
    payment_vk: Vec<u8>,
    merkle_update_vk: Vec<u8>,
) -> (state: AppStateType)
    ensures
        state.wf(),
        state.onramp_vk() == onramp_vk@,
        state.payment_vk() == payment_vk@,
        state.merkle_update_vk() == merkle_update_vk@,
        state.history_size() == ROOT_HISTORY_SIZE,
        state.recorded() == Seq::<RootText>::empty(),
{
    AppStateType {
        onramp_vk,
        payment_vk,
        merkle_update_vk,
        merkle_root_history: MerkleRootHistory::new(ROOT_HISTORY_SIZE),
    }
}

/// Checks that a Merkle update may follow the roots recorded so far.
pub fn check_root_chain(
    state: &AppStateType,
    update: &GrothProofBs58,
) -> (outcome: Result<(), Rejection>)
    requires
        state.wf(),
    ensures
        outcome == chain_check(state.recorded(), update),
{
    if update.public_inputs.len() != MerkleUpdateGrothPublicInput::COUNT {
        return Err(Rejection::MalformedInput);
    }
    // check that we are extending from the latest root
    match state.merkle_root_history.get_latest_root() {
        Some(latest_root) => {
            let x_at: usize = MerkleUpdateGrothPublicInput::OLD_ROOT_X.index();
            let y_at: usize = MerkleUpdateGrothPublicInput::OLD_ROOT_Y.index();
            let old_root_x = &update.public_inputs[x_at];
            let old_root_y = &update.public_inputs[y_at];
            if latest_root.0 == *old_root_x && latest_root.1 == *old_root_y {
                Ok(())
            } else {
                Err(Rejection::RootChainMismatch)
            }
        },
        None => Ok(()),  // the first root ever
    }
}

/// Checks that a payment was proved against a root that is still
/// retained.
pub fn check_claimed_root(
    state: &AppStateType,
    payment: &GrothProofBs58,
) -> (outcome: Result<(), Rejection>)
    requires
        state.wf(),
    ensures
        outcome == root_check(state.recorded(), state.history_size(), payment),
{
    if payment.public_inputs.len() != PaymentGrothPublicInput::COUNT {
        return Err(Rejection::MalformedInput);
    }
    let claimed_root_x = payment.public_inputs[PaymentGrothPublicInput::ROOT_X.index()].clone();
    let claimed_root_y = payment.public_inputs[PaymentGrothPublicInput::ROOT_Y.index()].clone();
    if state.merkle_root_history.is_known_root(&(claimed_root_x, claimed_root_y)) {
        Ok(())
    } else {
        Err(Rejection::UnknownRoot)
    }
}

/// Takes the new root of a Merkle update into the ring, if the update
/// follows the latest root and `verdict`, the verifier's answer on its
/// proof, is favourable.
pub fn admit_root(
    state: &mut AppStateType,
    update: &GrothProofBs58,
    verdict: Option<bool>,
) -> (outcome: Result<(), Rejection>)
    requires
        old(state).wf(),
    ensures
        final(state).wf(),
        old(state).same_keys(final(state)),
        outcome == answer(ratchet_check(old(state).recorded(), update, verdict)),
        final(state).recorded() == recorded_after(
            old(state).recorded(),
            ratchet_check(old(state).recorded(), update, verdict),
        ),
{
    match check_root_chain(state, update) {
        Err(rejection) => {
            return Err(rejection);
        },
        Ok(_) => {},
    }
    match judge(verdict) {
        Err(rejection) => {
            return Err(rejection);
        },
        Ok(_) => {},
    }
    // store the new root
    let new_root_x = update.public_inputs[MerkleUpdateGrothPublicInput::NEW_ROOT_X.index()].clone();
    let new_root_y = update.public_inputs[MerkleUpdateGrothPublicInput::NEW_ROOT_Y.index()].clone();
    state.merkle_root_history.insert(&(new_root_x, new_root_y));
    Ok(())
}

/// Decides on a deposit bundle, given the verifier's answers on its two
/// proofs.
pub fn settle_onramp_tx(
    state: &mut AppStateType,
    input: &OnRampProofBs58,
    onramp_verdict: Option<bool>,
    update_verdict: Option<bool>,
) -> (outcome: Result<(), Rejection>)
    requires
        old(state).wf(),
    ensures
        final(state).wf(),
        old(state).same_keys(final(state)),
        outcome == answer(
            onramp_check(old(state).recorded(), input, onramp_verdict, update_verdict),
        ),
        final(state).recorded() == recorded_after(
            old(state).recorded(),
            onramp_check(old(state).recorded(), input, onramp_verdict, update_verdict),
        ),
{
    match judge(onramp_verdict) {
        Err(rejection) => {
            return Err(rejection);
        },
        Ok(_) => {},
    }
    admit_root(state, &input.merkle_update_proof, update_verdict)
}

/// Decides on a payment bundle, given the verifier's answers on its two
/// proofs.
pub fn settle_payment_tx(
    state: &mut AppStateType,
    input: &PaymentProofBs58,
    payment_verdict: Option<bool>,
    update_verdict: Option<bool>,
) -> (outcome: Result<(), Rejection>)
    requires
        old(state).wf(),
    ensures
        final(state).wf(),
        old(state).same_keys(final(state)),
        outcome == answer(
            payment_check(
                old(state).recorded(),
                old(state).history_size(),
                input,
                payment_verdict,
                update_verdict,
            ),
        ),
        final(state).recorded() == recorded_after(
            old(state).recorded(),
            payment_check(
                old(state).recorded(),
                old(state).history_size(),
                input,
                payment_verdict,
                update_verdict,
            ),
        ),
{
    // check if the proof was made with respect to a known root
    match check_claimed_root(state, &input.payment_proof) {
        Err(rejection) => {
            return Err(rejection);
        },
        Ok(_) => {},
    }
    match judge(payment_verdict) {
        Err(rejection) => {
            return Err(rejection);
        },
        Ok(_) => {},
    }
    admit_root(state, &input.merkle_update_proof, update_verdict)
}

/// Records the new root of a Merkle update if it extends the latest root
/// and its proof verifies.
pub fn update_merkle_root(
    state: &mut AppStateType,
    merkle_update_proof: &GrothProofBs58,
) -> (outcome: Result<(), Rejection>)
    requires
        old(state).wf(),
    ensures
        final(state).wf(),
        old(state).same_keys(final(state)),
        outcome == answer(
            ratchet_check(
                old(state).recorded(),
                merkle_update_proof,
                envelope_verdict(old(state).merkle_update_vk(), merkle_update_proof),
            ),
        ),
        final(state).recorded() == recorded_after(
            old(state).recorded(),
            ratchet_check(
                old(state).recorded(),
                merkle_update_proof,
                envelope_verdict(old(state).merkle_update_vk(), merkle_update_proof),
            ),
        ),
{
    match check_root_chain(state, merkle_update_proof) {
        Err(rejection) => {
            return Err(rejection);
        },
        Ok(_) => {},
    }
    let verdict = verify_envelope(&state.merkle_update_vk, merkle_update_proof);
    admit_root(state, merkle_update_proof, verdict)
}

/// Handles a deposit bundle: verifies the on-ramp proof, then records the
/// new root if the Merkle update extends the latest root and verifies.
pub fn process_onramp_tx(
    state: &mut AppStateType,
    input: &OnRampProofBs58,
) -> (outcome: Result<(), Rejection>)
    requires
        old(state).wf(),
    ensures
        final(state).wf(),
        old(state).same_keys(final(state)),
        outcome == answer(
            onramp_check(
                old(state).recorded(),
                input,
                envelope_verdict(old(state).onramp_vk(), &input.on_ramp_proof),
                envelope_verdict(old(state).merkle_update_vk(), &input.merkle_update_proof),
            ),
        ),
        final(state).recorded() == recorded_after(
            old(state).recorded(),
            onramp_check(
                old(state).recorded(),
                input,
                envelope_verdict(old(state).onramp_vk(), &input.on_ramp_proof),
                envelope_verdict(old(state).merkle_update_vk(), &input.merkle_update_proof),
            ),
        ),
{
    let verdict = verify_envelope(&state.onramp_vk, &input.on_ramp_proof);
    match judge(verdict) {
        Err(rejection) => {
            return Err(rejection);
        },
        Ok(_) => {},
    }
    update_merkle_root(state, &input.merkle_update_proof)
}

/// Handles a payment bundle: checks that the payment was proved against
/// a retained root, verifies the payment proof, then records the new root
/// if the Merkle update extends the latest root and verifies.
pub fn process_payment_tx(
    state: &mut AppStateType,
    input: &PaymentProofBs58,
) -> (outcome: Result<(), Rejection>)
    requires
        old(state).wf(),
    ensures
        final(state).wf(),
        old(state).same_keys(final(state)),
        outcome == answer(
            payment_check(
                old(state).recorded(),
                old(state).history_size(),
                input,
                envelope_verdict(old(state).payment_vk(), &input.payment_proof),
                envelope_verdict(old(state).merkle_update_vk(), &input.merkle_update_proof),
            ),
        ),
        final(state).recorded() == recorded_after(
            old(state).recorded(),
            payment_check(
                old(state).recorded(),
                old(state).history_size(),
                input,
                envelope_verdict(old(state).payment_vk(), &input.payment_proof),
                envelope_verdict(old(state).merkle_update_vk(), &input.merkle_update_proof),
            ),
        ),
{
    match check_claimed_root(state, &input.payment_proof) {
        Err(rejection) => {
            return Err(rejection);
        },
        Ok(_) => {},
    }
    let verdict = verify_envelope(&state.payment_vk, &input.payment_proof);
    match judge(verdict) {
        Err(rejection) => {
            return Err(rejection);
        },
        Ok(_) => {},
    }
    update_merkle_root(state, &input.merkle_update_proof)
}

} // verus!
