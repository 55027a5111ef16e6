//! Shielded-pool payment ledger: the verified core.
//!
//! Notes enter an append-only Merkle tree of commitments and are spent by
//! revealing a nullifier. This crate holds what keeps the ledger sound:
//!
//! - `merkle`, `frontier_merkle_tree`, `merkle_db`: the tree as
//!   mathematics, its frontier form with a ring of recent roots, and the
//!   full tree with openings;
//! - `contract`, `groth_verifier`: the state machines of the two contracts
//!   on the host ledger;
//! - `verifier_service`, `sequencer_service`, `merkle_root_history`: the
//!   decisions of the two off-chain services;
//! - `protocol`, `wire`, `base58`, `framing`: the proof envelope;
//! - `note`, `utils`, `onramp_circuit`, `payment_circuit`,
//!   `merkle_update_circuit`: notes and the statements that the proofs are
//!   about;
//! - `hash`, `groth16`, `curve`, `encoding`: SHA-256, Groth16
//!   verification, curve membership and the serialized forms of values.

pub mod base58;
pub mod bytes;
pub mod contract;
pub mod curve;
pub mod encoding;
pub mod framing;
pub mod frontier_merkle_tree;
pub mod groth16;
pub mod groth_verifier;
pub mod hash;
pub mod merkle;
pub mod merkle_db;
pub mod merkle_root_history;
pub mod merkle_update_circuit;
pub mod note;
pub mod onramp_circuit;
pub mod payment_circuit;
pub mod protocol;
pub mod sequencer_service;
pub mod utils;
pub mod verifier_service;
pub mod wire;
