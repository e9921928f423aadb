//! Circuits for two zero-knowledge statements over a Merkle-committed
//! ledger, modelled natively so that their relations can be verified:
//!
//! * non-membership by set difference: a value sits at some index of a
//!   new tree while a different value sat at the same index of an old
//!   tree;
//! * a batched payment rollup: a fixed-length batch of signed payment
//!   transactions carries the ledger from an initial root to a final
//!   root, each step individually valid.
//!
//! The collision-resistant hashes and the signature scheme are consumed
//! from an external cryptography library through a small trusted layer;
//! everything that the circuits decide — Merkle path recomputation,
//! balance arithmetic with underflow and overflow rejection, witness
//! building and per-transaction chaining — is implemented and proved
//! here.

pub mod account;
pub mod bytes;
pub mod hash;
pub mod ledger;
pub mod merkle;
pub mod non_membership;
pub mod rollup;
pub mod sig;
pub mod transaction;
pub mod transaction_fee;

use vstd::prelude::*;

verus! {

/// Failure of a circuit evaluation: a witness value that the relation
/// needs was never assigned.
#[derive(Clone, Copy, Debug, PartialEq, Eq, Structural)]
pub enum SynthesisError {
    AssignmentMissing,
}

} // verus!
