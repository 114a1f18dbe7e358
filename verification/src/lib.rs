//! Accounting core of a privacy pool.
//!
//! A pool lets a party deposit a fungible asset as a hidden commitment and
//! later spend it through an unlinkable proof. The core keeps a fixed-depth
//! incremental Merkle accumulator of commitments, a bounded window of
//! recently valid roots, and a nullifier registry that enforces
//! exactly-once spend semantics. The hosting ledger (account storage,
//! asset transfers, transaction atomicity) is an external collaborator:
//! it is driven from outside this crate and hands the core plain values.

use vstd::prelude::*;

pub mod hash;
pub mod merkle;
pub mod nullifier;
pub mod pool;
pub mod processor;
pub mod verification;

verus! {

/// Failures surfaced by pool operations. Every failure is synchronous and
/// leaves the state unchanged; nothing is retried internally.
#[derive(Clone, Copy, Debug, PartialEq, Eq, Structural)]
pub enum VeilError {
    /// Amount is zero or does not match the pool's denomination policy.
    InvalidAmount,
    /// The accumulator holds its maximum number of leaves.
    PoolFull,
    /// Proof undersized, malformed, not bound to a valid root, or
    /// cryptographically rejected.
    InvalidProof,
    /// The nullifier was already consumed for this pool.
    AlreadySpent,
    /// The vault balance is below the requested withdrawal.
    InsufficientFunds,
}

} // verus!
