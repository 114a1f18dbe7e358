//! Instruction processors: the state transition behind each instruction.
//!
//! Each processor is the computational part of one atomic transaction.
//! The hosting ledger runs around these functions: it locates and locks
//! the pool record, performs the asset legs (debit the depositor, credit
//! the vault or recipient), and supplies plain values — the pool's
//! address, a clock reading, the vault balance. Every failure returns
//! before any state is touched, so a processor either applies its whole
//! effect or none of it, matching the ledger's all-or-nothing
//! transactions.

use vstd::prelude::*;
use crate::hash::word_zero;
use crate::merkle::{IncrementalMerkleTree, MAX_LEAVES};
use crate::nullifier::{NullifierMarker, NullifierRegistry};
use crate::pool::{PrivacyPool, ROOT_HISTORY_SIZE};
use crate::verification::{ProofVerifier, MVP_PROOF_SIZE};
use crate::VeilError;

verus! {

/// Creates the pool record for `initialize`: the zero state with the
/// given authority, bump and denomination, active from here on. The
/// ledger creates the underlying record at most once per pool address,
/// so a pool transitions to its active state exactly once.
pub fn process_initialize(authority: [u8; 32], bump: u8, denomination: u64) -> (pool: PrivacyPool)
    ensures
        pool.wf(),
        pool.authority == authority,
        pool.bump == bump,
        pool.denomination == denomination,
        pool.merkle_tree.leaves@ == Seq::<Seq<u8>>::empty(),
        pool.past_roots@ == Seq::<Seq<u8>>::empty(),
        pool.nullifier_count == 0,
        pool.deposit_count == 0,
        pool.total_fees_collected == 0,
        pool.relayer_fee_bps == crate::pool::DEFAULT_RELAYER_FEE_BPS,
{
    let zero = word_zero();
    let mut pool = PrivacyPool {
        authority: zero,
        merkle_tree: IncrementalMerkleTree::new(),
        root_history: [zero; ROOT_HISTORY_SIZE],
        root_history_index: 0,
        nullifier_count: 0,
        relayer_fee_bps: 0,
        total_fees_collected: 0,
        bump: 0,
        denomination: 0,
        deposit_count: 0,
        past_roots: Ghost(Seq::empty()),
    };
    pool.initialize(authority, bump, denomination);
    pool
}

/// The computation behind a deposit, for native and token assets alike:
/// validates the amount against the pool's denomination policy and the
/// accumulator's capacity, appends the commitment, counts the deposit,
/// and returns the new leaf index. The asset debit into the vault is the
/// ledger's leg of the same transaction and happens only when this
/// succeeds.
pub fn process_shield(pool: &mut PrivacyPool, commitment: [u8; 32], amount: u64) -> (r: Result<
    u64,
    VeilError,
>)
    requires
        old(pool).wf(),
    ensures
        final(pool).wf(),
        amount == 0 ==> r == Err::<u64, VeilError>(VeilError::InvalidAmount) && *final(pool)
            == *old(pool),
        amount > 0 && old(pool).merkle_tree.next_index >= MAX_LEAVES ==> r == Err::<
            u64,
            VeilError,
        >(VeilError::PoolFull) && *final(pool) == *old(pool),
        amount > 0 && old(pool).merkle_tree.next_index < MAX_LEAVES && !old(
            pool,
        ).validate_amount_spec(amount) ==> r == Err::<u64, VeilError>(VeilError::InvalidAmount)
            && *final(pool) == *old(pool),
        amount > 0 && old(pool).merkle_tree.next_index < MAX_LEAVES && old(
            pool,
        ).validate_amount_spec(amount) ==> {
            &&& r == Ok::<u64, VeilError>(old(pool).merkle_tree.next_index)
            &&& final(pool).merkle_tree.leaves@ == old(pool).merkle_tree.leaves@.push(commitment@)
            &&& final(pool).past_roots@ == old(pool).past_roots@.push(
                old(pool).merkle_tree.current_root@,
            )
            &&& final(pool).deposit_count == if old(pool).deposit_count < u64::MAX {
                old(pool).deposit_count + 1
            } else {
                u64::MAX as int
            }
            &&& final(pool).nullifier_count == old(pool).nullifier_count
            &&& final(pool).denomination == old(pool).denomination
            &&& final(pool).authority == old(pool).authority
            &&& final(pool).bump == old(pool).bump
            &&& final(pool).relayer_fee_bps == old(pool).relayer_fee_bps
            &&& final(pool).total_fees_collected == old(pool).total_fees_collected
        },
{
    if amount == 0 {
        return Err(VeilError::InvalidAmount);
    }
    if pool.commitment_count() >= MAX_LEAVES {
        return Err(VeilError::PoolFull);
    }
    if !pool.validate_amount(amount) {
        return Err(VeilError::InvalidAmount);
    }
    let leaf_index = match pool.add_commitment(commitment) {
        Ok(i) => i,
        Err(e) => {
            return Err(e);
        },
    };
    pool.record_deposit();
    Ok(leaf_index)
}

/// The computation behind a private transfer: checks the proof encoding,
/// the root the proof was generated against (current root or a window
/// root), and the proof itself; then atomically registers the nullifier,
/// counts the spend, and appends the new output commitment. A proof
/// against a superseded root that still stands in the window is accepted,
/// so a transfer is not rejected merely because other insertions landed
/// after proof generation.
pub fn process_transfer<V: ProofVerifier>(
    pool: &mut PrivacyPool,
    registry: &mut NullifierRegistry,
    scheme: &V,
    pool_id: [u8; 32],
    nullifier: [u8; 32],
    new_commitment: [u8; 32],
    proof_bytes: &Vec<u8>,
    root: [u8; 32],
    now: u64,
) -> (r: Result<u64, VeilError>)
    requires
        old(pool).wf(),
    ensures
        final(pool).wf(),
        ({
            let undersized = proof_bytes@.len() < MVP_PROOF_SIZE;
            let root_ok = old(pool).valid_root_spec(root@);
            let accepted = scheme.transfer_accepts(proof_bytes@, nullifier@, new_commitment@, root@);
            let full = old(pool).merkle_tree.next_index >= MAX_LEAVES;
            let spent = old(registry).contains_spec(pool_id@, nullifier@);
            let unchanged = *final(pool) == *old(pool) && final(registry).markers@ == old(
                registry,
            ).markers@;
            &&& (undersized || !root_ok || !accepted) ==> r == Err::<u64, VeilError>(
                VeilError::InvalidProof,
            ) && unchanged
            &&& (!undersized && root_ok && accepted && full) ==> r == Err::<u64, VeilError>(
                VeilError::PoolFull,
            ) && unchanged
            &&& (!undersized && root_ok && accepted && !full && spent) ==> r == Err::<
                u64,
                VeilError,
            >(VeilError::AlreadySpent) && unchanged
            &&& (!undersized && root_ok && accepted && !full && !spent) ==> {
                &&& r == Ok::<u64, VeilError>(old(pool).merkle_tree.next_index)
                &&& final(registry).markers@ == old(registry).markers@.push(
                    NullifierMarker { pool: pool_id, nullifier, spent_at: now },
                )
                &&& final(pool).merkle_tree.leaves@ == old(pool).merkle_tree.leaves@.push(
                    new_commitment@,
                )
                &&& final(pool).past_roots@ == old(pool).past_roots@.push(
                    old(pool).merkle_tree.current_root@,
                )
                &&& final(pool).nullifier_count == if old(pool).nullifier_count < u64::MAX {
                    old(pool).nullifier_count + 1
                } else {
                    u64::MAX as int
                }
                &&& final(pool).deposit_count == old(pool).deposit_count
                &&& final(pool).denomination == old(pool).denomination
                &&& final(pool).authority == old(pool).authority
                &&& final(pool).bump == old(pool).bump
                &&& final(pool).relayer_fee_bps == old(pool).relayer_fee_bps
                &&& final(pool).total_fees_collected == old(pool).total_fees_collected
            }
        }),
{
    if proof_bytes.len() < MVP_PROOF_SIZE {
        return Err(VeilError::InvalidProof);
    }
    if !pool.is_valid_root(&root) {
        return Err(VeilError::InvalidProof);
    }
    if !scheme.verify_transfer(proof_bytes, &nullifier, &new_commitment, &root) {
        return Err(VeilError::InvalidProof);
    }
    if pool.commitment_count() >= MAX_LEAVES {
        return Err(VeilError::PoolFull);
    }
    match registry.register(pool_id, nullifier, now) {
        Ok(_) => {},
        Err(e) => {
            return Err(e);
        },
    }
    pool.record_nullifier_spent();
    let leaf_index = match pool.add_commitment(new_commitment) {
        Ok(i) => i,
        Err(e) => {
            return Err(e);
        },
    };
    Ok(leaf_index)
}

/// The computation behind a token withdrawal: checks the amount, the
/// proof encoding, the root, and the proof binding this exact recipient
/// and amount; then atomically registers the nullifier and counts the
/// spend. The token credit to the recipient is the ledger's leg of the
/// same transaction and happens only when this succeeds.
pub fn process_unshield<V: ProofVerifier>(
    pool: &mut PrivacyPool,
    registry: &mut NullifierRegistry,
    scheme: &V,
    pool_id: [u8; 32],
    nullifier: [u8; 32],
    recipient: [u8; 32],
    amount: u64,
    proof_bytes: &Vec<u8>,
    root: [u8; 32],
    now: u64,
) -> (r: Result<(), VeilError>)
    requires
        old(pool).wf(),
    ensures
        final(pool).wf(),
        ({
            let bad_proof = proof_bytes@.len() < MVP_PROOF_SIZE || !old(pool).valid_root_spec(root@)
                || !scheme.unshield_accepts(proof_bytes@, nullifier@, recipient@, amount, root@);
            let spent = old(registry).contains_spec(pool_id@, nullifier@);
            let unchanged = *final(pool) == *old(pool) && final(registry).markers@ == old(
                registry,
            ).markers@;
            &&& amount == 0 ==> r == Err::<(), VeilError>(VeilError::InvalidAmount) && unchanged
            &&& (amount > 0 && bad_proof) ==> r == Err::<(), VeilError>(VeilError::InvalidProof)
                && unchanged
            &&& (amount > 0 && !bad_proof && spent) ==> r == Err::<(), VeilError>(
                VeilError::AlreadySpent,
            ) && unchanged
            &&& (amount > 0 && !bad_proof && !spent) ==> {
                &&& r == Ok::<(), VeilError>(())
                &&& final(registry).markers@ == old(registry).markers@.push(
                    NullifierMarker { pool: pool_id, nullifier, spent_at: now },
                )
                &&& final(pool).nullifier_count == if old(pool).nullifier_count < u64::MAX {
                    old(pool).nullifier_count + 1
                } else {
                    u64::MAX as int
                }
                &&& *final(pool) == (PrivacyPool {
                    nullifier_count: final(pool).nullifier_count,
                    ..*old(pool)
                })
            }
        }),
{
    if amount == 0 {
        return Err(VeilError::InvalidAmount);
    }
    if proof_bytes.len() < MVP_PROOF_SIZE {
        return Err(VeilError::InvalidProof);
    }
    if !pool.is_valid_root(&root) {
        return Err(VeilError::InvalidProof);
    }
    if !scheme.verify_unshield(proof_bytes, &nullifier, &recipient, amount, &root) {
        return Err(VeilError::InvalidProof);
    }
    match registry.register(pool_id, nullifier, now) {
        Ok(_) => {},
        Err(e) => {
            return Err(e);
        },
    }
    pool.record_nullifier_spent();
    Ok(())
}

/// The computation behind a native-asset withdrawal: as the token
/// withdrawal, and additionally fails when the vault balance is below the
/// requested amount, before any state is touched. The native-asset
/// credit to the recipient is the ledger's leg of the same transaction.
pub fn process_unshield_sol<V: ProofVerifier>(
    pool: &mut PrivacyPool,
    registry: &mut NullifierRegistry,
    scheme: &V,
    pool_id: [u8; 32],
    nullifier: [u8; 32],
    recipient: [u8; 32],
    amount: u64,
    proof_bytes: &Vec<u8>,
    root: [u8; 32],
    vault_balance: u64,
    now: u64,
) -> (r: Result<(), VeilError>)
    requires
        old(pool).wf(),
    ensures
        final(pool).wf(),
        ({
            let bad_proof = proof_bytes@.len() < MVP_PROOF_SIZE || !old(pool).valid_root_spec(root@)
                || !scheme.unshield_accepts(proof_bytes@, nullifier@, recipient@, amount, root@);
            let spent = old(registry).contains_spec(pool_id@, nullifier@);
            let unchanged = *final(pool) == *old(pool) && final(registry).markers@ == old(
                registry,
            ).markers@;
            &&& amount == 0 ==> r == Err::<(), VeilError>(VeilError::InvalidAmount) && unchanged
            &&& (amount > 0 && bad_proof) ==> r == Err::<(), VeilError>(VeilError::InvalidProof)
                && unchanged
            &&& (amount > 0 && !bad_proof && vault_balance < amount) ==> r == Err::<(), VeilError>(
                VeilError::InsufficientFunds,
            ) && unchanged
            &&& (amount > 0 && !bad_proof && vault_balance >= amount && spent) ==> r == Err::<
                (),
                VeilError,
            >(VeilError::AlreadySpent) && unchanged
            &&& (amount > 0 && !bad_proof && vault_balance >= amount && !spent) ==> {
                &&& r == Ok::<(), VeilError>(())
                &&& final(registry).markers@ == old(registry).markers@.push(
                    NullifierMarker { pool: pool_id, nullifier, spent_at: now },
                )
                &&& final(pool).nullifier_count == if old(pool).nullifier_count < u64::MAX {
                    old(pool).nullifier_count + 1
                } else {
                    u64::MAX as int
                }
                &&& *final(pool) == (PrivacyPool {
                    nullifier_count: final(pool).nullifier_count,
                    ..*old(pool)
                })
            }
        }),
{
    if amount == 0 {
        return Err(VeilError::InvalidAmount);
    }
    if proof_bytes.len() < MVP_PROOF_SIZE {
        return Err(VeilError::InvalidProof);
    }
    if !pool.is_valid_root(&root) {
        return Err(VeilError::InvalidProof);
    }
    if !scheme.verify_unshield(proof_bytes, &nullifier, &recipient, amount, &root) {
        return Err(VeilError::InvalidProof);
    }
    if vault_balance < amount {
        return Err(VeilError::InsufficientFunds);
    }
    match registry.register(pool_id, nullifier, now) {
        Ok(_) => {},
        Err(e) => {
            return Err(e);
        },
    }
    pool.record_nullifier_spent();
    Ok(())
}

} // verus!
