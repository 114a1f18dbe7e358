//! Tests of the proof scheme and the spending flows: shield, transfer,
//! unshield, and the double-spend barrier, end to end.

use ed25519_dalek::{Signer, SigningKey};
use veil::merkle::{IncrementalMerkleTree, MAX_LEAVES};
use veil::nullifier::NullifierRegistry;
use veil::processor::{
    process_initialize, process_shield, process_transfer, process_unshield,
    process_unshield_sol,
};
use veil::verification::{MvpVerifier, ProofVerifier, MVP_PROOF_SIZE};
use veil::VeilError;

fn word(b: u8) -> [u8; 32] {
    [b; 32]
}

fn signing_key() -> SigningKey {
    SigningKey::from_bytes(&[7u8; 32])
}

fn proof_over(message: &[u8]) -> Vec<u8> {
    let key = signing_key();
    let signature = key.sign(message);
    let mut proof_bytes = signature.to_bytes().to_vec();
    proof_bytes.extend_from_slice(&key.verifying_key().to_bytes());
    proof_bytes
}

fn transfer_proof(nullifier: &[u8; 32], new_commitment: &[u8; 32], root: &[u8; 32]) -> Vec<u8> {
    let mut message = Vec::new();
    message.extend_from_slice(nullifier);
    message.extend_from_slice(new_commitment);
    message.extend_from_slice(root);
    proof_over(&message)
}

fn unshield_proof(
    nullifier: &[u8; 32],
    recipient: &[u8; 32],
    amount: u64,
    root: &[u8; 32],
) -> Vec<u8> {
    let mut message = Vec::new();
    message.extend_from_slice(nullifier);
    message.extend_from_slice(recipient);
    message.extend_from_slice(&amount.to_le_bytes());
    message.extend_from_slice(root);
    proof_over(&message)
}

#[test]
fn mvp_accepts_valid_signature() {
    let scheme = MvpVerifier;
    let nullifier = word(0x0A);
    let new_commitment = word(0x0B);
    let root = word(0x0C);
    let proof_bytes = transfer_proof(&nullifier, &new_commitment, &root);
    assert_eq!(proof_bytes.len(), MVP_PROOF_SIZE);
    assert!(scheme.verify_transfer(&proof_bytes, &nullifier, &new_commitment, &root));
}

#[test]
fn mvp_rejects_corrupted_signature() {
    let scheme = MvpVerifier;
    let nullifier = word(0x0A);
    let new_commitment = word(0x0B);
    let root = word(0x0C);
    let mut proof_bytes = transfer_proof(&nullifier, &new_commitment, &root);
    proof_bytes[3] ^= 0x01;
    assert!(!scheme.verify_transfer(&proof_bytes, &nullifier, &new_commitment, &root));
}

#[test]
fn mvp_rejects_undersized_proof() {
    let scheme = MvpVerifier;
    let short = vec![0u8; MVP_PROOF_SIZE - 1];
    assert!(!scheme.verify_transfer(&short, &word(1), &word(2), &word(3)));
    assert!(!scheme.verify_unshield(&short, &word(1), &word(2), 5, &word(3)));
}

#[test]
fn mvp_transfer_binds_output_commitment() {
    let scheme = MvpVerifier;
    let nullifier = word(0x0A);
    let root = word(0x0C);
    let proof_bytes = transfer_proof(&nullifier, &word(0x0B), &root);
    // The same proof must not authorize a substituted output commitment.
    assert!(!scheme.verify_transfer(&proof_bytes, &nullifier, &word(0x0D), &root));
}

#[test]
fn mvp_unshield_binds_recipient_and_amount() {
    let scheme = MvpVerifier;
    let nullifier = word(0x0A);
    let recipient = word(0x0B);
    let root = word(0x0C);
    let proof_bytes = unshield_proof(&nullifier, &recipient, 5000, &root);
    assert!(scheme.verify_unshield(&proof_bytes, &nullifier, &recipient, 5000, &root));
    assert!(!scheme.verify_unshield(&proof_bytes, &nullifier, &recipient, 5001, &root));
    assert!(!scheme.verify_unshield(&proof_bytes, &nullifier, &word(0x0E), 5000, &root));
}

#[test]
fn shield_rejects_zero_and_wrong_denomination() {
    let mut variable = process_initialize(word(1), 255, 0);
    assert_eq!(
        process_shield(&mut variable, word(0x11), 0),
        Err(VeilError::InvalidAmount)
    );
    let denomination = 1_000_000u64;
    let mut fixed = process_initialize(word(1), 255, denomination);
    assert_eq!(
        process_shield(&mut fixed, word(0x11), denomination - 1),
        Err(VeilError::InvalidAmount)
    );
    assert_eq!(fixed.commitment_count(), 0);
    assert_eq!(process_shield(&mut fixed, word(0x11), denomination), Ok(0));
    assert_eq!(fixed.deposit_count, 1);
}

#[test]
fn shield_rejects_full_pool() {
    let mut pool = process_initialize(word(1), 255, 0);
    pool.merkle_tree.next_index = MAX_LEAVES;
    assert_eq!(
        process_shield(&mut pool, word(0x11), 5000),
        Err(VeilError::PoolFull)
    );
}

#[test]
fn transfer_rejects_unknown_root() {
    let scheme = MvpVerifier;
    let mut pool = process_initialize(word(1), 255, 0);
    let mut registry = NullifierRegistry::new();
    process_shield(&mut pool, word(0x11), 5000).expect("shield");
    let bogus_root = word(0x77);
    let proof_bytes = transfer_proof(&word(0x0A), &word(0x12), &bogus_root);
    let r = process_transfer(
        &mut pool,
        &mut registry,
        &scheme,
        word(0x50),
        word(0x0A),
        word(0x12),
        &proof_bytes,
        bogus_root,
        100,
    );
    assert_eq!(r, Err(VeilError::InvalidProof));
    assert_eq!(pool.nullifier_count, 0);
    assert_eq!(registry.markers.len(), 0);
}

#[test]
fn transfer_rejects_garbage_proof() {
    let scheme = MvpVerifier;
    let mut pool = process_initialize(word(1), 255, 0);
    let mut registry = NullifierRegistry::new();
    process_shield(&mut pool, word(0x11), 5000).expect("shield");
    let root = pool.current_root();
    let garbage = vec![0xABu8; MVP_PROOF_SIZE];
    let r = process_transfer(
        &mut pool,
        &mut registry,
        &scheme,
        word(0x50),
        word(0x0A),
        word(0x12),
        &garbage,
        root,
        100,
    );
    assert_eq!(r, Err(VeilError::InvalidProof));
}

#[test]
fn end_to_end_shield_transfer_double_spend() {
    let scheme = MvpVerifier;
    let pool_id = word(0x50);
    let mut pool = process_initialize(word(1), 255, 0);
    let mut registry = NullifierRegistry::new();
    let empty_root = IncrementalMerkleTree::new().current_root;

    // Shield amount 5000 with commitment C1.
    let c1 = word(0xC1);
    assert_eq!(process_shield(&mut pool, c1, 5000), Ok(0));
    assert_eq!(pool.commitment_count(), 1);
    assert_eq!(pool.deposit_count, 1);
    let r1 = pool.current_root();
    // The superseded empty root landed in the first window slot.
    assert_eq!(pool.root_history[0], empty_root);

    // Transfer consuming C1's nullifier N1, producing C2, proof against R1.
    let n1 = word(0xA1);
    let c2 = word(0xC2);
    let proof_bytes = transfer_proof(&n1, &c2, &r1);
    let r = process_transfer(
        &mut pool,
        &mut registry,
        &scheme,
        pool_id,
        n1,
        c2,
        &proof_bytes,
        r1,
        777,
    );
    assert_eq!(r, Ok(1));
    assert_eq!(pool.nullifier_count, 1);
    assert_eq!(pool.commitment_count(), 2);
    assert_eq!(registry.markers.len(), 1);
    assert_eq!(registry.markers[0].spent_at, 777);

    // The same transfer again: R1 is still in the window, the proof still
    // verifies, but the nullifier is consumed.
    let again = process_transfer(
        &mut pool,
        &mut registry,
        &scheme,
        pool_id,
        n1,
        c2,
        &proof_bytes,
        r1,
        778,
    );
    assert_eq!(again, Err(VeilError::AlreadySpent));
    assert_eq!(pool.nullifier_count, 1);
    assert_eq!(pool.commitment_count(), 2);
    assert_eq!(registry.markers.len(), 1);
}

#[test]
fn unshield_flow_and_double_spend() {
    let scheme = MvpVerifier;
    let pool_id = word(0x50);
    let mut pool = process_initialize(word(1), 255, 0);
    let mut registry = NullifierRegistry::new();
    process_shield(&mut pool, word(0xC1), 5000).expect("shield");
    let root = pool.current_root();
    let n1 = word(0xA1);
    let recipient = word(0xB1);
    let proof_bytes = unshield_proof(&n1, &recipient, 4000, &root);
    let r = process_unshield(
        &mut pool,
        &mut registry,
        &scheme,
        pool_id,
        n1,
        recipient,
        4000,
        &proof_bytes,
        root,
        900,
    );
    assert_eq!(r, Ok(()));
    assert_eq!(pool.nullifier_count, 1);
    // The accumulator is untouched by a withdrawal.
    assert_eq!(pool.commitment_count(), 1);
    let again = process_unshield(
        &mut pool,
        &mut registry,
        &scheme,
        pool_id,
        n1,
        recipient,
        4000,
        &proof_bytes,
        root,
        901,
    );
    assert_eq!(again, Err(VeilError::AlreadySpent));
}

#[test]
fn unshield_sol_checks_vault_balance() {
    let scheme = MvpVerifier;
    let pool_id = word(0x50);
    let mut pool = process_initialize(word(1), 255, 0);
    let mut registry = NullifierRegistry::new();
    process_shield(&mut pool, word(0xC1), 5000).expect("shield");
    let root = pool.current_root();
    let n1 = word(0xA1);
    let recipient = word(0xB1);
    let proof_bytes = unshield_proof(&n1, &recipient, 4000, &root);
    let broke = process_unshield_sol(
        &mut pool,
        &mut registry,
        &scheme,
        pool_id,
        n1,
        recipient,
        4000,
        &proof_bytes,
        root,
        3999,
        900,
    );
    assert_eq!(broke, Err(VeilError::InsufficientFunds));
    assert_eq!(registry.markers.len(), 0);
    let funded = process_unshield_sol(
        &mut pool,
        &mut registry,
        &scheme,
        pool_id,
        n1,
        recipient,
        4000,
        &proof_bytes,
        root,
        5000,
        900,
    );
    assert_eq!(funded, Ok(()));
    assert_eq!(pool.nullifier_count, 1);
}

#[test]
fn unshield_rejects_zero_amount() {
    let scheme = MvpVerifier;
    let mut pool = process_initialize(word(1), 255, 0);
    let mut registry = NullifierRegistry::new();
    let root = pool.current_root();
    let proof_bytes = unshield_proof(&word(0xA1), &word(0xB1), 0, &root);
    let r = process_unshield(
        &mut pool,
        &mut registry,
        &scheme,
        word(0x50),
        word(0xA1),
        word(0xB1),
        0,
        &proof_bytes,
        root,
        900,
    );
    assert_eq!(r, Err(VeilError::InvalidAmount));
}

#[test]
fn pool_level_nullifier_query_is_advisory() {
    let scheme = MvpVerifier;
    let pool_id = word(0x50);
    let mut pool = process_initialize(word(1), 255, 0);
    let mut registry = NullifierRegistry::new();
    process_shield(&mut pool, word(0xC1), 5000).expect("shield");
    let root = pool.current_root();
    let n1 = word(0xA1);
    let proof_bytes = transfer_proof(&n1, &word(0xC2), &root);
    process_transfer(
        &mut pool,
        &mut registry,
        &scheme,
        pool_id,
        n1,
        word(0xC2),
        &proof_bytes,
        root,
        1,
    )
    .expect("transfer");
    // The pool-level query stays false; the registry is authoritative.
    assert!(!pool.is_nullifier_spent(&n1));
    assert_eq!(
        registry.register(pool_id, n1, 2),
        Err(VeilError::AlreadySpent)
    );
}
