//! Tests of the accumulator, the root window, the registry and the
//! pool's policy functions, on concrete values.

use sha2::Digest;
use veil::merkle::{IncrementalMerkleTree, MAX_LEAVES, TREE_DEPTH};
use veil::nullifier::NullifierRegistry;
use veil::processor::process_initialize;
use veil::VeilError;

fn word(b: u8) -> [u8; 32] {
    [b; 32]
}

fn hash2(left: &[u8; 32], right: &[u8; 32]) -> [u8; 32] {
    let mut hasher = sha2::Sha256::new();
    hasher.update(left);
    hasher.update(right);
    hasher.finalize().into()
}

fn empty_hashes() -> Vec<[u8; 32]> {
    let mut zeros = vec![[0u8; 32]];
    for level in 1..=TREE_DEPTH {
        let below = zeros[level - 1];
        zeros.push(hash2(&below, &below));
    }
    zeros
}

fn scratch_node(level: usize, start: u64, leaves: &[[u8; 32]], zeros: &[[u8; 32]]) -> [u8; 32] {
    if start >= leaves.len() as u64 {
        return zeros[level];
    }
    if level == 0 {
        return leaves[start as usize];
    }
    let left = scratch_node(level - 1, start, leaves, zeros);
    let right = scratch_node(level - 1, start + (1u64 << (level - 1)), leaves, zeros);
    hash2(&left, &right)
}

/// Root of the full fixed-depth tree, hashed from scratch, unfilled
/// slots as the all-zero empty leaf.
fn scratch_root(leaves: &[[u8; 32]]) -> [u8; 32] {
    let zeros = empty_hashes();
    scratch_node(TREE_DEPTH, 0, leaves, &zeros)
}

#[test]
fn empty_tree_root_matches_scratch() {
    let tree = IncrementalMerkleTree::new();
    assert_eq!(tree.current_root, scratch_root(&[]));
    assert_eq!(tree.next_index, 0);
}

#[test]
fn incremental_root_matches_scratch_after_insertions() {
    let mut tree = IncrementalMerkleTree::new();
    let leaves = [word(1), word(2), word(3), word(4), word(5)];
    for (i, leaf) in leaves.iter().enumerate() {
        let index = tree.insert(*leaf).expect("tree far from full");
        assert_eq!(index, i as u64);
        assert_eq!(tree.current_root, scratch_root(&leaves[..=i]));
    }
}

#[test]
fn capacity_boundary() {
    let mut tree = IncrementalMerkleTree::new();
    tree.next_index = MAX_LEAVES - 1;
    let last = tree.insert(word(9));
    assert_eq!(last, Ok(MAX_LEAVES - 1));
    assert_eq!(tree.next_index, MAX_LEAVES);
    let over = tree.insert(word(10));
    assert_eq!(over, Err(VeilError::PoolFull));
    assert_eq!(tree.next_index, MAX_LEAVES);
}

#[test]
fn initialize_zero_state() {
    let pool = process_initialize(word(0xAA), 254, 7);
    assert_eq!(pool.authority, word(0xAA));
    assert_eq!(pool.bump, 254);
    assert_eq!(pool.denomination, 7);
    assert_eq!(pool.deposit_count, 0);
    assert_eq!(pool.nullifier_count, 0);
    assert_eq!(pool.total_fees_collected, 0);
    assert_eq!(pool.relayer_fee_bps, 30);
    assert_eq!(pool.commitment_count(), 0);
    assert_eq!(pool.root_history_index, 0);
    assert_eq!(pool.root_history, [[0u8; 32]; 10]);
    assert_eq!(pool.current_root(), scratch_root(&[]));
}

#[test]
fn validate_amount_variable_pool() {
    let pool = process_initialize(word(1), 255, 0);
    assert!(!pool.is_fixed_denomination());
    assert!(pool.validate_amount(1));
    assert!(pool.validate_amount(5000));
    assert!(pool.validate_amount(u64::MAX));
    assert!(!pool.validate_amount(0));
}

#[test]
fn validate_amount_fixed_pool() {
    let denomination = 1_000_000u64;
    let pool = process_initialize(word(1), 255, denomination);
    assert!(pool.is_fixed_denomination());
    assert!(pool.validate_amount(denomination));
    assert!(!pool.validate_amount(denomination - 1));
    assert!(!pool.validate_amount(denomination + 1));
    assert!(!pool.validate_amount(0));
}

#[test]
fn relayer_fee_basic() {
    let pool = process_initialize(word(1), 255, 0);
    assert_eq!(pool.relayer_fee_bps, 30);
    assert_eq!(pool.calculate_relayer_fee(1_000_000), 3000);
}

#[test]
fn relayer_fee_rounds_down_and_zero() {
    let pool = process_initialize(word(1), 255, 0);
    // 12345 * 30 / 10000 = 37.035, floored.
    assert_eq!(pool.calculate_relayer_fee(12_345), 37);
    assert_eq!(pool.calculate_relayer_fee(1), 0);
    assert_eq!(pool.calculate_relayer_fee(0), 0);
}

#[test]
fn relayer_fee_no_overflow_near_max() {
    let pool = process_initialize(word(1), 255, 0);
    let expected = ((u64::MAX as u128) * 30 / 10000) as u64;
    let fee = pool.calculate_relayer_fee(u64::MAX);
    assert_eq!(fee, expected);
    assert!(fee <= u64::MAX / 20);
}

#[test]
fn add_commitment_pushes_superseded_root() {
    let mut pool = process_initialize(word(1), 255, 0);
    let empty_root = pool.current_root();
    let index = pool.add_commitment(word(0x11)).expect("pool empty");
    assert_eq!(index, 0);
    assert_eq!(pool.root_history[0], empty_root);
    assert_eq!(pool.root_history_index, 1);
    assert_ne!(pool.current_root(), empty_root);
    assert_eq!(pool.current_root(), scratch_root(&[word(0x11)]));
}

#[test]
fn root_window_validity() {
    let mut pool = process_initialize(word(1), 255, 0);
    let total = 15usize;
    let mut observed = vec![pool.current_root()];
    for i in 0..total {
        pool.add_commitment(word(i as u8 + 1)).expect("far from full");
        observed.push(pool.current_root());
    }
    // observed[k] is the root after k insertions; observed[15] is current.
    assert!(pool.is_valid_root(&observed[total]));
    // The ten most recently superseded roots are accepted.
    for k in total - 10..total {
        assert!(pool.is_valid_root(&observed[k]), "recent root {k} must be valid");
    }
    // Roots older than the window, and unrelated values, are rejected.
    for k in 0..total - 10 {
        assert!(!pool.is_valid_root(&observed[k]), "stale root {k} must be invalid");
    }
    assert!(!pool.is_valid_root(&word(0xEE)));
    assert!(!pool.is_valid_root(&[0u8; 32]));
}

#[test]
fn counters_saturate() {
    let mut pool = process_initialize(word(1), 255, 0);
    pool.deposit_count = u64::MAX;
    pool.record_deposit();
    assert_eq!(pool.deposit_count, u64::MAX);
    pool.nullifier_count = u64::MAX;
    pool.record_nullifier_spent();
    assert_eq!(pool.nullifier_count, u64::MAX);
    pool.total_fees_collected = u64::MAX - 1;
    pool.record_fee_collected(5);
    assert_eq!(pool.total_fees_collected, u64::MAX);
}

#[test]
fn fee_collection_accumulates() {
    let mut pool = process_initialize(word(1), 255, 0);
    pool.record_fee_collected(3000);
    pool.record_fee_collected(40);
    assert_eq!(pool.total_fees_collected, 3040);
}

#[test]
fn register_then_duplicate_fails() {
    let mut registry = NullifierRegistry::new();
    let pool_id = word(0x50);
    let nullifier = word(0x0A);
    assert_eq!(registry.register(pool_id, nullifier, 100), Ok(()));
    assert_eq!(registry.register(pool_id, nullifier, 101), Err(VeilError::AlreadySpent));
    assert_eq!(registry.markers.len(), 1);
    assert_eq!(registry.markers[0].pool, pool_id);
    assert_eq!(registry.markers[0].nullifier, nullifier);
    assert_eq!(registry.markers[0].spent_at, 100);
}

#[test]
fn register_distinct_nullifiers_never_collide() {
    let mut registry = NullifierRegistry::new();
    let pool_id = word(0x50);
    assert_eq!(registry.register(pool_id, word(0x0A), 1), Ok(()));
    assert_eq!(registry.register(pool_id, word(0x0B), 2), Ok(()));
    // The same nullifier under another pool is another pair.
    assert_eq!(registry.register(word(0x51), word(0x0A), 3), Ok(()));
    assert_eq!(registry.markers.len(), 3);
}

#[test]
fn register_repeated_attempts_one_winner() {
    let mut registry = NullifierRegistry::new();
    let pool_id = word(0x50);
    let nullifier = word(0x0C);
    let mut successes = 0;
    for attempt in 0..8u64 {
        match registry.register(pool_id, nullifier, attempt) {
            Ok(()) => successes += 1,
            Err(e) => assert_eq!(e, VeilError::AlreadySpent),
        }
    }
    assert_eq!(successes, 1);
    assert_eq!(registry.markers.len(), 1);
    assert_eq!(registry.markers[0].spent_at, 0);
}
