//! Pool state aggregate.
//!
//! A pool owns one Merkle accumulator, a circular window of the roots it
//! has superseded, its denomination and fee policy, and its counters. The
//! window lets a proof generated against a slightly stale root still be
//! accepted: on every insertion the previous root is pushed into the
//! window before the root is replaced, and a root is valid exactly when
//! it is the current root or stands in a populated window slot.
//!
//! A pool has two lifecycle states, uninitialized and active; it becomes
//! active once, through `initialize`, and is never deactivated.

use vstd::prelude::*;
use crate::hash::{word_zero, words_equal, zero_word};
use crate::merkle::{root_of, IncrementalMerkleTree, MAX_LEAVES};
use crate::VeilError;

verus! {

/// Number of recent roots kept in the validity window.
pub const ROOT_HISTORY_SIZE: usize = 10;

/// Default relayer fee in basis points.
pub const DEFAULT_RELAYER_FEE_BPS: u16 = 30;

/// Hard cap on the relayer fee in basis points.
pub const MAX_RELAYER_FEE_BPS: u16 = 500;

/// Minimum withdrawal amount, chosen to cover fees.
pub const MIN_WITHDRAWAL_AMOUNT: u64 = 10_000;

/// The index into `past_roots` of the root held by window slot `s`, for a
/// window that has seen `m` pushes: the largest index below `m` that maps
/// to slot `s` in the circular order.
pub open spec fn history_slot_source(m: int, s: int) -> int {
    let k = ROOT_HISTORY_SIZE as int;
    if s < m % k {
        m - m % k + s
    } else {
        m - m % k - k + s
    }
}

/// Privacy pool state.
pub struct PrivacyPool {
    /// Pool authority.
    pub authority: [u8; 32],
    /// Incremental Merkle accumulator of commitments.
    pub merkle_tree: IncrementalMerkleTree,
    /// Circular window of recently superseded roots.
    pub root_history: [[u8; 32]; ROOT_HISTORY_SIZE],
    /// Next window slot to write (circular).
    pub root_history_index: u8,
    /// Number of spent nullifiers, for stats.
    pub nullifier_count: u64,
    /// Relayer fee in basis points.
    pub relayer_fee_bps: u16,
    /// Total fees collected, for stats.
    pub total_fees_collected: u64,
    /// Bump seed of the pool's derived address.
    pub bump: u8,
    /// Fixed denomination; zero means a variable-amount pool.
    pub denomination: u64,
    /// Number of deposits, the anonymity set size.
    pub deposit_count: u64,
    /// Every root this pool has superseded, oldest first: the model of
    /// the window.
    pub past_roots: Ghost<Seq<Seq<u8>>>,
}

impl PrivacyPool {
    /// Well-formedness: the accumulator is well-formed, the fee respects
    /// its hard cap, one root has been superseded per insertion, each
    /// superseded root is the root of the corresponding leaf prefix, and
    /// the window holds the most recent superseded roots in circular
    /// order with untouched slots zeroed.
    pub open spec fn wf(self) -> bool {
        let m = self.past_roots@.len() as int;
        &&& self.merkle_tree.wf()
        &&& self.relayer_fee_bps <= MAX_RELAYER_FEE_BPS
        &&& m == self.merkle_tree.leaves@.len()
        &&& self.root_history_index as int == m % (ROOT_HISTORY_SIZE as int)
        &&& forall|k: int|
            0 <= k < m ==> self.past_roots@[k] == root_of(
                #[trigger] self.merkle_tree.leaves@.take(k),
            )
        &&& forall|s: int|
            0 <= s < ROOT_HISTORY_SIZE && s < m ==> (#[trigger] self.root_history@[s])@
                == self.past_roots@[history_slot_source(m, s)]
        &&& forall|s: int|
            m <= s < ROOT_HISTORY_SIZE ==> (#[trigger] self.root_history@[s])@ == zero_word()
    }

    /// Sets the pool to its zero state: empty accumulator, zeroed window,
    /// zero counters, the default fee, and the given authority, bump and
    /// denomination. The hosting ledger creates the record at most once,
    /// so this runs at most once per pool.
    pub fn initialize(&mut self, authority: [u8; 32], bump: u8, denomination: u64)
        ensures
            final(self).wf(),
            final(self).authority == authority,
            final(self).bump == bump,
            final(self).denomination == denomination,
            final(self).merkle_tree.leaves@ == Seq::<Seq<u8>>::empty(),
            final(self).past_roots@ == Seq::<Seq<u8>>::empty(),
            final(self).nullifier_count == 0,
            final(self).deposit_count == 0,
            final(self).total_fees_collected == 0,
            final(self).relayer_fee_bps == DEFAULT_RELAYER_FEE_BPS,
    {
        let zero = word_zero();
        self.authority = authority;
        self.merkle_tree = IncrementalMerkleTree::new();
        self.root_history = [zero; ROOT_HISTORY_SIZE];
        self.root_history_index = 0;
        self.nullifier_count = 0;
        self.relayer_fee_bps = DEFAULT_RELAYER_FEE_BPS;
        self.total_fees_collected = 0;
        self.bump = bump;
        self.denomination = denomination;
        self.deposit_count = 0;
        self.past_roots = Ghost(Seq::empty());
    }

    /// Whether this pool accepts one exact amount only.
    pub fn is_fixed_denomination(&self) -> (r: bool)
        ensures
            r == (self.denomination > 0),
    {
        self.denomination > 0
    }

    /// The denomination policy: a variable pool accepts any positive
    /// amount; a fixed pool accepts exactly its denomination.
    pub open spec fn validate_amount_spec(self, amount: u64) -> bool {
        if self.denomination == 0 {
            amount > 0
        } else {
            amount == self.denomination
        }
    }

    /// Whether `amount` satisfies the pool's denomination policy.
    pub fn validate_amount(&self, amount: u64) -> (r: bool)
        ensures
            r == self.validate_amount_spec(amount),
    {
        if self.denomination == 0 {
            amount > 0
        } else {
            amount == self.denomination
        }
    }

    /// Saturating increment of the deposit count.
    pub fn record_deposit(&mut self)
        ensures
            final(self).deposit_count == if old(self).deposit_count < u64::MAX {
                old(self).deposit_count + 1
            } else {
                u64::MAX as int
            },
            *final(self) == (PrivacyPool { deposit_count: final(self).deposit_count, ..*old(self) }),
    {
        self.deposit_count = self.deposit_count.saturating_add(1);
    }

    /// Relayer fee for `amount`: `amount * fee_bps / 10000`, rounded
    /// down, computed in a wider width so that no intermediate overflows.
    /// Informational only: fee deduction happens in the asset-transfer
    /// collaborator.
    pub fn calculate_relayer_fee(&self, amount: u64) -> (fee: u64)
        requires
            self.relayer_fee_bps <= MAX_RELAYER_FEE_BPS,
        ensures
            fee == amount * self.relayer_fee_bps / 10000,
            fee <= amount,
    {
        proof {
            assert(amount * self.relayer_fee_bps <= u64::MAX * 500) by (nonlinear_arith)
                requires
                    amount <= u64::MAX,
                    self.relayer_fee_bps <= 500,
            {}
            vstd::arithmetic::div_mod::lemma_div_is_ordered(
                (amount * self.relayer_fee_bps) as int,
                (u64::MAX * 500) as int,
                10000,
            );
            assert(amount * self.relayer_fee_bps <= amount * 10000) by (nonlinear_arith)
                requires
                    self.relayer_fee_bps <= 500,
            {}
            vstd::arithmetic::div_mod::lemma_div_is_ordered(
                (amount * self.relayer_fee_bps) as int,
                (amount * 10000) as int,
                10000,
            );
            vstd::arithmetic::div_mod::lemma_div_multiples_vanish(amount as int, 10000);
        }
        ((amount as u128) * (self.relayer_fee_bps as u128) / 10000) as u64
    }

    /// Saturating addition of a collected fee.
    pub fn record_fee_collected(&mut self, fee: u64)
        ensures
            final(self).total_fees_collected == if old(self).total_fees_collected + fee
                <= u64::MAX {
                old(self).total_fees_collected + fee
            } else {
                u64::MAX as int
            },
            *final(self) == (PrivacyPool {
                total_fees_collected: final(self).total_fees_collected,
                ..*old(self)
            }),
    {
        self.total_fees_collected = self.total_fees_collected.saturating_add(fee);
    }

    /// Saturating increment of the spent-nullifier count.
    pub fn record_nullifier_spent(&mut self)
        ensures
            final(self).nullifier_count == if old(self).nullifier_count < u64::MAX {
                old(self).nullifier_count + 1
            } else {
                u64::MAX as int
            },
            *final(self) == (PrivacyPool {
                nullifier_count: final(self).nullifier_count,
                ..*old(self)
            }),
    {
        self.nullifier_count = self.nullifier_count.saturating_add(1);
    }

    /// Appends a commitment: the current root is superseded into the
    /// window, the accumulator is extended, and the new leaf index is
    /// returned. Fails exactly when the accumulator is at capacity,
    /// leaving the pool unchanged.
    pub fn add_commitment(&mut self, commitment: [u8; 32]) -> (r: Result<u64, VeilError>)
        requires
            old(self).wf(),
        ensures
            final(self).wf(),
            old(self).merkle_tree.next_index < MAX_LEAVES ==> {
                &&& r == Ok::<u64, VeilError>(old(self).merkle_tree.next_index)
                &&& final(self).merkle_tree.leaves@ == old(self).merkle_tree.leaves@.push(
                    commitment@,
                )
                &&& final(self).past_roots@ == old(self).past_roots@.push(
                    old(self).merkle_tree.current_root@,
                )
                &&& final(self).denomination == old(self).denomination
                &&& final(self).authority == old(self).authority
                &&& final(self).bump == old(self).bump
                &&& final(self).relayer_fee_bps == old(self).relayer_fee_bps
                &&& final(self).deposit_count == old(self).deposit_count
                &&& final(self).nullifier_count == old(self).nullifier_count
                &&& final(self).total_fees_collected == old(self).total_fees_collected
            },
            old(self).merkle_tree.next_index >= MAX_LEAVES ==> {
                &&& r == Err::<u64, VeilError>(VeilError::PoolFull)
                &&& *final(self) == *old(self)
            },
    {
        let ghost prior = self.merkle_tree.leaves@;
        let ghost m = self.past_roots@.len() as int;
        let ghost k = ROOT_HISTORY_SIZE as int;
        let old_root = self.merkle_tree.current_root;
        let insert_result = self.merkle_tree.insert(commitment);
        let leaf_index = match insert_result {
            Ok(i) => i,
            Err(e) => {
                return Err(e);
            },
        };
        let write_slot = self.root_history_index as usize;
        self.root_history[write_slot] = old_root;
        self.root_history_index = ((write_slot + 1) % ROOT_HISTORY_SIZE) as u8;
        self.past_roots = Ghost(self.past_roots@.push(old_root@));
        proof {
            let grown = self.merkle_tree.leaves@;
            assert(grown.take(m) =~= prior);
            assert forall|k2: int| 0 <= k2 < m + 1 implies self.past_roots@[k2] == root_of(
                #[trigger] grown.take(k2),
            ) by {
                if k2 < m {
                    assert(grown.take(k2) =~= prior.take(k2));
                }
            }
            assert forall|s: int| 0 <= s < ROOT_HISTORY_SIZE && s < m + 1 implies (
            #[trigger] self.root_history@[s])@ == self.past_roots@[history_slot_source(
                m + 1,
                s,
            )] by {
                if s == m % k {
                    assert(history_slot_source(m + 1, s) == m);
                } else {
                    assert(s != m % k);
                    assert(s < m);
                    assert(history_slot_source(m + 1, s) == history_slot_source(m, s));
                }
            }
        }
        Ok(leaf_index)
    }

    /// The current Merkle root.
    pub fn current_root(&self) -> (r: [u8; 32])
        ensures
            r == self.merkle_tree.current_root,
    {
        self.merkle_tree.current_root
    }

    /// Number of commitments in the tree.
    pub fn commitment_count(&self) -> (r: u64)
        ensures
            r == self.merkle_tree.next_index,
    {
        self.merkle_tree.next_index
    }

    /// A root is valid exactly when it is the current root or stands in a
    /// populated (non-zero) window slot.
    pub open spec fn valid_root_spec(self, root: Seq<u8>) -> bool {
        ||| root == self.merkle_tree.current_root@
        ||| (root != zero_word() && exists|s: int|
            0 <= s < ROOT_HISTORY_SIZE && (#[trigger] self.root_history@[s])@ == root)
    }

    /// Whether a proof against `root` may be accepted.
    pub fn is_valid_root(&self, root: &[u8; 32]) -> (r: bool)
        ensures
            r == self.valid_root_spec(root@),
    {
        if words_equal(root, &self.merkle_tree.current_root) {
            return true;
        }
        let zero = word_zero();
        if words_equal(root, &zero) {
            return false;
        }
        let mut s: usize = 0;
        while s < ROOT_HISTORY_SIZE
            invariant
                s <= ROOT_HISTORY_SIZE,
                root@ != zero_word(),
                forall|j: int| 0 <= j < s ==> (#[trigger] self.root_history@[j])@ != root@,
            decreases ROOT_HISTORY_SIZE - s,
        {
            if words_equal(&self.root_history[s], root) {
                proof {
                    assert((self.root_history@[s as int])@ == root@);
                }
                return true;
            }
            s = s + 1;
        }
        false
    }

    /// Pool-level nullifier query: advisory only and unsupported here —
    /// it answers false for every nullifier. The sole authoritative
    /// double-spend guard is the registry's create-if-absent semantics.
    pub fn is_nullifier_spent(&self, _nullifier: &[u8; 32]) -> (r: bool)
        ensures
            r == false,
    {
        false
    }

    /// Root window correctness: a root is accepted exactly when it is the
    /// current root, or it is non-zero and among the most recently
    /// superseded roots that the window can hold. Every older superseded
    /// root, and every unrelated value, is rejected unless it coincides
    /// byte-for-byte with one of those.
    pub proof fn lemma_root_window_characterization(self, root: Seq<u8>)
        requires
            self.wf(),
        ensures
            self.valid_root_spec(root) <==> {
                ||| root == self.merkle_tree.current_root@
                ||| (root != zero_word() && exists|t: int|
                    self.past_roots@.len() - ROOT_HISTORY_SIZE <= t < self.past_roots@.len()
                        && 0 <= t && #[trigger] self.past_roots@[t] == root)
            },
    {
        let m = self.past_roots@.len() as int;
        let k = ROOT_HISTORY_SIZE as int;
        if self.valid_root_spec(root) && root != self.merkle_tree.current_root@ {
            let s = choose|s: int|
                0 <= s < ROOT_HISTORY_SIZE && (#[trigger] self.root_history@[s])@ == root;
            if s < m {
                let t = history_slot_source(m, s);
                assert(m - k <= t < m && 0 <= t);
                assert(self.past_roots@[t] == root);
            }
        }
        if root != zero_word() && exists|t: int|
            m - k <= t < m && 0 <= t && #[trigger] self.past_roots@[t] == root {
            let t = choose|t: int| m - k <= t < m && 0 <= t && #[trigger] self.past_roots@[t] == root;
            let s = t % k;
            assert(0 <= s < k);
            assert(s < m);
            assert(history_slot_source(m, s) == t);
            assert((self.root_history@[s])@ == root);
        }
    }
}

} // verus!
