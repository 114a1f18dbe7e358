//! Fixed-depth incremental Merkle accumulator.
//!
//! Commitments are appended one at a time. The tree has a fixed depth and
//! every unfilled leaf slot holds the all-zero empty leaf. Insertion walks
//! one root-to-leaf path, caching completed left siblings, so each append
//! costs one hash per level instead of rehashing the whole tree. The
//! well-formedness invariant ties the cached root to `subtree_hash`, the
//! from-scratch definition of the tree's root, so the cached root is
//! always the root of the full tree over the leaves inserted so far.

use vstd::prelude::*;
use vstd::arithmetic::power2::{
    pow2, lemma2_to64, lemma_pow2_pos, lemma_pow2_unfold,
};
use vstd::arithmetic::div_mod::{
    lemma_basic_div, lemma_div_denominator, lemma_fundamental_div_mod,
    lemma_fundamental_div_mod_converse_div, lemma_fundamental_div_mod_converse_mod,
    lemma_mod_division_less_than_divisor,
};
use crate::hash::{hash_nodes, node_hash, word_zero, zero_word};
use crate::VeilError;

verus! {

broadcast use lemma_pow2_pos;

/// Depth of the accumulator.
pub const TREE_DEPTH: usize = 20;

/// Capacity of the accumulator: two to the power of `TREE_DEPTH`.
pub const MAX_LEAVES: u64 = 0x100000;

/// The capacity constant equals the spec-level power of two.
pub proof fn lemma_max_leaves_is_pow2()
    ensures
        MAX_LEAVES == pow2(TREE_DEPTH as nat),
{
    lemma2_to64();
}

/// Root of an all-empty subtree of height `level`.
pub open spec fn empty_subtree_hash(level: nat) -> Seq<u8>
    decreases level,
{
    if level == 0 {
        zero_word()
    } else {
        node_hash(
            empty_subtree_hash((level - 1) as nat),
            empty_subtree_hash((level - 1) as nat),
        )
    }
}

/// Root of the height-`level` subtree whose leftmost leaf slot is `start`,
/// computed from scratch over `leaves`; slots at or past `leaves.len()`
/// hold the empty leaf.
pub open spec fn subtree_hash(level: nat, start: nat, leaves: Seq<Seq<u8>>) -> Seq<u8>
    decreases level,
{
    if level == 0 {
        if start < leaves.len() {
            leaves[start as int]
        } else {
            zero_word()
        }
    } else {
        node_hash(
            subtree_hash((level - 1) as nat, start, leaves),
            subtree_hash((level - 1) as nat, start + pow2((level - 1) as nat), leaves),
        )
    }
}

/// Root of the whole fixed-depth tree over `leaves`.
pub open spec fn root_of(leaves: Seq<Seq<u8>>) -> Seq<u8> {
    subtree_hash(TREE_DEPTH as nat, 0, leaves)
}

/// A subtree that starts at or past the end of the leaves is all-empty.
pub proof fn lemma_subtree_past_end(level: nat, start: nat, leaves: Seq<Seq<u8>>)
    requires
        start >= leaves.len(),
    ensures
        subtree_hash(level, start, leaves) == empty_subtree_hash(level),
    decreases level,
{
    if level > 0 {
        lemma_subtree_past_end((level - 1) as nat, start, leaves);
        lemma_subtree_past_end((level - 1) as nat, start + pow2((level - 1) as nat), leaves);
    }
}

/// Appending a leaf leaves every subtree that does not cover the new
/// slot unchanged.
pub proof fn lemma_subtree_push(level: nat, start: nat, leaves: Seq<Seq<u8>>, leaf: Seq<u8>)
    requires
        start + pow2(level) <= leaves.len() || start > leaves.len(),
    ensures
        subtree_hash(level, start, leaves.push(leaf)) == subtree_hash(level, start, leaves),
    decreases level,
{
    lemma2_to64();
    if level == 0 {
    } else {
        lemma_pow2_unfold(level);
        lemma_subtree_push((level - 1) as nat, start, leaves, leaf);
        lemma_subtree_push((level - 1) as nat, start + pow2((level - 1) as nat), leaves, leaf);
    }
}

/// Incremental Merkle accumulator state.
pub struct IncrementalMerkleTree {
    /// Count of leaves inserted so far; the next insertion position.
    pub next_index: u64,
    /// Cached completed left siblings, one per level: when the path index
    /// at a level is odd, `filled_subtrees[level]` is the root of the
    /// completed subtree just to the left of the path.
    pub filled_subtrees: [[u8; 32]; TREE_DEPTH],
    /// Root of the tree over all inserted leaves.
    pub current_root: [u8; 32],
    /// `empty_hashes[level]` is the root of an all-empty subtree of
    /// height `level`.
    pub empty_hashes: [[u8; 32]; TREE_DEPTH],
    /// The leaves inserted so far, in insertion order: the mathematical
    /// model of the accumulator.
    pub leaves: Ghost<Seq<Seq<u8>>>,
}

impl IncrementalMerkleTree {
    /// Well-formedness: the cached root is the from-scratch root over the
    /// inserted leaves, and each cached left sibling is the root of the
    /// completed subtree it stands for.
    pub open spec fn wf(self) -> bool {
        &&& self.leaves@.len() == self.next_index
        &&& self.next_index <= MAX_LEAVES
        &&& self.current_root@ == root_of(self.leaves@)
        &&& forall|d: int|
            0 <= d < TREE_DEPTH ==> (#[trigger] self.empty_hashes@[d])@ == empty_subtree_hash(
                d as nat,
            )
        &&& forall|d: int|
            0 <= d < TREE_DEPTH && (self.leaves@.len() / pow2(d as nat)) % 2 == 1 ==> (
            #[trigger] self.filled_subtrees@[d])@ == subtree_hash(
                d as nat,
                ((self.leaves@.len() / pow2(d as nat) - 1) * pow2(d as nat)) as nat,
                self.leaves@,
            )
    }

    /// A fresh accumulator with no leaves.
    pub fn new() -> (t: IncrementalMerkleTree)
        ensures
            t.wf(),
            t.next_index == 0,
            t.leaves@ == Seq::<Seq<u8>>::empty(),
    {
        let zero = word_zero();
        let mut empty_hashes: [[u8; 32]; TREE_DEPTH] = [zero; TREE_DEPTH];
        let mut cur: [u8; 32] = zero;
        let mut d: usize = 0;
        while d < TREE_DEPTH
            invariant
                d <= TREE_DEPTH,
                cur@ == empty_subtree_hash(d as nat),
                forall|e: int|
                    0 <= e < d ==> (#[trigger] empty_hashes@[e])@ == empty_subtree_hash(e as nat),
            decreases TREE_DEPTH - d,
        {
            empty_hashes[d] = cur;
            cur = hash_nodes(&cur, &cur);
            d = d + 1;
        }
        let t = IncrementalMerkleTree {
            next_index: 0,
            filled_subtrees: empty_hashes,
            current_root: cur,
            empty_hashes,
            leaves: Ghost(Seq::empty()),
        };
        proof {
            lemma_subtree_past_end(TREE_DEPTH as nat, 0, t.leaves@);
        }
        t
    }

    /// Appends `leaf` at position `next_index` and returns that index;
    /// fails exactly when the tree already holds its maximum number of
    /// leaves, leaving the state unchanged. On success the cached root
    /// becomes the from-scratch root over the extended leaf sequence.
    #[verifier::loop_isolation(false)]
    #[verifier::rlimit(60)]
    pub fn insert(&mut self, leaf: [u8; 32]) -> (r: Result<u64, VeilError>)
        requires
            old(self).wf(),
        ensures
            final(self).wf(),
            final(self).empty_hashes == old(self).empty_hashes,
            old(self).next_index < MAX_LEAVES ==> {
                &&& r == Ok::<u64, VeilError>(old(self).next_index)
                &&& final(self).leaves@ == old(self).leaves@.push(leaf@)
                &&& final(self).next_index == old(self).next_index + 1
            },
            old(self).next_index >= MAX_LEAVES ==> {
                &&& r == Err::<u64, VeilError>(VeilError::PoolFull)
                &&& *final(self) == *old(self)
            },
    {
        if self.next_index >= MAX_LEAVES {
            return Err(VeilError::PoolFull);
        }
        let index = self.next_index;
        let ghost n = index as nat;
        let ghost prior = self.leaves@;
        let ghost grown = prior.push(leaf@);
        proof {
            lemma_max_leaves_is_pow2();
        }
        self.leaves = Ghost(grown);

        let mut cur: [u8; 32] = leaf;
        let mut cur_index: u64 = index;
        let mut d: usize = 0;
        proof {
            lemma2_to64();
        }
        while d < TREE_DEPTH
            invariant
                d <= TREE_DEPTH,
                cur_index as nat == n / pow2(d as nat),
                cur@ == subtree_hash(d as nat, (n / pow2(d as nat)) * pow2(d as nat), grown),
                self.leaves@ == grown,
                self.next_index == index,
                self.empty_hashes == old(self).empty_hashes,
                self.current_root == old(self).current_root,
                forall|e: int|
                    d <= e < TREE_DEPTH ==> self.filled_subtrees@[e]
                        == old(self).filled_subtrees@[e],
                forall|e: int|
                    0 <= e < d && ((n + 1) / pow2(e as nat)) % 2 == 1 ==> (
                    #[trigger] self.filled_subtrees@[e])@ == subtree_hash(
                        e as nat,
                        (((n + 1) / pow2(e as nat) - 1) * pow2(e as nat)) as nat,
                        grown,
                    ),
            decreases TREE_DEPTH - d,
        {
            let ghost lvl = d as nat;
            let ghost p = pow2(lvl);
            let ghost idx = n / p;
            let ghost start = idx * p;
            proof {
                // Sandwich the leaf count between the subtree bounds:
                // start <= n < start + p.
                lemma_fundamental_div_mod(n as int, p as int);
                lemma_mod_division_less_than_divisor(n as int, p as int);
                assert(start <= n < start + p) by (nonlinear_arith)
                    requires
                        n == p * idx + n % p,
                        0 <= n % p < p,
                        start == idx * p,
                {}
            }
            if cur_index % 2 == 0 {
                // The path node is a left child: cache it and pair it
                // with the all-empty right sibling.
                self.filled_subtrees[d] = cur;
                let sibling = self.empty_hashes[d];
                cur = hash_nodes(&cur, &sibling);
                proof {
                    // The right sibling starts past the last leaf.
                    lemma_subtree_past_end(lvl, (start + p) as nat, grown);
                    // The parent subtree starts where this one does.
                    assert((idx / 2) * pow2(lvl + 1) == start) by (nonlinear_arith)
                        requires
                            idx % 2 == 0,
                            start == idx * p,
                            pow2(lvl + 1) == 2 * p,
                    {
                        assert(idx == 2 * (idx / 2) + idx % 2);
                    }
                    lemma_pow2_unfold(lvl + 1);
                    lemma_div_denominator(n as int, p as int, 2);
                    // The new cache entry satisfies the invariant for the
                    // grown leaf count at this level.
                    if (n + 1) / p == idx + 1 {
                        assert(((idx + 1) - 1) * p == start);
                    } else {
                        lemma_fundamental_div_mod((n + 1) as int, p as int);
                        lemma_mod_division_less_than_divisor((n + 1) as int, p as int);
                        if n + 1 < start + p {
                            lemma_fundamental_div_mod_converse_div(
                                (n + 1) as int,
                                p as int,
                                idx as int,
                                (n + 1 - start) as int,
                            );
                            lemma_fundamental_div_mod_converse_mod(
                                (n + 1) as int,
                                p as int,
                                idx as int,
                                (n + 1 - start) as int,
                            );
                        } else {
                            assert(n + 1 == start + p);
                            assert((idx + 1) * p == start + p) by (nonlinear_arith)
                                requires
                                    start == idx * p,
                            {}
                            lemma_fundamental_div_mod_converse_div(
                                (n + 1) as int,
                                p as int,
                                (idx + 1) as int,
                                0,
                            );
                        }
                    }
                }
            } else {
                // The path node is a right child: pair it with the cached
                // completed left sibling.
                let left = self.filled_subtrees[d];
                cur = hash_nodes(&left, &cur);
                proof {
                    // The cached sibling covers only slots strictly below
                    // the old leaf count, so growing the leaves does not
                    // change it.
                    assert((idx - 1) * p + p == start) by (nonlinear_arith)
                        requires
                            start == idx * p,
                            idx >= 1,
                    {}
                    lemma_subtree_push(lvl, ((idx - 1) * p) as nat, prior, leaf@);
                    // The parent subtree starts one completed subtree to
                    // the left.
                    assert((idx / 2) * pow2(lvl + 1) == (idx - 1) * p) by (nonlinear_arith)
                        requires
                            idx % 2 == 1,
                            pow2(lvl + 1) == 2 * p,
                    {
                        assert(idx == 2 * (idx / 2) + idx % 2);
                    }
                    lemma_pow2_unfold(lvl + 1);
                    lemma_div_denominator(n as int, p as int, 2);
                    // The untouched cache entry still satisfies the
                    // invariant for the grown leaf count at this level.
                    if ((n + 1) / p) % 2 == 1 {
                        lemma_fundamental_div_mod((n + 1) as int, p as int);
                        lemma_mod_division_less_than_divisor((n + 1) as int, p as int);
                        if n + 1 < start + p {
                            lemma_fundamental_div_mod_converse_div(
                                (n + 1) as int,
                                p as int,
                                idx as int,
                                (n + 1 - start) as int,
                            );
                        } else {
                            assert(n + 1 == start + p);
                            assert((idx + 1) * p == start + p) by (nonlinear_arith)
                                requires
                                    start == idx * p,
                            {}
                            lemma_fundamental_div_mod_converse_div(
                                (n + 1) as int,
                                p as int,
                                (idx + 1) as int,
                                0,
                            );
                            assert(((n + 1) / p) % 2 != 1);
                        }
                    }
                }
            }
            cur_index = cur_index / 2;
            d = d + 1;
        }
        proof {
            // At the top the path index is zero, so the node is the root.
            lemma_basic_div(n as int, pow2(TREE_DEPTH as nat) as int);
            assert((n / pow2(TREE_DEPTH as nat)) * pow2(TREE_DEPTH as nat) == 0)
                by (nonlinear_arith)
                requires
                    n / pow2(TREE_DEPTH as nat) == 0,
            {}
        }
        self.current_root = cur;
        self.next_index = index + 1;
        Ok(index)
    }

    /// The cached root, with no recomputation.
    pub fn current_root(&self) -> (r: [u8; 32])
        ensures
            r == self.current_root,
    {
        self.current_root
    }

    /// Accumulator correctness: for any sequence of insertions, the root
    /// kept incrementally equals the root obtained by hashing the full
    /// fixed-depth tree from scratch over the same leaves, with unfilled
    /// slots as the empty leaf.
    pub proof fn lemma_incremental_root_matches_scratch(self)
        requires
            self.wf(),
        ensures
            self.current_root@ == subtree_hash(TREE_DEPTH as nat, 0, self.leaves@),
    {
    }
}

} // verus!
