//! The node hash of the accumulator and helpers on 32-byte words.
//!
//! Commitments, nullifiers and Merkle nodes are opaque 32-byte words.
//! Inner nodes are hashed with SHA-256 over the concatenation of the two
//! children; the digest itself is left uninterpreted and every contract
//! speaks of it through the name `node_hash`.

use vstd::prelude::*;
use sha2::Digest;

verus! {

/// The all-zero 32-byte word: the fixed empty-leaf value, and the marker
/// of an unpopulated root-history slot.
pub open spec fn zero_word() -> Seq<u8> {
    Seq::new(32, |i: int| 0u8)
}

/// What hashing the 64-byte concatenation of two 32-byte words returns.
/// The digest is a function of the two words alone.
pub uninterp spec fn node_hash(left: Seq<u8>, right: Seq<u8>) -> Seq<u8>;

/// Relies on sha2::Sha256: the digest depends on the hashed bytes alone,
/// here the concatenation `left || right`.
#[verifier::external_body]
pub fn hash_nodes(left: &[u8; 32], right: &[u8; 32]) -> (digest: [u8; 32])
    ensures
        digest@ == node_hash(left@, right@),
{
    let mut hasher = sha2::Sha256::new();
    hasher.update(left);
    hasher.update(right);
    hasher.finalize().into()
}

/// The all-zero word as a value.
pub fn word_zero() -> (w: [u8; 32])
    ensures
        w@ == zero_word(),
{
    let w = [0u8; 32];
    proof {
        assert(w@ =~= zero_word());
    }
    w
}

/// Byte-for-byte equality of two words.
pub fn words_equal(a: &[u8; 32], b: &[u8; 32]) -> (r: bool)
    ensures
        r == (a@ == b@),
{
    let mut i: usize = 0;
    while i < 32
        invariant
            i <= 32,
            forall|j: int| 0 <= j < i ==> a@[j] == b@[j],
        decreases 32 - i,
    {
        if a[i] != b[i] {
            return false;
        }
        i = i + 1;
    }
    proof {
        assert(a@ =~= b@);
    }
    true
}

} // verus!
