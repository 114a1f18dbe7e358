//! Nullifier registry: exactly-once spend semantics.
//!
//! Spending a commitment reveals its nullifier. The registry creates one
//! permanent marker per consumed `(pool, nullifier)` pair; creation of a
//! marker that already exists fails. The check and the creation are one
//! operation on the registry, so there is no window between them: two
//! submissions racing on the same nullifier produce exactly one winner.

use vstd::prelude::*;
use crate::hash::words_equal;
use crate::VeilError;

verus! {

/// One record per consumed nullifier, created exactly once and never
/// deleted; the timestamp is recorded for audit only.
pub struct NullifierMarker {
    /// The pool in which the nullifier was consumed.
    pub pool: [u8; 32],
    /// The consumed nullifier.
    pub nullifier: [u8; 32],
    /// Clock value supplied by the caller at the spend.
    pub spent_at: u64,
}

/// Whether `markers` holds a marker for `(pool, nullifier)`.
pub open spec fn registry_contains(
    markers: Seq<NullifierMarker>,
    pool: Seq<u8>,
    nullifier: Seq<u8>,
) -> bool {
    exists|i: int|
        0 <= i < markers.len() && (#[trigger] markers[i]).pool@ == pool && markers[i].nullifier@
            == nullifier
}

/// The registry of consumed nullifiers. Its single mutating operation,
/// `register`, is an atomic create-if-absent: the sole double-spend
/// barrier of the pool.
pub struct NullifierRegistry {
    /// All markers ever created, in creation order.
    pub markers: Vec<NullifierMarker>,
}

impl NullifierRegistry {
    /// Whether a marker for `(pool, nullifier)` exists.
    pub open spec fn contains_spec(&self, pool: Seq<u8>, nullifier: Seq<u8>) -> bool {
        registry_contains(self.markers@, pool, nullifier)
    }

    /// An empty registry.
    pub fn new() -> (r: NullifierRegistry)
        ensures
            r.markers@ == Seq::<NullifierMarker>::empty(),
    {
        NullifierRegistry { markers: Vec::new() }
    }

    /// Create-if-absent. Succeeds, appending one permanent marker, exactly
    /// when no marker for `(pool, nullifier)` exists; otherwise fails and
    /// changes nothing. The check and the append are one operation.
    pub fn register(
        &mut self,
        pool: [u8; 32],
        nullifier: [u8; 32],
        timestamp: u64,
    ) -> (r: Result<(), VeilError>)
        ensures
            old(self).contains_spec(pool@, nullifier@) ==> {
                &&& r == Err::<(), VeilError>(VeilError::AlreadySpent)
                &&& final(self).markers@ == old(self).markers@
            },
            !old(self).contains_spec(pool@, nullifier@) ==> {
                &&& r == Ok::<(), VeilError>(())
                &&& final(self).markers@ == old(self).markers@.push(
                    NullifierMarker { pool, nullifier, spent_at: timestamp },
                )
            },
    {
        let mut i: usize = 0;
        while i < self.markers.len()
            invariant
                i <= self.markers.len(),
                self.markers@ == old(self).markers@,
                forall|j: int|
                    0 <= j < i ==> !((#[trigger] self.markers@[j]).pool@ == pool@
                        && self.markers@[j].nullifier@ == nullifier@),
            decreases self.markers.len() - i,
        {
            let same_pool = words_equal(&self.markers[i].pool, &pool);
            let same_nullifier = words_equal(&self.markers[i].nullifier, &nullifier);
            if same_pool && same_nullifier {
                return Err(VeilError::AlreadySpent);
            }
            i = i + 1;
        }
        self.markers.push(NullifierMarker { pool, nullifier, spent_at: timestamp });
        Ok(())
    }
}

/// Nullifier uniqueness, kept: once `register` has appended a marker, every
/// later `register` of the same pair finds it, so exactly one submission of
/// a given pair ever succeeds.
pub proof fn lemma_registered_pair_is_permanent(markers: Seq<NullifierMarker>, m: NullifierMarker)
    ensures
        registry_contains(markers.push(m), m.pool@, m.nullifier@),
{
    assert(markers.push(m)[markers.len() as int] == m);
}

/// Nullifier uniqueness, no collision: appending a marker for one pair
/// never changes whether any other pair is registered, so two different
/// nullifiers never interfere.
pub proof fn lemma_register_no_collision(
    markers: Seq<NullifierMarker>,
    m: NullifierMarker,
    pool: Seq<u8>,
    nullifier: Seq<u8>,
)
    requires
        m.pool@ != pool || m.nullifier@ != nullifier,
    ensures
        registry_contains(markers.push(m), pool, nullifier) == registry_contains(
            markers,
            pool,
            nullifier,
        ),
{
    if registry_contains(markers.push(m), pool, nullifier) {
        let i = choose|i: int|
            0 <= i < markers.push(m).len() && (#[trigger] markers.push(m)[i]).pool@ == pool
                && markers.push(m)[i].nullifier@ == nullifier;
        assert(i < markers.len() && markers[i] == markers.push(m)[i]);
    }
    if registry_contains(markers, pool, nullifier) {
        let i = choose|i: int|
            0 <= i < markers.len() && (#[trigger] markers[i]).pool@ == pool
                && markers[i].nullifier@ == nullifier;
        assert(markers.push(m)[i] == markers[i]);
    }
}

/// Fixed-size nullifier bitmap account. Declared for storage sizing only
/// and not wired into any processing path: the registry's create-if-absent
/// semantics are the sole double-spend guard.
pub struct NullifierSet {
    /// Pool this nullifier set belongs to.
    pub pool: [u8; 32],
    /// Nullifier bitmap, one bit per nullifier slot.
    pub bitmap: [u8; 1024],
}

} // verus!
