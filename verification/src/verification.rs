//! Proof verification contract.
//!
//! The pool consumes a verification result and treats the concrete proof
//! scheme as a black box behind the `ProofVerifier` interface: swapping
//! the scheme must not touch the accumulator, window, registry or pool
//! logic. A verifier attests, for a transfer, that the prover knows a
//! commitment opening whose nullifier is the given value under the given
//! root and that the new output commitment is bound into the proof; for
//! an unshield, that the attested recipient and amount match the
//! arguments exactly, so the withdrawal cannot be redirected after proof
//! generation.
//!
//! One scheme is provided: a placeholder in which a proof is a detached
//! Ed25519 signature over the statement bytes, followed by the signer's
//! public key.

use vstd::prelude::*;
use vstd::bytes::{spec_u64_to_le_bytes, u64_to_le_bytes};

verus! {

/// Byte length of a serialized placeholder proof: a 64-byte signature
/// followed by a 32-byte public key.
pub const MVP_PROOF_SIZE: usize = 96;

/// The capability the pool requires from a proof scheme. Each scheme
/// states which statements it accepts as a spec-level predicate and its
/// runtime check returns exactly that predicate.
pub trait ProofVerifier {
    /// Which (proof, nullifier, new commitment, root) statements the
    /// scheme accepts.
    spec fn transfer_accepts(
        &self,
        proof_bytes: Seq<u8>,
        nullifier: Seq<u8>,
        new_commitment: Seq<u8>,
        root: Seq<u8>,
    ) -> bool;

    /// Which (proof, nullifier, recipient, amount, root) statements the
    /// scheme accepts.
    spec fn unshield_accepts(
        &self,
        proof_bytes: Seq<u8>,
        nullifier: Seq<u8>,
        recipient: Seq<u8>,
        amount: u64,
        root: Seq<u8>,
    ) -> bool;

    /// Checks a transfer proof.
    fn verify_transfer(
        &self,
        proof_bytes: &Vec<u8>,
        nullifier: &[u8; 32],
        new_commitment: &[u8; 32],
        root: &[u8; 32],
    ) -> (r: bool)
        ensures
            r == self.transfer_accepts(proof_bytes@, nullifier@, new_commitment@, root@),
    ;

    /// Checks an unshield proof.
    fn verify_unshield(
        &self,
        proof_bytes: &Vec<u8>,
        nullifier: &[u8; 32],
        recipient: &[u8; 32],
        amount: u64,
        root: &[u8; 32],
    ) -> (r: bool)
        ensures
            r == self.unshield_accepts(proof_bytes@, nullifier@, recipient@, amount, root@),
    ;
}

/// Whether an Ed25519 signature is valid for a public key and message.
/// The outcome is a function of the three byte strings alone.
pub uninterp spec fn ed25519_verifies(
    public_key: Seq<u8>,
    message: Seq<u8>,
    signature: Seq<u8>,
) -> bool;

/// Relies on ed25519_dalek::VerifyingKey::from_bytes and
/// ed25519_dalek::VerifyingKey::verify_strict: the outcome depends on the
/// key bytes, the message and the signature alone; key bytes that do not
/// parse as a verifying key verify nothing.
#[verifier::external_body]
fn ed25519_verify(public_key: &[u8; 32], message: &Vec<u8>, signature: &[u8; 64]) -> (r: bool)
    ensures
        r == ed25519_verifies(public_key@, message@, signature@),
{
    match ed25519_dalek::VerifyingKey::from_bytes(public_key) {
        Ok(key) => {
            let sig = ed25519_dalek::Signature::from_bytes(signature);
            key.verify_strict(message, &sig).is_ok()
        },
        Err(_) => false,
    }
}

/// The transfer statement the placeholder scheme signs: the spent
/// nullifier, the new commitment bound as the only accepted output, and
/// the root the proof was generated against.
pub open spec fn transfer_message_spec(
    nullifier: Seq<u8>,
    new_commitment: Seq<u8>,
    root: Seq<u8>,
) -> Seq<u8> {
    nullifier + new_commitment + root
}

/// The unshield statement the placeholder scheme signs: the spent
/// nullifier, the exact recipient and amount of this withdrawal, and the
/// root the proof was generated against.
pub open spec fn unshield_message_spec(
    nullifier: Seq<u8>,
    recipient: Seq<u8>,
    amount: u64,
    root: Seq<u8>,
) -> Seq<u8> {
    nullifier + recipient + spec_u64_to_le_bytes(amount) + root
}

/// Appends a 32-byte word to a byte buffer.
fn append_word(out: &mut Vec<u8>, w: &[u8; 32])
    ensures
        final(out)@ == old(out)@ + w@,
{
    let mut i: usize = 0;
    while i < 32
        invariant
            i <= 32,
            out@ == old(out)@ + w@.take(i as int),
        decreases 32 - i,
    {
        out.push(w[i]);
        proof {
            assert(out@ =~= old(out)@ + w@.take(i + 1));
        }
        i = i + 1;
    }
    proof {
        assert(w@.take(32) =~= w@);
    }
}

/// Serializes the transfer statement.
fn transfer_message(nullifier: &[u8; 32], new_commitment: &[u8; 32], root: &[u8; 32]) -> (m: Vec<
    u8,
>)
    ensures
        m@ == transfer_message_spec(nullifier@, new_commitment@, root@),
{
    let mut m: Vec<u8> = Vec::new();
    append_word(&mut m, nullifier);
    append_word(&mut m, new_commitment);
    append_word(&mut m, root);
    m
}

/// Serializes the unshield statement.
fn unshield_message(
    nullifier: &[u8; 32],
    recipient: &[u8; 32],
    amount: u64,
    root: &[u8; 32],
) -> (m: Vec<u8>)
    ensures
        m@ == unshield_message_spec(nullifier@, recipient@, amount, root@),
{
    let mut m: Vec<u8> = Vec::new();
    append_word(&mut m, nullifier);
    append_word(&mut m, recipient);
    let amount_bytes = u64_to_le_bytes(amount);
    let mut i: usize = 0;
    while i < amount_bytes.len()
        invariant
            i <= amount_bytes@.len(),
            amount_bytes@ == spec_u64_to_le_bytes(amount),
            m@ == nullifier@ + recipient@ + amount_bytes@.take(i as int),
        decreases amount_bytes@.len() - i,
    {
        m.push(amount_bytes[i]);
        proof {
            assert(m@ =~= nullifier@ + recipient@ + amount_bytes@.take(i + 1));
        }
        i = i + 1;
    }
    proof {
        assert(amount_bytes@.take(amount_bytes@.len() as int) =~= amount_bytes@);
    }
    append_word(&mut m, root);
    m
}

/// Copies the 64-byte signature out of a serialized proof.
fn read_signature(proof_bytes: &Vec<u8>) -> (sig: [u8; 64])
    requires
        proof_bytes@.len() >= 64,
    ensures
        sig@ == proof_bytes@.subrange(0, 64),
{
    let mut sig = [0u8; 64];
    let mut i: usize = 0;
    while i < 64
        invariant
            i <= 64,
            proof_bytes@.len() >= 64,
            forall|j: int| 0 <= j < i ==> sig@[j] == proof_bytes@[j],
        decreases 64 - i,
    {
        sig[i] = proof_bytes[i];
        i = i + 1;
    }
    proof {
        assert(sig@ =~= proof_bytes@.subrange(0, 64));
    }
    sig
}

/// Copies the 32-byte public key out of a serialized proof.
fn read_public_key(proof_bytes: &Vec<u8>) -> (pk: [u8; 32])
    requires
        proof_bytes@.len() >= 96,
    ensures
        pk@ == proof_bytes@.subrange(64, 96),
{
    let mut pk = [0u8; 32];
    let mut i: usize = 0;
    while i < 32
        invariant
            i <= 32,
            proof_bytes@.len() >= 96,
            forall|j: int| 0 <= j < i ==> pk@[j] == proof_bytes@[64 + j],
        decreases 32 - i,
    {
        pk[i] = proof_bytes[64 + i];
        i = i + 1;
    }
    proof {
        assert(pk@ =~= proof_bytes@.subrange(64, 96));
    }
    pk
}

/// The placeholder scheme: a proof is a detached Ed25519 signature over
/// the statement bytes followed by the signer's public key. It stands in
/// for a zero-knowledge scheme behind the same interface.
pub struct MvpVerifier;

impl ProofVerifier for MvpVerifier {
    open spec fn transfer_accepts(
        &self,
        proof_bytes: Seq<u8>,
        nullifier: Seq<u8>,
        new_commitment: Seq<u8>,
        root: Seq<u8>,
    ) -> bool {
        &&& proof_bytes.len() >= MVP_PROOF_SIZE
        &&& ed25519_verifies(
            proof_bytes.subrange(64, 96),
            transfer_message_spec(nullifier, new_commitment, root),
            proof_bytes.subrange(0, 64),
        )
    }

    open spec fn unshield_accepts(
        &self,
        proof_bytes: Seq<u8>,
        nullifier: Seq<u8>,
        recipient: Seq<u8>,
        amount: u64,
        root: Seq<u8>,
    ) -> bool {
        &&& proof_bytes.len() >= MVP_PROOF_SIZE
        &&& ed25519_verifies(
            proof_bytes.subrange(64, 96),
            unshield_message_spec(nullifier, recipient, amount, root),
            proof_bytes.subrange(0, 64),
        )
    }

    fn verify_transfer(
        &self,
        proof_bytes: &Vec<u8>,
        nullifier: &[u8; 32],
        new_commitment: &[u8; 32],
        root: &[u8; 32],
    ) -> (r: bool) {
        if proof_bytes.len() < MVP_PROOF_SIZE {
            return false;
        }
        let sig = read_signature(proof_bytes);
        let pk = read_public_key(proof_bytes);
        let message = transfer_message(nullifier, new_commitment, root);
        ed25519_verify(&pk, &message, &sig)
    }

    fn verify_unshield(
        &self,
        proof_bytes: &Vec<u8>,
        nullifier: &[u8; 32],
        recipient: &[u8; 32],
        amount: u64,
        root: &[u8; 32],
    ) -> (r: bool) {
        if proof_bytes.len() < MVP_PROOF_SIZE {
            return false;
        }
        let sig = read_signature(proof_bytes);
        let pk = read_public_key(proof_bytes);
        let message = unshield_message(nullifier, recipient, amount, root);
        ed25519_verify(&pk, &message, &sig)
    }
}

/// Malformed encodings are rejected before any cryptographic check: an
/// undersized proof is never accepted by the placeholder scheme.
pub proof fn lemma_mvp_rejects_undersized(
    v: MvpVerifier,
    proof_bytes: Seq<u8>,
    nullifier: Seq<u8>,
    word: Seq<u8>,
    amount: u64,
    root: Seq<u8>,
)
    requires
        proof_bytes.len() < MVP_PROOF_SIZE,
    ensures
        !v.transfer_accepts(proof_bytes, nullifier, word, root),
        !v.unshield_accepts(proof_bytes, nullifier, word, amount, root),
{
}

} // verus!
