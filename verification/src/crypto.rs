//! Hashing and Ed25519 signatures.
//!
//! The primitives themselves are computed by `blake2-rfc` and
//! `ed25519-dalek`. What they compute is named here and never spelled out;
//! the rest of the crate reasons about the names.

use vstd::prelude::*;
use crate::primitives::{self, AuthorityId, Signature};

verus! {

/// The BLAKE2b digest of `data`, 32 bytes long and unkeyed.
pub uninterp spec fn blake2_256(data: Seq<u8>) -> Seq<u8>;

/// The Ed25519 public key that belongs to the secret key `seed`.
pub uninterp spec fn ed25519_public_key(seed: Seq<u8>) -> Seq<u8>;

/// The Ed25519 signature of `message` under the secret key `seed`.
pub uninterp spec fn ed25519_signature(seed: Seq<u8>, message: Seq<u8>) -> Seq<u8>;

/// Whether `signature` is accepted as a signature of `message` by the holder
/// of the public key `public`.
pub uninterp spec fn ed25519_verifies(public: Seq<u8>, message: Seq<u8>, signature: Seq<u8>) -> bool;

/// Calls `blake2_rfc::blake2b::blake2b` for a 32-byte digest without a key.
/// The result is taken to be a function of the input alone; nothing else is
/// claimed of it.
#[verifier::external_body]
fn blake2_256_raw(data: &[u8]) -> (digest: [u8; 32])
    ensures
        digest@ == blake2_256(data@),
{
    let mut digest = [0u8; 32];
    digest.copy_from_slice(blake2_rfc::blake2b::blake2b(32, &[], data).as_bytes());
    digest
}

/// Calls `ed25519_dalek::SigningKey::verifying_key` on the key made from
/// `seed`. The bytes of the public key are taken to be a function of the seed
/// alone.
#[verifier::external_body]
fn ed25519_public_raw(seed: &[u8; 32]) -> (public: [u8; 32])
    ensures
        public@ == ed25519_public_key(seed@),
{
    ed25519_dalek::SigningKey::from_bytes(seed).verifying_key().to_bytes()
}

/// Calls `ed25519_dalek::Signer::sign` with the key made from `seed`.
/// Ed25519 signing draws no randomness, so the signature is taken to be a
/// function of seed and message. It is also taken to be one that
/// `ed25519_dalek::Verifier::verify` accepts for the same message under the
/// seed's public key, which is what the signature scheme is for.
#[verifier::external_body]
fn ed25519_sign_raw(seed: &[u8; 32], message: &[u8]) -> (signature: [u8; 64])
    ensures
        signature@ == ed25519_signature(seed@, message@),
        ed25519_verifies(ed25519_public_key(seed@), message@, signature@),
{
    ed25519_dalek::Signer::sign(&ed25519_dalek::SigningKey::from_bytes(seed), message).to_bytes()
}

/// Calls `ed25519_dalek::Verifier::verify` with the key made from `public`.
/// Bytes that are no public key verify nothing. The answer is taken to be a
/// function of key, message and signature.
#[verifier::external_body]
fn ed25519_verify_raw(public: &[u8; 32], message: &[u8], signature: &[u8; 64]) -> (valid: bool)
    ensures
        valid == ed25519_verifies(public@, message@, signature@),
{
    match ed25519_dalek::VerifyingKey::from_bytes(public) {
        Ok(key) => ed25519_dalek::Verifier::verify(
            &key,
            message,
            &ed25519::Signature::from_bytes(signature),
        ).is_ok(),
        Err(_) => false,
    }
}

/// Hashes `data` to 32 bytes.
pub fn hash_of(data: &[u8]) -> (hash: primitives::Hash)
    ensures
        hash@ == blake2_256(data@),
{
    primitives::Hash(blake2_256_raw(data))
}

/// Checks `signature` on `message` against the public key `signer`.
pub fn verify(signer: &AuthorityId, message: &[u8], signature: &Signature) -> (valid: bool)
    ensures
        valid == ed25519_verifies(signer@, message@, signature@),
{
    ed25519_verify_raw(&signer.0, message, &signature.0)
}

/// An Ed25519 key pair: the secret seed and the public key that belongs to it.
#[derive(Clone, Copy)]
pub struct Pair {
    seed: [u8; 32],
    public: AuthorityId,
}

impl Pair {
    #[verifier::type_invariant]
    spec fn well_formed(self) -> bool {
        self.public@ == ed25519_public_key(self.seed@)
    }

    /// The secret seed of the pair.
    pub closed spec fn seed(self) -> Seq<u8> {
        self.seed@
    }

    /// The public key of the pair.
    pub closed spec fn public_id(self) -> AuthorityId {
        self.public
    }

    /// Makes the pair of the given secret seed.
    pub fn from_seed(seed: &[u8; 32]) -> (pair: Pair)
        ensures
            pair.seed() == seed@,
            pair.public_id()@ == ed25519_public_key(seed@),
    {
        Pair { seed: *seed, public: AuthorityId(ed25519_public_raw(seed)) }
    }

    /// The public key of the pair.
    pub fn public(&self) -> (id: AuthorityId)
        ensures
            id == self.public_id(),
            id@ == ed25519_public_key(self.seed()),
    {
        proof {
            use_type_invariant(self);
        }
        self.public
    }

    /// Signs `message`. The pair's own public key verifies the signature.
    pub fn sign(&self, message: &[u8]) -> (signature: Signature)
        ensures
            signature@ == ed25519_signature(self.seed(), message@),
            ed25519_verifies(self.public_id()@, message@, signature@),
    {
        proof {
            use_type_invariant(self);
        }
        Signature(ed25519_sign_raw(&self.seed, message))
    }
}

} // verus!
