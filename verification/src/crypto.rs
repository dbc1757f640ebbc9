//! SHA-256 digests and Ed25519 signatures.

use vstd::prelude::*;

verus! {

/// The SHA-256 digest of a byte string.
pub uninterp spec fn sha256_of(bytes: Seq<u8>) -> Seq<u8>;

/// Whether 32 bytes are the encoding of an Ed25519 public key.
pub uninterp spec fn ed25519_key_accepted(key: Seq<u8>) -> bool;

/// Whether a signature of a message verifies under an Ed25519 public key.
pub uninterp spec fn ed25519_verifies(key: Seq<u8>, message: Seq<u8>, signature: Seq<u8>) -> bool;

/// The public key of an Ed25519 seed.
pub uninterp spec fn ed25519_public(seed: Seq<u8>) -> Seq<u8>;

/// The signature of a message under an Ed25519 seed.
pub uninterp spec fn ed25519_signature(seed: Seq<u8>, message: Seq<u8>) -> Seq<u8>;

/// The signature of a message under a seed: 64 bytes that verify under the seed's public key,
/// which is a key that is accepted.
pub open spec fn signed_by(seed: Seq<u8>, message: Seq<u8>, signature: Seq<u8>) -> bool {
    &&& signature == ed25519_signature(seed, message)
    &&& signature.len() == 64
    &&& ed25519_key_accepted(ed25519_public(seed))
    &&& ed25519_verifies(ed25519_public(seed), message, signature)
}

/// `Sha256::digest` of the `sha2` crate.
#[verifier::external_body]
pub(crate) fn sha256(bytes: &[u8]) -> (r: [u8; 32])
    ensures
        r@ == sha256_of(bytes@),
{
    <sha2::Sha256 as sha2::Digest>::digest(bytes).into()
}

/// `VerifyingKey::from_bytes` of `ed25519-dalek`: whether it accepts the bytes.
#[verifier::external_body]
pub(crate) fn accepts_key(key: &[u8; 32]) -> (r: bool)
    ensures
        r == ed25519_key_accepted(key@),
{
    ed25519_dalek::VerifyingKey::from_bytes(key).is_ok()
}

/// `VerifyingKey::verify` of `ed25519-dalek`, under a key that it accepts.
#[verifier::external_body]
pub(crate) fn verifies(key: &[u8; 32], message: &[u8], signature: &[u8; 64]) -> (r: bool)
    requires
        ed25519_key_accepted(key@),
    ensures
        r == ed25519_verifies(key@, message@, signature@),
{
    let signature = ed25519_dalek::Signature::from_bytes(signature);
    match ed25519_dalek::VerifyingKey::from_bytes(key) {
        Ok(key) => ed25519_dalek::Verifier::verify(&key, message, &signature).is_ok(),
        Err(_) => false,
    }
}

/// `SigningKey::verifying_key` of `ed25519-dalek`: it accepts its own public keys.
#[verifier::external_body]
pub(crate) fn public_key(seed: &[u8; 32]) -> (r: [u8; 32])
    ensures
        r@ == ed25519_public(seed@),
        ed25519_key_accepted(r@),
{
    ed25519_dalek::SigningKey::from_bytes(seed).verifying_key().to_bytes()
}

/// `SigningKey::sign` of `ed25519-dalek`: the signature has 64 bytes and verifies under the seed's
/// public key, which is a key that `VerifyingKey::from_bytes` accepts.
#[verifier::external_body]
pub(crate) fn sign(seed: &[u8; 32], message: &[u8]) -> (r: [u8; 64])
    ensures
        r@ == ed25519_signature(seed@, message@),
        signed_by(seed@, message@, r@),
{
    ed25519_dalek::Signer::sign(&ed25519_dalek::SigningKey::from_bytes(seed), message).to_bytes()
}

} // verus!
