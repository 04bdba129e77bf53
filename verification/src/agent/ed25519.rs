//! Ed25519 keys and signatures through `ed25519-dalek`.
//!
//! Keys and signatures are carried as bytes: a 32-byte secret, a 32-byte
//! compressed public key and a 64-byte signature.
use vstd::prelude::*;

verus! {

/// The public key that `ed25519-dalek` derives from a 32-byte secret key.
pub uninterp spec fn ed25519_public_key(secret: Seq<u8>) -> Seq<u8>;

/// The Ed25519 signature of `message` under a 32-byte secret key.
pub uninterp spec fn ed25519_signature(secret: Seq<u8>, message: Seq<u8>) -> Seq<u8>;

/// Whether 32 bytes decompress to an Edwards point (`VerifyingKey::from_bytes`).
pub uninterp spec fn ed25519_valid_public_key(key: Seq<u8>) -> bool;

/// Whether `signature` verifies for `message` under the public key `key`.
pub uninterp spec fn ed25519_verifies(key: Seq<u8>, message: Seq<u8>, signature: Seq<u8>) -> bool;

/// `SigningKey::from_bytes(secret).verifying_key().to_bytes()`: the public
/// key of a secret. A derived public key is a valid point, so
/// `VerifyingKey::from_bytes` accepts it.
#[verifier::external_body]
pub fn ed25519_derive_public(secret: &Vec<u8>) -> (r: Vec<u8>)
    requires
        secret@.len() == 32,
    ensures
        r@ == ed25519_public_key(secret@),
        r@.len() == 32,
        ed25519_valid_public_key(r@),
{
    let secret: [u8; 32] = secret.as_slice().try_into().unwrap();
    ed25519_dalek::SigningKey::from_bytes(&secret).verifying_key().to_bytes().to_vec()
}

/// `Signer::sign` of a `SigningKey` built from the secret: the 64-byte
/// signature. An Ed25519 signature verifies under the signer's public key
/// (RFC 8032).
#[verifier::external_body]
pub fn ed25519_sign(secret: &Vec<u8>, message: &[u8]) -> (r: Vec<u8>)
    requires
        secret@.len() == 32,
    ensures
        r@ == ed25519_signature(secret@, message@),
        r@.len() == 64,
        ed25519_verifies(ed25519_public_key(secret@), message@, r@),
{
    let secret: [u8; 32] = secret.as_slice().try_into().unwrap();
    let key = ed25519_dalek::SigningKey::from_bytes(&secret);
    ed25519_dalek::Signer::sign(&key, message).to_bytes().to_vec()
}

/// `VerifyingKey::from_bytes(key).is_ok()`.
#[verifier::external_body]
pub fn ed25519_key_is_valid(key: &Vec<u8>) -> (r: bool)
    requires
        key@.len() == 32,
    ensures
        r == ed25519_valid_public_key(key@),
{
    let key: [u8; 32] = key.as_slice().try_into().unwrap();
    ed25519_dalek::VerifyingKey::from_bytes(&key).is_ok()
}

/// `Verifier::verify` of the key against a message and a 64-byte signature,
/// with the outcome as a boolean.
#[verifier::external_body]
pub fn ed25519_verify(key: &Vec<u8>, message: &[u8], signature: &Vec<u8>) -> (r: bool)
    requires
        key@.len() == 32,
        signature@.len() == 64,
    ensures
        r == ed25519_verifies(key@, message@, signature@),
{
    let key: [u8; 32] = key.as_slice().try_into().unwrap();
    let signature: [u8; 64] = signature.as_slice().try_into().unwrap();
    let Ok(key) = ed25519_dalek::VerifyingKey::from_bytes(&key) else { return false };
    let signature = ed25519_dalek::Signature::from_bytes(&signature);
    ed25519_dalek::Verifier::verify(&key, message, &signature).is_ok()
}

} // verus!
