//! The trusted boundary to the cryptographic primitives.
//!
//! Everything else in the crate works on plain byte values; the hash and
//! curve computations themselves are done by outside crates through the
//! wrappers below.  Results that are functions of the arguments alone are
//! given uninterpreted names (`sha3_256_of`, `ed25519_public_key_of`,
//! `ed25519_signature_of`, `ed25519_verifies`, `ed25519_point_valid`), and
//! the contracts of the verified callers are stated over those names.

use vstd::prelude::*;

use ed25519_dalek::Signer;
use ed25519_dalek::Verifier;
use rand::Rng;
use sha3::Digest;

verus! {

/// The 32-byte sha3-256 digest of a byte sequence.
pub uninterp spec fn sha3_256_of(bytes: Seq<u8>) -> Seq<u8>;

/// The compressed-point encoding of the public key derived from a 32-byte
/// ed25519 secret key.
pub uninterp spec fn ed25519_public_key_of(secret: Seq<u8>) -> Seq<u8>;

/// Whether 32 bytes are the encoding of a valid ed25519 curve point.
pub uninterp spec fn ed25519_point_valid(public: Seq<u8>) -> bool;

/// The 64-byte deterministic ed25519 signature of a message under a
/// 32-byte secret key.
pub uninterp spec fn ed25519_signature_of(secret: Seq<u8>, message: Seq<u8>) -> Seq<u8>;

/// Whether a signature checks out against a public key and a message.
pub uninterp spec fn ed25519_verifies(public: Seq<u8>, message: Seq<u8>, signature: Seq<u8>) -> bool;

/// Relies on `sha3::Sha3_256::digest`: the digest is a function of the
/// input bytes alone and is always 32 bytes long.
#[verifier::external_body]
pub(crate) fn sha3_256(bytes: &Vec<u8>) -> (r: Vec<u8>)
    ensures
        r@ == sha3_256_of(bytes@),
        r@.len() == 32,
{
    sha3::Sha3_256::digest(bytes.as_slice()).to_vec()
}

/// Relies on `ed25519_dalek::SigningKey::from_bytes` (which accepts any 32
/// bytes) and `SigningKey::verifying_key`: the public key is derived from
/// the secret key alone, and its 32-byte encoding is a valid curve point.
#[verifier::external_body]
pub(crate) fn ed25519_public_key(secret: &Vec<u8>) -> (r: Vec<u8>)
    requires
        secret@.len() == 32,
    ensures
        r@ == ed25519_public_key_of(secret@),
        r@.len() == 32,
        ed25519_point_valid(r@),
{
    let mut arr = [0u8; 32];
    arr.copy_from_slice(secret.as_slice());
    let key = ed25519_dalek::SigningKey::from_bytes(&arr);
    key.verifying_key().to_bytes().to_vec()
}

/// Relies on `ed25519_dalek::VerifyingKey::from_bytes`: it returns `Ok`
/// exactly when the 32 bytes decompress to a curve point.
#[verifier::external_body]
pub(crate) fn ed25519_validate_point(public: &Vec<u8>) -> (r: bool)
    requires
        public@.len() == 32,
    ensures
        r == ed25519_point_valid(public@),
{
    let mut arr = [0u8; 32];
    arr.copy_from_slice(public.as_slice());
    ed25519_dalek::VerifyingKey::from_bytes(&arr).is_ok()
}

/// Relies on `ed25519_dalek::SigningKey`'s `Signer::sign`: ed25519 signing
/// is deterministic (RFC 8032), so the 64-byte signature is a function of
/// the secret key and the message alone.
#[verifier::external_body]
pub(crate) fn ed25519_sign(secret: &Vec<u8>, message: &Vec<u8>) -> (r: Vec<u8>)
    requires
        secret@.len() == 32,
    ensures
        r@ == ed25519_signature_of(secret@, message@),
        r@.len() == 64,
{
    let mut arr = [0u8; 32];
    arr.copy_from_slice(secret.as_slice());
    let key = ed25519_dalek::SigningKey::from_bytes(&arr);
    key.sign(message.as_slice()).to_bytes().to_vec()
}

/// Relies on `ed25519_dalek::VerifyingKey`'s `Verifier::verify`: the
/// outcome is a function of key, message and signature alone.  A public
/// key that is not a valid curve point verifies nothing.
#[verifier::external_body]
pub(crate) fn ed25519_verify(public: &Vec<u8>, message: &Vec<u8>, signature: &Vec<u8>) -> (r: bool)
    requires
        public@.len() == 32,
        signature@.len() == 64,
    ensures
        r == ed25519_verifies(public@, message@, signature@),
{
    let mut pk_arr = [0u8; 32];
    pk_arr.copy_from_slice(public.as_slice());
    let key = match ed25519_dalek::VerifyingKey::from_bytes(&pk_arr) {
        Ok(key) => key,
        Err(_) => return false,
    };
    let mut sig_arr = [0u8; 64];
    sig_arr.copy_from_slice(signature.as_slice());
    let sig = ed25519_dalek::Signature::from_bytes(&sig_arr);
    key.verify(message.as_slice(), &sig).is_ok()
}

/// Relies on `rand::rngs::OsRng` filling 32 bytes; nothing is assumed of
/// the values beyond their count.
#[verifier::external_body]
pub(crate) fn random_bytes_32() -> (r: Vec<u8>)
    ensures
        r@.len() == 32,
{
    let mut rng = rand::rngs::OsRng;
    let buf: [u8; 32] = rng.gen();
    buf.to_vec()
}

} // verus!
