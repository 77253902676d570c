//! Single-signer ed25519 key and signature material, held as raw bytes.
//!
//! Each type's view is its raw byte encoding; the curve work itself is
//! done through the trusted wrappers in [`crate::crypto`].

use vstd::prelude::*;

use crate::bytes_util::clone_bytes;
use crate::crypto::ed25519_point_valid;
use crate::crypto::ed25519_public_key;
use crate::crypto::ed25519_public_key_of;
use crate::crypto::ed25519_sign;
use crate::crypto::ed25519_signature_of;
use crate::crypto::ed25519_validate_point;
use crate::error::AuthenticatorError;

verus! {

/// The number of bytes in an ed25519 public key.
pub const ED25519_PUBLIC_KEY_LENGTH: usize = 32;

/// The number of bytes in an ed25519 private key.
pub const ED25519_PRIVATE_KEY_LENGTH: usize = 32;

/// The number of bytes in an ed25519 signature.
pub const ED25519_SIGNATURE_LENGTH: usize = 64;

/// An ed25519 public key: the 32-byte compressed encoding of a valid
/// curve point.  Its view is that encoding.
#[derive(Debug)]
pub struct Ed25519PublicKey {
    bytes: Vec<u8>,
}

impl View for Ed25519PublicKey {
    type V = Seq<u8>;

    closed spec fn view(&self) -> Seq<u8> {
        self.bytes@
    }
}

impl Ed25519PublicKey {
    /// 32 bytes that decode to a curve point.
    pub open spec fn wf(self) -> bool {
        self@.len() == 32 && ed25519_point_valid(self@)
    }

    /// Decodes a public key from raw bytes, validating the point.
    pub fn try_from(bytes: &Vec<u8>) -> (r: Result<Self, AuthenticatorError>)
        ensures
            r is Ok <==> bytes@.len() == 32 && ed25519_point_valid(bytes@),
            r matches Ok(k) ==> k.wf() && k@ == bytes@,
            bytes@.len() != 32 ==> r == Err::<Self, _>(AuthenticatorError::InvalidKeyLength),
            bytes@.len() == 32 && !ed25519_point_valid(bytes@) ==> r == Err::<Self, _>(
                AuthenticatorError::InvalidKeyEncoding,
            ),
    {
        if bytes.len() != ED25519_PUBLIC_KEY_LENGTH {
            return Err(AuthenticatorError::InvalidKeyLength);
        }
        if !ed25519_validate_point(bytes) {
            return Err(AuthenticatorError::InvalidKeyEncoding);
        }
        Ok(Ed25519PublicKey { bytes: clone_bytes(bytes) })
    }

    /// The raw encoding of the key, as a fresh vector.
    pub fn to_bytes(&self) -> (r: Vec<u8>)
        ensures
            r@ == self@,
    {
        clone_bytes(&self.bytes)
    }

    /// A copy of the key.
    pub fn duplicate(&self) -> (r: Self)
        ensures
            r@ == self@,
            r.wf() <==> self.wf(),
    {
        Ed25519PublicKey { bytes: clone_bytes(&self.bytes) }
    }
}

/// An ed25519 private key: 32 raw bytes of secret scalar material.
/// Its view is those bytes.
#[derive(Debug)]
pub struct Ed25519PrivateKey {
    bytes: Vec<u8>,
}

impl View for Ed25519PrivateKey {
    type V = Seq<u8>;

    closed spec fn view(&self) -> Seq<u8> {
        self.bytes@
    }
}

impl Ed25519PrivateKey {
    /// A private key is exactly 32 bytes; every value is acceptable
    /// scalar material.
    pub open spec fn wf(self) -> bool {
        self@.len() == 32
    }

    /// Wraps raw bytes as a private key; only the length can be wrong.
    pub fn try_from(bytes: &Vec<u8>) -> (r: Result<Self, AuthenticatorError>)
        ensures
            r is Ok <==> bytes@.len() == 32,
            r matches Ok(k) ==> k.wf() && k@ == bytes@,
            r is Err ==> r == Err::<Self, _>(AuthenticatorError::InvalidKeyLength),
    {
        if bytes.len() != ED25519_PRIVATE_KEY_LENGTH {
            return Err(AuthenticatorError::InvalidKeyLength);
        }
        Ok(Ed25519PrivateKey { bytes: clone_bytes(bytes) })
    }

    /// The raw bytes of the key, as a fresh vector.
    pub fn to_bytes(&self) -> (r: Vec<u8>)
        ensures
            r@ == self@,
    {
        clone_bytes(&self.bytes)
    }

    /// The public key derived from this private key.
    pub fn public_key(&self) -> (r: Ed25519PublicKey)
        requires
            self.wf(),
        ensures
            r.wf(),
            r@ == ed25519_public_key_of(self@),
    {
        Ed25519PublicKey { bytes: ed25519_public_key(&self.bytes) }
    }

    /// Signs a message; ed25519 signing never fails on a well-formed key.
    pub fn sign(&self, message: &Vec<u8>) -> (r: Ed25519Signature)
        requires
            self.wf(),
        ensures
            r.wf(),
            r@ == ed25519_signature_of(self@, message@),
    {
        Ed25519Signature { bytes: ed25519_sign(&self.bytes, message) }
    }
}

/// An ed25519 signature: 64 raw bytes.  Its view is those bytes;
/// whether they check out against a key is a separate question answered
/// by verification.
#[derive(Debug)]
pub struct Ed25519Signature {
    bytes: Vec<u8>,
}

impl View for Ed25519Signature {
    type V = Seq<u8>;

    closed spec fn view(&self) -> Seq<u8> {
        self.bytes@
    }
}

impl Ed25519Signature {
    /// A signature is exactly 64 bytes.
    pub open spec fn wf(self) -> bool {
        self@.len() == 64
    }

    /// Wraps raw bytes as a signature; only the length can be wrong.
    pub fn try_from(bytes: &Vec<u8>) -> (r: Result<Self, AuthenticatorError>)
        ensures
            r is Ok <==> bytes@.len() == 64,
            r matches Ok(s) ==> s.wf() && s@ == bytes@,
            r is Err ==> r == Err::<Self, _>(AuthenticatorError::InvalidSignatureEncoding),
    {
        if bytes.len() != ED25519_SIGNATURE_LENGTH {
            return Err(AuthenticatorError::InvalidSignatureEncoding);
        }
        Ok(Ed25519Signature { bytes: clone_bytes(bytes) })
    }

    /// Wraps 64 raw bytes as a signature.
    pub fn new(bytes: Vec<u8>) -> (r: Self)
        requires
            bytes@.len() == 64,
        ensures
            r.wf(),
            r@ == bytes@,
    {
        Ed25519Signature { bytes }
    }

    /// The raw bytes of the signature, as a fresh vector.
    pub fn to_bytes(&self) -> (r: Vec<u8>)
        ensures
            r@ == self@,
    {
        clone_bytes(&self.bytes)
    }

    /// A copy of the signature.
    pub fn duplicate(&self) -> (r: Self)
        ensures
            r@ == self@,
            r.wf() <==> self.wf(),
    {
        Ed25519Signature { bytes: clone_bytes(&self.bytes) }
    }
}

} // verus!
