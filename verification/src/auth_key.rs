//! Authentication keys: the hashing pipeline that binds a public key and
//! its scheme to an on-chain account.
//!
//! A preimage is the public key's raw bytes with one trailing scheme-id
//! byte; the authentication key is the 32-byte sha3-256 digest of the
//! preimage; the account address is the last 16 bytes of that digest.

use vstd::prelude::*;

use crate::account_address::AccountAddress;
use crate::bytes_util::clone_bytes;
use crate::bytes_util::sub_bytes;
use crate::crypto::random_bytes_32;
use crate::crypto::sha3_256;
use crate::crypto::sha3_256_of;
use crate::ed25519::Ed25519PublicKey;
use crate::error::AuthenticatorError;
use crate::hex_str::hex_decodable;
use crate::hex_str::hex_decode;
use crate::hex_str::hex_decoded;
use crate::hex_str::hex_encode;
use crate::hex_str::hex_of;
use crate::multi_ed25519::MultiEd25519PublicKey;
use crate::scheme::Scheme;

verus! {

/// The number of bytes in an authentication key.
pub const AUTHENTICATION_KEY_LENGTH: usize = 32;

/// The exact byte sequence hashed to produce an authentication key:
/// public-key bytes, then one scheme-id byte.
pub open spec fn spec_preimage_bytes(public_key_bytes: Seq<u8>, scheme: Scheme) -> Seq<u8> {
    public_key_bytes + seq![scheme.spec_id()]
}

/// A value that can be hashed to produce an authentication key.
/// Its view is its raw bytes.
#[derive(Debug)]
pub struct AuthenticationKeyPreimage {
    bytes: Vec<u8>,
}

impl View for AuthenticationKeyPreimage {
    type V = Seq<u8>;

    closed spec fn view(&self) -> Seq<u8> {
        self.bytes@
    }
}

impl AuthenticationKeyPreimage {
    /// Builds the preimage for raw public-key bytes under a scheme: the
    /// key bytes with the scheme id appended.  The ordering is a
    /// bit-exact wire contract.
    pub fn new(public_key_bytes: Vec<u8>, scheme: Scheme) -> (r: Self)
        ensures
            r@ == spec_preimage_bytes(public_key_bytes@, scheme),
    {
        let mut bytes = public_key_bytes;
        bytes.push(scheme.id());
        AuthenticationKeyPreimage { bytes }
    }

    /// The preimage of a single-signer ed25519 public key.
    pub fn ed25519(public_key: &Ed25519PublicKey) -> (r: Self)
        ensures
            r@ == spec_preimage_bytes(public_key@, Scheme::Ed25519),
    {
        Self::new(public_key.to_bytes(), Scheme::Ed25519)
    }

    /// The preimage of a threshold multi-signer public key.
    pub fn multi_ed25519(public_key: &MultiEd25519PublicKey) -> (r: Self)
        ensures
            r@ == spec_preimage_bytes(public_key@.to_bytes(), Scheme::MultiEd25519),
    {
        Self::new(public_key.to_bytes(), Scheme::MultiEd25519)
    }

    /// The raw bytes of the preimage.
    pub fn into_vec(self) -> (r: Vec<u8>)
        ensures
            r@ == self@,
    {
        self.bytes
    }

    /// The raw bytes of the preimage, without consuming it.
    pub fn as_bytes(&self) -> (r: Vec<u8>)
        ensures
            r@ == self@,
    {
        clone_bytes(&self.bytes)
    }
}

/// A 32-byte account authentication key: the sha3-256 digest of a
/// preimage.  Its view is the digest's bytes.
#[derive(Debug)]
pub struct AuthenticationKey {
    bytes: Vec<u8>,
}

impl View for AuthenticationKey {
    type V = Seq<u8>;

    closed spec fn view(&self) -> Seq<u8> {
        self.bytes@
    }
}

impl AuthenticationKey {
    /// An authentication key is exactly 32 bytes.
    pub open spec fn wf(self) -> bool {
        self@.len() == 32
    }

    /// Wraps 32 raw bytes as an authentication key.
    pub fn new(bytes: Vec<u8>) -> (r: Self)
        requires
            bytes@.len() == 32,
        ensures
            r@ == bytes@,
            r.wf(),
    {
        AuthenticationKey { bytes }
    }

    /// Hashes a preimage into an authentication key.  The digest is
    /// stored verbatim: not re-hashed, not truncated.
    pub fn from_preimage(preimage: &AuthenticationKeyPreimage) -> (r: Self)
        ensures
            r@ == sha3_256_of(preimage@),
            r.wf(),
    {
        AuthenticationKey { bytes: sha3_256(&preimage.as_bytes()) }
    }

    /// The authentication key of a single-signer ed25519 public key.
    pub fn ed25519(public_key: &Ed25519PublicKey) -> (r: Self)
        ensures
            r@ == sha3_256_of(spec_preimage_bytes(public_key@, Scheme::Ed25519)),
            r.wf(),
    {
        Self::from_preimage(&AuthenticationKeyPreimage::ed25519(public_key))
    }

    /// The authentication key of a threshold multi-signer public key.
    pub fn multi_ed25519(public_key: &MultiEd25519PublicKey) -> (r: Self)
        ensures
            r@ == sha3_256_of(spec_preimage_bytes(public_key@.to_bytes(), Scheme::MultiEd25519)),
            r.wf(),
    {
        Self::from_preimage(&AuthenticationKeyPreimage::multi_ed25519(public_key))
    }

    /// The address derived from this key: its last 16 bytes.
    pub fn derived_address(&self) -> (r: AccountAddress)
        requires
            self.wf(),
        ensures
            r.wf(),
            r@ == self@.subrange(16, 32),
    {
        AccountAddress::new(sub_bytes(&self.bytes, 16, 32))
    }

    /// The first 16 bytes of this key, used elsewhere as a
    /// key-rotation prefix.
    pub fn prefix(&self) -> (r: Vec<u8>)
        requires
            self.wf(),
        ensures
            r@ == self@.subrange(0, 16),
    {
        sub_bytes(&self.bytes, 0, 16)
    }

    /// The raw bytes of the key, as a fresh vector.
    pub fn to_vec(&self) -> (r: Vec<u8>)
        ensures
            r@ == self@,
    {
        clone_bytes(&self.bytes)
    }

    /// The raw bytes of the key, under the name the serialization
    /// surface uses.
    pub fn to_bytes(&self) -> (r: Vec<u8>)
        ensures
            r@ == self@,
    {
        self.to_vec()
    }

    /// A random authentication key, for testing flows that need one.
    pub fn random() -> (r: Self)
        ensures
            r.wf(),
    {
        AuthenticationKey { bytes: random_bytes_32() }
    }

    /// Wraps raw bytes as an authentication key; only 32 bytes are
    /// accepted.
    pub fn try_from(bytes: &Vec<u8>) -> (r: Result<Self, AuthenticatorError>)
        ensures
            r is Ok <==> bytes@.len() == 32,
            r matches Ok(k) ==> k.wf() && k@ == bytes@,
            r is Err ==> r == Err::<Self, _>(AuthenticatorError::InvalidKeyLength),
    {
        if bytes.len() != AUTHENTICATION_KEY_LENGTH {
            return Err(AuthenticatorError::InvalidKeyLength);
        }
        Ok(AuthenticationKey { bytes: clone_bytes(bytes) })
    }

    /// The hex digits a textual key must decode to, after an optional
    /// `0x` prefix is removed.
    pub open spec fn spec_strip_hex_prefix(s: Seq<char>) -> Seq<char> {
        if s.len() >= 2 && s[0] == '0' && s[1] == 'x' {
            s.subrange(2, s.len() as int)
        } else {
            s
        }
    }

    /// Parses a textual authentication key: hex, optionally prefixed
    /// with `0x`.  The empty string is `EmptyInput`; anything else that
    /// is not hex for exactly 32 bytes is `MalformedEncoding`.
    pub fn from_str(s: &str) -> (r: Result<Self, AuthenticatorError>)
        ensures
            s@.len() == 0 ==> r == Err::<Self, _>(AuthenticatorError::EmptyInput),
            s@.len() > 0 ==> {
                let digits = Self::spec_strip_hex_prefix(s@);
                &&& (r is Ok <==> hex_decodable(digits) && hex_decoded(digits).len() == 32)
                &&& (r matches Ok(k) ==> k.wf() && k@ == hex_decoded(digits))
                &&& (r is Err ==> r == Err::<Self, _>(AuthenticatorError::MalformedEncoding))
            },
    {
        let n = s.unicode_len();
        if n == 0 {
            return Err(AuthenticatorError::EmptyInput);
        }
        let digits: &str = if n >= 2 && s.get_char(0) == '0' && s.get_char(1) == 'x' {
            s.substring_char(2, n)
        } else {
            s
        };
        match hex_decode(digits) {
            None => Err(AuthenticatorError::MalformedEncoding),
            Some(bytes) => {
                if bytes.len() != 32 {
                    Err(AuthenticatorError::MalformedEncoding)
                } else {
                    Ok(AuthenticationKey { bytes })
                }
            },
        }
    }

    /// The lowercase hex encoding of the key.
    pub fn hex_string(&self) -> (r: String)
        ensures
            r@ == hex_of(self@),
    {
        hex_encode(&self.bytes)
    }

    /// The usual printable form of the key: `0x` followed by its hex
    /// encoding.
    pub fn display_string(&self) -> (r: String)
        ensures
            r@ == "0x"@ + hex_of(self@),
    {
        let prefix = String::from_str("0x");
        let digits = self.hex_string();
        prefix.concat(digits.as_str())
    }
}

} // verus!
