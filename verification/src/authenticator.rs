//! The polymorphic account key, signature and authenticator types: one
//! variant per authentication scheme.
//!
//! `AccountPublicKey` and `AccountPrivateKey` cover a signer's
//! verification and signing material; `AccountSignature` is a produced
//! signature, possibly a partial threshold shard; and
//! `TransactionAuthenticator` is the complete bundle embedded in a
//! signed transaction.  Promoting a threshold shard into an
//! authenticator goes only through [`AccountSignature::build_transaction`],
//! which refuses shards below quorum.

use vstd::prelude::*;

use crate::account_address::AccountAddress;
use crate::auth_key::spec_preimage_bytes;
use crate::auth_key::AuthenticationKey;
use crate::auth_key::AuthenticationKeyPreimage;
use crate::bytes_util::spec_concat_bytes;
use crate::bytes_util::extend_bytes;
use crate::bytes_util::sub_bytes;
use crate::crypto::ed25519_point_valid;
use crate::crypto::ed25519_public_key_of;
use crate::crypto::ed25519_signature_of;
use crate::crypto::ed25519_verifies;
use crate::crypto::ed25519_verify;
use crate::crypto::sha3_256_of;
use crate::ed25519::Ed25519PrivateKey;
use crate::ed25519::ED25519_PRIVATE_KEY_LENGTH;
use crate::ed25519::ED25519_PUBLIC_KEY_LENGTH;
use crate::ed25519::ED25519_SIGNATURE_LENGTH;
use crate::ed25519::Ed25519PublicKey;
use crate::ed25519::Ed25519Signature;
use crate::error::AuthenticatorError;
use crate::multi_ed25519::multi_key_shard_decodable;
use crate::multi_ed25519::multi_public_key_decodable;
use crate::multi_ed25519::multi_signature_decodable;
use crate::multi_ed25519::MultiEd25519KeyShard;
use crate::multi_ed25519::MultiEd25519PublicKey;
use crate::multi_ed25519::MultiEd25519Signature;
use crate::multi_ed25519::MultiEd25519SignatureShard;
use crate::multi_ed25519::MultiPublicKeyModel;
use crate::multi_ed25519::MultiSignatureModel;
use crate::scheme::Scheme;
use crate::transaction::RawUserTransaction;
use crate::transaction::SignedUserTransaction;

verus! {

/// Whether every recorded contribution of a partial threshold
/// signature checks out: each position exists in the key, and its
/// signature verifies against that position's key.
pub open spec fn spec_multi_entries_verify(
    pk: MultiPublicKeyModel,
    sig: MultiSignatureModel,
    message: Seq<u8>,
) -> bool {
    &&& forall|i: int|
        0 <= i < sig.entries.len() ==> ((#[trigger] sig.entries[i]).0 as int) < pk.keys.len()
    &&& forall|i: int|
        0 <= i < sig.entries.len() ==> ed25519_verifies(
            pk.keys[(#[trigger] sig.entries[i]).0 as int],
            message,
            sig.entries[i].1,
        )
}

/// Whether a complete threshold signature authorizes a message: every
/// contribution checks out and the key's quorum is met.
pub open spec fn spec_multi_signature_authorizes(
    pk: MultiPublicKeyModel,
    sig: MultiSignatureModel,
    message: Seq<u8>,
) -> bool {
    spec_multi_entries_verify(pk, sig, message) && sig.entries.len() >= pk.threshold as int
}

/// A signer's verification material: a single key or a threshold
/// multi key.
#[derive(Debug)]
pub enum AccountPublicKey {
    Single(Ed25519PublicKey),
    Multi(MultiEd25519PublicKey),
}

/// Whether raw bytes decode to an account public key: key-sized bytes
/// decode as a single key, anything else must be a multi key.
pub open spec fn account_public_key_decodable(b: Seq<u8>) -> bool {
    if b.len() == 32 {
        ed25519_point_valid(b)
    } else {
        multi_public_key_decodable(b)
    }
}

impl AccountPublicKey {
    /// Each variant carries well-formed key material.
    pub open spec fn wf(self) -> bool {
        match self {
            AccountPublicKey::Single(k) => k.wf(),
            AccountPublicKey::Multi(k) => k.wf(),
        }
    }

    /// The raw byte encoding of the key: a single key's natural
    /// encoding, or a multi key's wire form.
    pub open spec fn spec_to_bytes(self) -> Seq<u8> {
        match self {
            AccountPublicKey::Single(k) => k@,
            AccountPublicKey::Multi(k) => k@.to_bytes(),
        }
    }

    /// The scheme the key belongs to.
    pub open spec fn spec_scheme(self) -> Scheme {
        match self {
            AccountPublicKey::Single(_) => Scheme::Ed25519,
            AccountPublicKey::Multi(_) => Scheme::MultiEd25519,
        }
    }

    /// Wraps a single-signer key.
    pub fn single(key: Ed25519PublicKey) -> (r: Self)
        ensures
            r == AccountPublicKey::Single(key),
    {
        AccountPublicKey::Single(key)
    }

    /// Wraps a threshold multi key.
    pub fn multi(key: MultiEd25519PublicKey) -> (r: Self)
        ensures
            r == AccountPublicKey::Multi(key),
    {
        AccountPublicKey::Multi(key)
    }

    /// The scheme the key belongs to.
    pub fn scheme(&self) -> (r: Scheme)
        ensures
            r == self.spec_scheme(),
    {
        match self {
            AccountPublicKey::Single(_) => Scheme::Ed25519,
            AccountPublicKey::Multi(_) => Scheme::MultiEd25519,
        }
    }

    /// The raw bytes of the key.
    pub fn public_key_bytes(&self) -> (r: Vec<u8>)
        ensures
            r@ == self.spec_to_bytes(),
    {
        match self {
            AccountPublicKey::Single(k) => k.to_bytes(),
            AccountPublicKey::Multi(k) => k.to_bytes(),
        }
    }

    /// The raw bytes of the key, under the name the serialization
    /// surface uses.
    pub fn to_bytes(&self) -> (r: Vec<u8>)
        ensures
            r@ == self.spec_to_bytes(),
    {
        self.public_key_bytes()
    }

    /// The authentication-key preimage of this key: its raw bytes with
    /// its scheme byte appended.
    pub fn authentication_key_preimage(&self) -> (r: AuthenticationKeyPreimage)
        ensures
            r@ == spec_preimage_bytes(self.spec_to_bytes(), self.spec_scheme()),
    {
        AuthenticationKeyPreimage::new(self.public_key_bytes(), self.scheme())
    }

    /// The authentication key of this key: always 32 bytes of sha3-256
    /// digest over the preimage.
    pub fn authentication_key(&self) -> (r: AuthenticationKey)
        ensures
            r@ == sha3_256_of(spec_preimage_bytes(self.spec_to_bytes(), self.spec_scheme())),
            r@.len() == 32,
            r.wf(),
    {
        AuthenticationKey::from_preimage(&self.authentication_key_preimage())
    }

    /// The on-chain address this key controls: always 16 bytes, the
    /// tail of the authentication key.
    pub fn derived_address(&self) -> (r: AccountAddress)
        ensures
            r@ == sha3_256_of(
                spec_preimage_bytes(self.spec_to_bytes(), self.spec_scheme()),
            ).subrange(16, 32),
            r@.len() == 16,
            r.wf(),
    {
        self.authentication_key().derived_address()
    }

    /// The single key, if this is the single-signer variant.
    pub fn as_single(&self) -> (r: Option<Ed25519PublicKey>)
        ensures
            self matches AccountPublicKey::Single(k) ==> r matches Some(s) && s@ == k@,
            self matches AccountPublicKey::Multi(_) ==> r is None,
    {
        match self {
            AccountPublicKey::Single(k) => Some(k.duplicate()),
            AccountPublicKey::Multi(_) => None,
        }
    }

    /// The multi key, if this is the threshold variant.
    pub fn as_multi(&self) -> (r: Option<MultiEd25519PublicKey>)
        ensures
            self matches AccountPublicKey::Multi(k) ==> r matches Some(m) && m@ == k@,
            self matches AccountPublicKey::Single(_) ==> r is None,
    {
        match self {
            AccountPublicKey::Single(_) => None,
            AccountPublicKey::Multi(k) => Some(k.duplicate()),
        }
    }

    /// Decodes an account public key from raw bytes: exactly 32 bytes
    /// are a single key, anything else is tried as a multi key.  This
    /// length dispatch is a wire-compatibility constraint.
    pub fn try_from(bytes: &Vec<u8>) -> (r: Result<Self, AuthenticatorError>)
        ensures
            r is Ok <==> account_public_key_decodable(bytes@),
            r matches Ok(k) ==> k.wf() && k.spec_to_bytes() == bytes@,
            r matches Ok(k) ==> (k is Single <==> bytes@.len() == 32),
            r is Err ==> (r == Err::<Self, _>(AuthenticatorError::InvalidKeyLength) || r
                == Err::<Self, _>(AuthenticatorError::InvalidKeyEncoding)),
    {
        if bytes.len() == ED25519_PUBLIC_KEY_LENGTH {
            match Ed25519PublicKey::try_from(bytes) {
                Ok(k) => Ok(AccountPublicKey::Single(k)),
                Err(e) => Err(e),
            }
        } else {
            match MultiEd25519PublicKey::try_from(bytes) {
                Ok(k) => {
                    proof {
                        assert(k@.to_bytes().len() == bytes@.len());
                    }
                    Ok(AccountPublicKey::Multi(k))
                },
                Err(e) => Err(e),
            }
        }
    }
}

/// A signer's signing material: a single private key or one signer's
/// shard of a threshold account's keys.
#[derive(Debug)]
pub enum AccountPrivateKey {
    Single(Ed25519PrivateKey),
    Multi(MultiEd25519KeyShard),
}

impl AccountPrivateKey {
    /// Each variant carries well-formed key material.
    pub open spec fn wf(self) -> bool {
        match self {
            AccountPrivateKey::Single(k) => k.wf(),
            AccountPrivateKey::Multi(k) => k.wf(),
        }
    }

    /// Wraps a single-signer private key.
    pub fn single(key: Ed25519PrivateKey) -> (r: Self)
        ensures
            r == AccountPrivateKey::Single(key),
    {
        AccountPrivateKey::Single(key)
    }

    /// Wraps a threshold key shard.
    pub fn multi(key: MultiEd25519KeyShard) -> (r: Self)
        ensures
            r == AccountPrivateKey::Multi(key),
    {
        AccountPrivateKey::Multi(key)
    }

    /// The verification material corresponding to this signing
    /// material, derived without signing anything.
    pub fn public_key(&self) -> (r: AccountPublicKey)
        requires
            self.wf(),
        ensures
            r.wf(),
            self matches AccountPrivateKey::Single(k) ==> r matches AccountPublicKey::Single(p)
                && p@ == ed25519_public_key_of(k@),
            self matches AccountPrivateKey::Multi(k) ==> r matches AccountPublicKey::Multi(p)
                && p@ == k@.public_key_model(),
    {
        match self {
            AccountPrivateKey::Single(k) => AccountPublicKey::Single(k.public_key()),
            AccountPrivateKey::Multi(k) => AccountPublicKey::Multi(k.public_key()),
        }
    }

    /// Signs a message.  A single key yields a complete single
    /// signature; a key shard yields a threshold shard recording this
    /// signer's positions, which may or may not meet quorum.  Signing
    /// never fails on well-formed keys.
    pub fn sign(&self, message: &Vec<u8>) -> (r: AccountSignature)
        requires
            self.wf(),
        ensures
            r.wf(),
            self matches AccountPrivateKey::Single(k) ==> r matches AccountSignature::Single(
                p,
                s,
            ) && p@ == ed25519_public_key_of(k@) && s@ == ed25519_signature_of(k@, message@),
            self matches AccountPrivateKey::Multi(k) ==> r matches AccountSignature::Multi(p, s)
                && p@ == k@.public_key_model() && s@.threshold == k@.threshold
                && s@.signature.entries.len() == k@.private_keys.len() && (forall|i: int|
                0 <= i < k@.private_keys.len() ==> #[trigger] s@.signature.entries[i] == (
                k@.private_keys[i].0,
                ed25519_signature_of(k@.private_keys[i].1, message@),
                )),
    {
        match self {
            AccountPrivateKey::Single(k) => AccountSignature::Single(k.public_key(), k.sign(message)),
            AccountPrivateKey::Multi(k) => AccountSignature::Multi(k.public_key(), k.sign(message)),
        }
    }

    /// Signs a message handed over as an owned buffer.
    pub fn sign_message(&self, message: Vec<u8>) -> (r: AccountSignature)
        requires
            self.wf(),
        ensures
            r.wf(),
    {
        self.sign(&message)
    }

    /// The raw byte encoding of the signing material: a single key's
    /// 32 bytes, or a shard's local-custody serialization.
    pub open spec fn spec_to_bytes(self) -> Seq<u8> {
        match self {
            AccountPrivateKey::Single(k) => k@,
            AccountPrivateKey::Multi(s) => s@.to_bytes(),
        }
    }

    /// Serializes the signing material for local custody.
    pub fn to_bytes(&self) -> (r: Vec<u8>)
        requires
            self.wf(),
        ensures
            r@ == self.spec_to_bytes(),
    {
        match self {
            AccountPrivateKey::Single(k) => k.to_bytes(),
            AccountPrivateKey::Multi(s) => s.to_bytes(),
        }
    }

    /// Decodes signing material: exactly 32 bytes are a single
    /// private key, anything else is tried as a key shard.
    pub fn try_from(bytes: &Vec<u8>) -> (r: Result<Self, AuthenticatorError>)
        ensures
            r is Ok <==> account_private_key_decodable(bytes@),
            r matches Ok(k) ==> k.wf() && k.spec_to_bytes() == bytes@,
            r matches Ok(k) ==> (k is Single <==> bytes@.len() == 32),
            r is Err ==> (r == Err::<Self, _>(AuthenticatorError::InvalidKeyLength) || r
                == Err::<Self, _>(AuthenticatorError::InvalidKeyEncoding)),
    {
        if bytes.len() == ED25519_PRIVATE_KEY_LENGTH {
            match Ed25519PrivateKey::try_from(bytes) {
                Ok(k) => Ok(AccountPrivateKey::Single(k)),
                Err(e) => Err(e),
            }
        } else {
            match MultiEd25519KeyShard::try_from(bytes) {
                Ok(s) => {
                    proof {
                        assert(s@.to_bytes().len() == bytes@.len());
                    }
                    Ok(AccountPrivateKey::Multi(s))
                },
                Err(e) => Err(e),
            }
        }
    }
}

/// Whether raw bytes decode to account signing material: exactly 32
/// bytes are a single private key, anything else must be a key shard.
pub open spec fn account_private_key_decodable(b: Seq<u8>) -> bool {
    if b.len() == 32 {
        true
    } else {
        multi_key_shard_decodable(b)
    }
}

/// Whether two account signatures are shards of the same collection:
/// both threshold shards, for the same public key, against the same
/// threshold.
pub open spec fn spec_mergeable(a: AccountSignature, b: AccountSignature) -> bool {
    match (a, b) {
        (AccountSignature::Multi(k1, s1), AccountSignature::Multi(k2, s2)) => k1@ == k2@
            && s1@.threshold == s2@.threshold,
        _ => false,
    }
}

/// What a merged shard holds: the same key and threshold, one entry
/// per position either side signed, never counting a position twice.
pub open spec fn spec_is_merge_of(m: AccountSignature, a: AccountSignature, b: AccountSignature) -> bool {
    match (m, a, b) {
        (
            AccountSignature::Multi(mk, ms),
            AccountSignature::Multi(k1, s1),
            AccountSignature::Multi(k2, s2),
        ) => {
            &&& mk@ == k1@
            &&& mk@ == k2@
            &&& ms@.threshold == s1@.threshold
            &&& ms@.signature.position_set() == s1@.signature.position_set().union(
                s2@.signature.position_set(),
            )
            &&& ms@.signature.entries.len() == ms@.signature.position_set().len()
            &&& forall|i: int|
                0 <= i < ms@.signature.entries.len() ==> (s1@.signature.entries.contains(
                    #[trigger] ms@.signature.entries[i],
                ) || s2@.signature.entries.contains(ms@.signature.entries[i]))
        },
        _ => false,
    }
}

/// A produced signature: a complete single signature, or a threshold
/// shard that is complete exactly when its contributions meet the
/// quorum.
#[derive(Debug)]
pub enum AccountSignature {
    Single(Ed25519PublicKey, Ed25519Signature),
    Multi(MultiEd25519PublicKey, MultiEd25519SignatureShard),
}

/// Whether raw bytes decode to an account signature: exactly one
/// single-signature frame (32-byte key plus 64-byte signature), or the
/// multi form, whose key count is recovered from the total length and
/// whose last byte is the shard threshold.
pub open spec fn account_signature_decodable(b: Seq<u8>) -> bool {
    if b.len() == 96 {
        ed25519_point_valid(b.subrange(0, 32))
    } else {
        &&& b.len() >= 6
        &&& {
            let key_len = ((b.len() - 6) / 96) * 32 + 1;
            &&& key_len + 1 <= b.len()
            &&& multi_public_key_decodable(b.subrange(0, key_len))
            &&& multi_signature_decodable(b.subrange(key_len, b.len() - 1))
        }
    }
}

impl AccountSignature {
    /// Each variant carries well-formed material.
    pub open spec fn wf(self) -> bool {
        match self {
            AccountSignature::Single(k, s) => k.wf() && s.wf(),
            AccountSignature::Multi(k, s) => k.wf() && s.wf(),
        }
    }

    /// The raw byte encoding: the public key's bytes followed by the
    /// signature's bytes (for a shard, including its threshold byte).
    pub open spec fn spec_to_bytes(self) -> Seq<u8> {
        match self {
            AccountSignature::Single(k, s) => k@ + s@,
            AccountSignature::Multi(k, s) => k@.to_bytes() + s@.to_bytes(),
        }
    }

    /// Whether this signature may be promoted into an authenticator: a
    /// single signature always, a shard only at quorum.
    pub open spec fn spec_is_complete(self) -> bool {
        match self {
            AccountSignature::Single(_, _) => true,
            AccountSignature::Multi(_, s) => s@.is_complete(),
        }
    }

    /// Whether this signature checks out against its own public key
    /// for a message.  A shard is checked entry by entry; quorum is
    /// not asked here.
    pub open spec fn spec_verifies(self, message: Seq<u8>) -> bool {
        match self {
            AccountSignature::Single(k, s) => ed25519_verifies(k@, message, s@),
            AccountSignature::Multi(k, s) => spec_multi_entries_verify(k@, s@.signature, message),
        }
    }

    /// The raw byte encoding of the signature.
    pub fn to_bytes(&self) -> (r: Vec<u8>)
        requires
            self.wf(),
        ensures
            r@ == self.spec_to_bytes(),
    {
        match self {
            AccountSignature::Single(k, s) => {
                let mut bytes = k.to_bytes();
                let sig = s.to_bytes();
                extend_bytes(&mut bytes, &sig);
                bytes
            },
            AccountSignature::Multi(k, s) => {
                let mut bytes = k.to_bytes();
                let sig = s.to_bytes();
                extend_bytes(&mut bytes, &sig);
                bytes
            },
        }
    }

    /// Decodes an account signature.  A 96-byte string is the single
    /// frame; anything else is read as the multi form: the key count
    /// is solved from the total length against the fixed per-key and
    /// per-signature sizes, and the trailing byte is the shard
    /// threshold.  (The trailing byte is read at the last index; an
    /// index equal to the length would be out of bounds.)
    pub fn try_from(bytes: &Vec<u8>) -> (r: Result<Self, AuthenticatorError>)
        ensures
            r is Ok <==> account_signature_decodable(bytes@),
            r matches Ok(s) ==> s.wf() && s.spec_to_bytes() == bytes@,
            r matches Ok(s) ==> (s is Single <==> bytes@.len() == 96),
            r is Err ==> (r == Err::<Self, _>(AuthenticatorError::InvalidKeyLength) || r
                == Err::<Self, _>(AuthenticatorError::InvalidKeyEncoding) || r == Err::<Self, _>(
                AuthenticatorError::InvalidSignatureEncoding,
            )),
    {
        let n = bytes.len();
        if n == ED25519_PUBLIC_KEY_LENGTH + ED25519_SIGNATURE_LENGTH {
            let pk_bytes = sub_bytes(bytes, 0, 32);
            let sig_bytes = sub_bytes(bytes, 32, 96);
            let pk = match Ed25519PublicKey::try_from(&pk_bytes) {
                Ok(pk) => pk,
                Err(e) => {
                    return Err(e);
                },
            };
            let sig = Ed25519Signature::new(sig_bytes);
            let r = AccountSignature::Single(pk, sig);
            proof {
                assert(r.spec_to_bytes() =~= bytes@);
            }
            Ok(r)
        } else {
            if n < 6 {
                return Err(AuthenticatorError::InvalidSignatureEncoding);
            }
            let key_size = (n - 6) / 96;
            proof {
                vstd::arithmetic::div_mod::lemma_fundamental_div_mod((bytes@.len() - 6) as int, 96);
                assert(32 * ((bytes@.len() - 6) / 96) <= 96 * ((bytes@.len() - 6) / 96))
                    by (nonlinear_arith)
                    requires
                        (bytes@.len() - 6) / 96 >= 0,
                ;
            }
            let key_len = key_size * 32 + 1;
            let mpk = match MultiEd25519PublicKey::try_from(&sub_bytes(bytes, 0, key_len)) {
                Ok(mpk) => mpk,
                Err(e) => {
                    return Err(e);
                },
            };
            let msig = match MultiEd25519Signature::try_from(&sub_bytes(bytes, key_len, n - 1)) {
                Ok(msig) => msig,
                Err(e) => {
                    return Err(e);
                },
            };
            let threshold = bytes[n - 1];
            let shard = MultiEd25519SignatureShard::new(msig, threshold);
            let r = AccountSignature::Multi(mpk, shard);
            proof {
                assert(r.spec_to_bytes() =~= bytes@);
            }
            Ok(r)
        }
    }

    /// Promotes this signature into a fully signed transaction.  A
    /// single signature always succeeds.  A threshold shard succeeds
    /// exactly at quorum, and this is the only path from a shard to a
    /// `TransactionAuthenticator`; below quorum the caller receives
    /// `InsufficientSignatures` with the current and required counts
    /// and is expected to merge in more contributions and retry.
    pub fn build_transaction(self, raw_txn: RawUserTransaction) -> (r: Result<
        SignedUserTransaction,
        AuthenticatorError,
    >)
        ensures
            r is Ok <==> self.spec_is_complete(),
            self matches AccountSignature::Single(k, s) ==> {
                &&& r matches Ok(st)
                &&& st.spec_raw_txn() == raw_txn@
                &&& st.spec_authenticator() == (TransactionAuthenticator::Ed25519 {
                    public_key: k,
                    signature: s,
                })
            },
            self matches AccountSignature::Multi(k, s) ==> {
                &&& (s@.is_complete() ==> {
                    &&& r matches Ok(st)
                    &&& st.spec_raw_txn() == raw_txn@
                    &&& st.spec_authenticator() matches TransactionAuthenticator::MultiEd25519 {
                        public_key,
                        signature,
                    }
                    &&& public_key == k
                    &&& signature@ == s@.signature
                })
                &&& (!s@.is_complete() ==> r == Err::<SignedUserTransaction, _>(
                    AuthenticatorError::InsufficientSignatures {
                        have: s@.signature.entries.len() as u64,
                        need: s@.threshold as u64,
                    },
                ))
            },
    {
        match self {
            AccountSignature::Single(public_key, signature) => Ok(
                SignedUserTransaction::ed25519(raw_txn, public_key, signature),
            ),
            AccountSignature::Multi(public_key, signature) => {
                if signature.is_enough() {
                    Ok(
                        SignedUserTransaction::multi_ed25519(
                            raw_txn,
                            public_key,
                            signature.into_signature(),
                        ),
                    )
                } else {
                    Err(
                        AuthenticatorError::InsufficientSignatures {
                            have: signature.signature_count() as u64,
                            need: signature.threshold() as u64,
                        },
                    )
                }
            },
        }
    }

    /// Checks this signature against its own public key.  A shard is
    /// checked entry by entry, whether or not it meets quorum; a
    /// failed check is `SignatureMismatch`.
    pub fn verify(&self, message: &Vec<u8>) -> (r: Result<(), AuthenticatorError>)
        requires
            self.wf(),
        ensures
            r is Ok <==> self.spec_verifies(message@),
            r is Err ==> r == Err::<(), _>(AuthenticatorError::SignatureMismatch),
    {
        match self {
            AccountSignature::Single(k, s) => {
                let kb = k.to_bytes();
                let sb = s.to_bytes();
                if ed25519_verify(&kb, message, &sb) {
                    Ok(())
                } else {
                    Err(AuthenticatorError::SignatureMismatch)
                }
            },
            AccountSignature::Multi(k, s) => {
                let sig = s.signature();
                if verify_multi_entries(k, &sig, message) {
                    Ok(())
                } else {
                    Err(AuthenticatorError::SignatureMismatch)
                }
            },
        }
    }

    /// Combines two threshold shards for the same account.  Positions
    /// signed by both sides are counted once; the result's
    /// contributions are the union.  Single signatures, different
    /// public keys, or different thresholds are incompatible.
    pub fn merge(&self, other: &Self) -> (r: Result<Self, AuthenticatorError>)
        requires
            self.wf(),
            other.wf(),
        ensures
            r is Ok <==> spec_mergeable(*self, *other),
            r matches Ok(m) ==> m.wf() && spec_is_merge_of(m, *self, *other),
    {
        match (self, other) {
            (AccountSignature::Multi(k1, s1), AccountSignature::Multi(k2, s2)) => {
                let b1 = k1.to_bytes();
                let b2 = k2.to_bytes();
                if !bytes_equal(&b1, &b2) {
                    proof {
                        assert(!(k1@ == k2@)) by {
                            if k1@ == k2@ {
                                assert(k1@.to_bytes() == k2@.to_bytes());
                            }
                        }
                    }
                    return Err(AuthenticatorError::InvalidSignatureEncoding);
                }
                proof {
                    lemma_multi_public_key_bytes_injective(k1@, k2@);
                }
                match s1.merge(s2) {
                    Ok(ms) => Ok(AccountSignature::Multi(k1.duplicate(), ms)),
                    Err(e) => Err(e),
                }
            },
            _ => Err(AuthenticatorError::InvalidSignatureEncoding),
        }
    }
}

/// Whether two byte vectors hold the same bytes.
fn bytes_equal(a: &Vec<u8>, b: &Vec<u8>) -> (r: bool)
    ensures
        r <==> a@ == b@,
{
    if a.len() != b.len() {
        return false;
    }
    let mut i: usize = 0;
    while i < a.len()
        invariant
            i <= a@.len(),
            a@.len() == b@.len(),
            forall|t: int| 0 <= t < i ==> a@[t] == b@[t],
        decreases a@.len() - i,
    {
        if a[i] != b[i] {
            return false;
        }
        i = i + 1;
    }
    proof {
        assert(a@ =~= b@);
    }
    true
}

/// Two multi keys with the same wire bytes are the same key: the byte
/// count fixes the key count, the chunks fix the keys, the tail fixes
/// the threshold.
proof fn lemma_multi_public_key_bytes_injective(a: MultiPublicKeyModel, b: MultiPublicKeyModel)
    requires
        a.wf(),
        b.wf(),
        a.to_bytes() == b.to_bytes(),
    ensures
        a == b,
{
    crate::bytes_util::lemma_concat_bytes_uniform(a.keys, 32);
    crate::bytes_util::lemma_concat_bytes_uniform(b.keys, 32);
    assert(a.to_bytes().len() == a.keys.len() * 32 + 1);
    assert(b.to_bytes().len() == b.keys.len() * 32 + 1);
    assert(a.keys.len() * 32 == b.keys.len() * 32);
    assert(a.keys.len() == b.keys.len()) by (nonlinear_arith)
        requires
            a.keys.len() * 32 == b.keys.len() * 32,
    ;
    assert(a.threshold == b.threshold) by {
        assert(a.to_bytes().last() == a.threshold);
        assert(b.to_bytes().last() == b.threshold);
    }
    assert forall|j: int| 0 <= j < a.keys.len() implies a.keys[j] == b.keys[j] by {
        assert(j * 32 + 32 <= a.keys.len() * 32) by (nonlinear_arith)
            requires
                0 <= j < a.keys.len(),
        ;
        assert(spec_concat_bytes(a.keys).subrange(j * 32, j * 32 + 32) == a.keys[j]);
        assert(spec_concat_bytes(b.keys).subrange(j * 32, j * 32 + 32) == b.keys[j]);
        assert(spec_concat_bytes(a.keys).subrange(j * 32, j * 32 + 32) =~= a.to_bytes().subrange(
            j * 32,
            j * 32 + 32,
        ));
        assert(spec_concat_bytes(b.keys).subrange(j * 32, j * 32 + 32) =~= b.to_bytes().subrange(
            j * 32,
            j * 32 + 32,
        ));
    }
    assert(a.keys =~= b.keys);
    assert(a =~= b);
}

/// Verifies every contribution of a partial threshold signature
/// against the matching positions of a multi key.
fn verify_multi_entries(
    pk: &MultiEd25519PublicKey,
    sig: &MultiEd25519Signature,
    message: &Vec<u8>,
) -> (r: bool)
    requires
        pk.wf(),
        sig.wf(),
    ensures
        r == spec_multi_entries_verify(pk@, sig@, message@),
{
    let n = pk.key_count();
    let count = sig.signature_count();
    let mut i: usize = 0;
    while i < count
        invariant
            i <= count,
            count == sig@.entries.len(),
            n == pk@.keys.len(),
            pk.wf(),
            sig.wf(),
            forall|t: int|
                0 <= t < i ==> (((#[trigger] sig@.entries[t]).0 as int) < pk@.keys.len()
                    && ed25519_verifies(
                    pk@.keys[sig@.entries[t].0 as int],
                    message@,
                    sig@.entries[t].1,
                )),
        decreases count - i,
    {
        let entry = sig.entry_at(i);
        if (entry.position as usize) >= n {
            return false;
        }
        let kb = pk.key_bytes(entry.position as usize);
        let sb = entry.signature.to_bytes();
        if !ed25519_verify(&kb, message, &sb) {
            return false;
        }
        i = i + 1;
    }
    true
}

/// The complete (scheme, public key, signature) bundle embedded in a
/// signed transaction: one variant per scheme, always carrying a
/// signature meant to be complete.
#[derive(Debug)]
pub enum TransactionAuthenticator {
    Ed25519 { public_key: Ed25519PublicKey, signature: Ed25519Signature },
    MultiEd25519 { public_key: MultiEd25519PublicKey, signature: MultiEd25519Signature },
}

impl TransactionAuthenticator {
    /// Each variant carries well-formed material.
    pub open spec fn wf(self) -> bool {
        match self {
            TransactionAuthenticator::Ed25519 { public_key, signature } => public_key.wf()
                && signature.wf(),
            TransactionAuthenticator::MultiEd25519 { public_key, signature } => public_key.wf()
                && signature.wf(),
        }
    }

    /// The scheme of the embedded key and signature.
    pub open spec fn spec_scheme(self) -> Scheme {
        match self {
            TransactionAuthenticator::Ed25519 { .. } => Scheme::Ed25519,
            TransactionAuthenticator::MultiEd25519 { .. } => Scheme::MultiEd25519,
        }
    }

    /// The raw bytes of the embedded public key.
    pub open spec fn spec_public_key_bytes(self) -> Seq<u8> {
        match self {
            TransactionAuthenticator::Ed25519 { public_key, .. } => public_key@,
            TransactionAuthenticator::MultiEd25519 { public_key, .. } => public_key@.to_bytes(),
        }
    }

    /// The raw bytes of the embedded signature.
    pub open spec fn spec_signature_bytes(self) -> Seq<u8> {
        match self {
            TransactionAuthenticator::Ed25519 { signature, .. } => signature@,
            TransactionAuthenticator::MultiEd25519 { signature, .. } => signature@.to_bytes(),
        }
    }

    /// Whether the embedded signature authorizes a message under the
    /// embedded key: the one signature checks out, or every
    /// contribution checks out and the key's quorum is met.
    pub open spec fn spec_verifies(self, message: Seq<u8>) -> bool {
        match self {
            TransactionAuthenticator::Ed25519 { public_key, signature } => ed25519_verifies(
                public_key@,
                message,
                signature@,
            ),
            TransactionAuthenticator::MultiEd25519 { public_key, signature } => {
                spec_multi_signature_authorizes(public_key@, signature@, message)
            },
        }
    }

    /// Bundles a single-signer key and signature.
    pub fn ed25519(public_key: Ed25519PublicKey, signature: Ed25519Signature) -> (r: Self)
        ensures
            r == (TransactionAuthenticator::Ed25519 { public_key, signature }),
    {
        TransactionAuthenticator::Ed25519 { public_key, signature }
    }

    /// Bundles a threshold key and aggregated signature.
    pub fn multi_ed25519(
        public_key: MultiEd25519PublicKey,
        signature: MultiEd25519Signature,
    ) -> (r: Self)
        ensures
            r == (TransactionAuthenticator::MultiEd25519 { public_key, signature }),
    {
        TransactionAuthenticator::MultiEd25519 { public_key, signature }
    }

    /// The scheme of the embedded key and signature.
    pub fn scheme(&self) -> (r: Scheme)
        ensures
            r == self.spec_scheme(),
    {
        match self {
            TransactionAuthenticator::Ed25519 { .. } => Scheme::Ed25519,
            TransactionAuthenticator::MultiEd25519 { .. } => Scheme::MultiEd25519,
        }
    }

    /// Checks the embedded signature against the embedded key for a
    /// message; `SignatureMismatch` if the cryptographic check fails.
    /// Whether the key matches the sender account's recorded
    /// authentication key is the caller's question, answered by
    /// comparing [`Self::authentication_key`].
    pub fn verify(&self, message: &Vec<u8>) -> (r: Result<(), AuthenticatorError>)
        requires
            self.wf(),
        ensures
            r is Ok <==> self.spec_verifies(message@),
            r is Err ==> r == Err::<(), _>(AuthenticatorError::SignatureMismatch),
    {
        match self {
            TransactionAuthenticator::Ed25519 { public_key, signature } => {
                let kb = public_key.to_bytes();
                let sb = signature.to_bytes();
                if ed25519_verify(&kb, message, &sb) {
                    Ok(())
                } else {
                    Err(AuthenticatorError::SignatureMismatch)
                }
            },
            TransactionAuthenticator::MultiEd25519 { public_key, signature } => {
                let enough = signature.signature_count() >= public_key.threshold() as usize;
                if enough && verify_multi_entries(public_key, signature, message) {
                    Ok(())
                } else {
                    Err(AuthenticatorError::SignatureMismatch)
                }
            },
        }
    }

    /// The raw bytes of the embedded public key.
    pub fn public_key_bytes(&self) -> (r: Vec<u8>)
        requires
            self.wf(),
        ensures
            r@ == self.spec_public_key_bytes(),
    {
        match self {
            TransactionAuthenticator::Ed25519 { public_key, .. } => public_key.to_bytes(),
            TransactionAuthenticator::MultiEd25519 { public_key, .. } => public_key.to_bytes(),
        }
    }

    /// The embedded public key as an account public key.
    pub fn public_key(&self) -> (r: AccountPublicKey)
        requires
            self.wf(),
        ensures
            r.wf(),
            r.spec_to_bytes() == self.spec_public_key_bytes(),
            r.spec_scheme() == self.spec_scheme(),
    {
        match self {
            TransactionAuthenticator::Ed25519 { public_key, .. } => AccountPublicKey::Single(
                public_key.duplicate(),
            ),
            TransactionAuthenticator::MultiEd25519 { public_key, .. } => AccountPublicKey::Multi(
                public_key.duplicate(),
            ),
        }
    }

    /// The raw bytes of the embedded signature.
    pub fn signature_bytes(&self) -> (r: Vec<u8>)
        requires
            self.wf(),
        ensures
            r@ == self.spec_signature_bytes(),
    {
        match self {
            TransactionAuthenticator::Ed25519 { signature, .. } => signature.to_bytes(),
            TransactionAuthenticator::MultiEd25519 { signature, .. } => signature.to_bytes(),
        }
    }

    /// The authentication-key preimage of the embedded public key.
    pub fn authentication_key_preimage(&self) -> (r: AuthenticationKeyPreimage)
        requires
            self.wf(),
        ensures
            r@ == spec_preimage_bytes(self.spec_public_key_bytes(), self.spec_scheme()),
    {
        AuthenticationKeyPreimage::new(self.public_key_bytes(), self.scheme())
    }

    /// A printable form of the authenticator: its scheme and the hex
    /// of its key and signature bytes.
    pub fn display_string(&self) -> (r: String)
        requires
            self.wf(),
        ensures
            r@ == "TransactionAuthenticator[scheme id: "@ + (match self {
                TransactionAuthenticator::Ed25519 { .. } => "Ed25519"@,
                TransactionAuthenticator::MultiEd25519 { .. } => "MultiEd25519"@,
            }) + ", public key: "@ + crate::hex_str::hex_of(self.spec_public_key_bytes())
                + ", signature: "@ + crate::hex_str::hex_of(self.spec_signature_bytes()) + "]"@,
    {
        let mut out = String::from_str("TransactionAuthenticator[scheme id: ");
        let name = self.scheme().name();
        out = out.concat(name.as_str());
        out = out.concat(", public key: ");
        let pk_hex = crate::hex_str::hex_encode(&self.public_key_bytes());
        out = out.concat(pk_hex.as_str());
        out = out.concat(", signature: ");
        let sig_hex = crate::hex_str::hex_encode(&self.signature_bytes());
        out = out.concat(sig_hex.as_str());
        out = out.concat("]");
        proof {
            assert(out@ =~= "TransactionAuthenticator[scheme id: "@ + (match self {
                TransactionAuthenticator::Ed25519 { .. } => "Ed25519"@,
                TransactionAuthenticator::MultiEd25519 { .. } => "MultiEd25519"@,
            }) + ", public key: "@ + crate::hex_str::hex_of(self.spec_public_key_bytes())
                + ", signature: "@ + crate::hex_str::hex_of(self.spec_signature_bytes()) + "]"@);
        }
        out
    }

    /// The authentication key the sender account must have recorded
    /// for this authenticator to speak for it.
    pub fn authentication_key(&self) -> (r: AuthenticationKey)
        requires
            self.wf(),
        ensures
            r@ == sha3_256_of(
                spec_preimage_bytes(self.spec_public_key_bytes(), self.spec_scheme()),
            ),
            r.wf(),
    {
        AuthenticationKey::from_preimage(&self.authentication_key_preimage())
    }
}

} // verus!
