//! Transactions as this library sees them: the canonical bytes a
//! signer authorizes, and the signed form that carries an
//! authenticator.
//!
//! Building payloads and shipping transactions belong to outer layers;
//! here a raw transaction is its canonical signing message.

use vstd::prelude::*;

use crate::authenticator::TransactionAuthenticator;
use crate::bytes_util::clone_bytes;
use crate::ed25519::Ed25519PublicKey;
use crate::ed25519::Ed25519Signature;
use crate::multi_ed25519::MultiEd25519PublicKey;
use crate::multi_ed25519::MultiEd25519Signature;

verus! {

/// An unsigned transaction: the canonical byte string its sender
/// signs.  Its view is those bytes.
pub struct RawUserTransaction {
    message: Vec<u8>,
}

impl View for RawUserTransaction {
    type V = Seq<u8>;

    closed spec fn view(&self) -> Seq<u8> {
        self.message@
    }
}

impl RawUserTransaction {
    /// Wraps the canonical signing bytes of a transaction.
    pub fn new(message: Vec<u8>) -> (r: Self)
        ensures
            r@ == message@,
    {
        RawUserTransaction { message }
    }

    /// The canonical bytes the sender signs.
    pub fn signing_message(&self) -> (r: Vec<u8>)
        ensures
            r@ == self@,
    {
        clone_bytes(&self.message)
    }
}

/// A transaction together with the authenticator that authorizes it.
pub struct SignedUserTransaction {
    raw_txn: RawUserTransaction,
    authenticator: TransactionAuthenticator,
}

impl SignedUserTransaction {
    /// The transaction's canonical signing bytes.
    pub closed spec fn spec_raw_txn(self) -> Seq<u8> {
        self.raw_txn@
    }

    /// The authenticator embedded in the transaction.
    pub closed spec fn spec_authenticator(self) -> TransactionAuthenticator {
        self.authenticator
    }

    /// Assembles a transaction signed under the single-signer scheme.
    pub fn ed25519(
        raw_txn: RawUserTransaction,
        public_key: Ed25519PublicKey,
        signature: Ed25519Signature,
    ) -> (r: Self)
        ensures
            r.spec_raw_txn() == raw_txn@,
            r.spec_authenticator() == (TransactionAuthenticator::Ed25519 { public_key, signature }),
    {
        SignedUserTransaction {
            raw_txn,
            authenticator: TransactionAuthenticator::Ed25519 { public_key, signature },
        }
    }

    /// Assembles a transaction signed under the threshold scheme.
    pub fn multi_ed25519(
        raw_txn: RawUserTransaction,
        public_key: MultiEd25519PublicKey,
        signature: MultiEd25519Signature,
    ) -> (r: Self)
        ensures
            r.spec_raw_txn() == raw_txn@,
            r.spec_authenticator() == (TransactionAuthenticator::MultiEd25519 { public_key, signature }),
    {
        SignedUserTransaction {
            raw_txn,
            authenticator: TransactionAuthenticator::MultiEd25519 { public_key, signature },
        }
    }

    /// The embedded authenticator, borrowed.
    pub fn authenticator(&self) -> (r: &TransactionAuthenticator)
        ensures
            *r == self.spec_authenticator(),
    {
        &self.authenticator
    }

    /// The transaction's canonical signing bytes.
    pub fn signing_message(&self) -> (r: Vec<u8>)
        ensures
            r@ == self.spec_raw_txn(),
    {
        self.raw_txn.signing_message()
    }
}

} // verus!
