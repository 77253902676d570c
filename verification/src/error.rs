//! Error kinds surfaced by the authenticator subsystem.

use vstd::prelude::*;

verus! {

/// Everything that can go wrong while parsing key material, decoding wire
/// encodings, or promoting a signature into a transaction authenticator.
///
/// `InsufficientSignatures` is a recoverable condition: the caller is
/// expected to collect more co-signer contributions and retry.
/// `SignatureMismatch` is a failed cryptographic check and is final for the
/// transaction at hand.
#[derive(Clone, Copy, Debug, PartialEq, Eq, Structural)]
pub enum AuthenticatorError {
    /// A byte string of the wrong length was offered as a key.
    InvalidKeyLength,
    /// Key bytes of a plausible length that do not decode to a valid key.
    InvalidKeyEncoding,
    /// A byte string that does not decode to a signature.
    InvalidSignatureEncoding,
    /// The empty string was offered as a textual authentication key.
    EmptyInput,
    /// A non-empty textual key that is not hex of the right length.
    MalformedEncoding,
    /// A threshold signature with fewer contributions than its quorum asks.
    InsufficientSignatures { have: u64, need: u64 },
    /// A signature that does not check out against its public key.
    SignatureMismatch,
}

} // verus!
