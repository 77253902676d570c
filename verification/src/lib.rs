//! Account-identity and transaction-authentication library.
//!
//! The crate models how a signer's key material is turned into an on-chain
//! account address, how messages are signed under a single-signer or a
//! threshold multi-signer scheme, and how a quorum-satisfying signature is
//! promoted into the authenticator embedded in a signed transaction.
//!
//! All key, signature and address types hold their raw byte encodings as
//! plain values, so every encoding, decoding, threshold and aggregation rule
//! is stated in contracts and proved.  Only the cryptographic primitives
//! themselves (sha3-256, ed25519 point validation, key derivation, signing
//! and verification) are called through trusted wrappers in [`crypto`].

pub mod account_address;
pub mod auth_key;
pub mod authenticator;
pub mod bitmap;
pub mod bytes_util;
pub mod crypto;
pub mod ed25519;
pub mod error;
pub mod hex_str;
pub mod laws;
pub mod multi_ed25519;
pub mod scheme;
pub mod transaction;
