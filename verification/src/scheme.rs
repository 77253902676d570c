//! The closed enumeration of supported authentication algorithms.

use vstd::prelude::*;

verus! {

/// Identifier of the algorithm that produced a key or signature.
///
/// The numbering is a stable on-chain contract: `Ed25519` is 0,
/// `MultiEd25519` is 1, and new algorithms may only be appended with the
/// next unused id.
#[derive(Clone, Copy, Debug, PartialEq, Eq, Structural)]
pub enum Scheme {
    Ed25519,
    MultiEd25519,
}

impl Scheme {
    /// The stable one-byte id of this scheme.
    pub open spec fn spec_id(self) -> u8 {
        match self {
            Scheme::Ed25519 => 0,
            Scheme::MultiEd25519 => 1,
        }
    }

    /// The byte appended to a public key when its authentication-key
    /// preimage is built, and used wherever the scheme goes on the wire.
    pub fn id(self) -> (r: u8)
        ensures
            r == self.spec_id(),
    {
        match self {
            Scheme::Ed25519 => 0,
            Scheme::MultiEd25519 => 1,
        }
    }

    /// The bare name of the scheme.
    pub fn name(self) -> (r: String)
        ensures
            self is Ed25519 ==> r@ == "Ed25519"@,
            self is MultiEd25519 ==> r@ == "MultiEd25519"@,
    {
        match self {
            Scheme::Ed25519 => String::from_str("Ed25519"),
            Scheme::MultiEd25519 => String::from_str("MultiEd25519"),
        }
    }

    /// A printable form of the scheme, `Scheme::` followed by its name.
    pub fn display_string(self) -> (r: String)
        ensures
            self is Ed25519 ==> r@ == "Scheme::"@ + "Ed25519"@,
            self is MultiEd25519 ==> r@ == "Scheme::"@ + "MultiEd25519"@,
    {
        let prefix = String::from_str("Scheme::");
        let name = self.name();
        prefix.concat(name.as_str())
    }
}

} // verus!
