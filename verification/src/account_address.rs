//! On-chain account identifiers.

use vstd::prelude::*;

use crate::bytes_util::clone_bytes;

verus! {

/// The number of bytes in an account address.
pub const ACCOUNT_ADDRESS_LENGTH: usize = 16;

/// A 16-byte on-chain account identifier: the tail of the authentication
/// key that created the account.  Its view is the address's raw bytes.
#[derive(Debug)]
pub struct AccountAddress {
    bytes: Vec<u8>,
}

impl View for AccountAddress {
    type V = Seq<u8>;

    closed spec fn view(&self) -> Seq<u8> {
        self.bytes@
    }
}

impl AccountAddress {
    /// An address is exactly 16 bytes.
    pub open spec fn wf(self) -> bool {
        self@.len() == 16
    }

    /// Wraps 16 raw bytes as an address.
    pub fn new(bytes: Vec<u8>) -> (r: Self)
        requires
            bytes@.len() == 16,
        ensures
            r@ == bytes@,
            r.wf(),
    {
        AccountAddress { bytes }
    }

    /// The raw bytes of the address, as a fresh vector.
    pub fn to_vec(&self) -> (r: Vec<u8>)
        ensures
            r@ == self@,
    {
        clone_bytes(&self.bytes)
    }
}

} // verus!
