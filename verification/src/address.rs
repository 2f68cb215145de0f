//! Identities on the ledger: addresses and code hashes.

use vstd::prelude::*;

use crate::table::{Key, Stored};

verus! {

/// What an address names: an account (a public key) or a contract instance.
#[derive(Clone, Copy, Debug, PartialEq, Eq, Structural)]
pub enum AddressKind {
    Account,
    Contract,
}

/// An address: its kind and its 32-byte identifier, held as the two big-endian
/// halves of the identifier.
#[derive(Clone, Copy, Debug, PartialEq, Eq, Structural)]
pub struct Address {
    pub kind: AddressKind,
    pub hi: u128,
    pub lo: u128,
}

/// The 32-byte hash of a contract's code, held as its two big-endian halves.
#[derive(Clone, Copy, Debug, PartialEq, Eq, Structural)]
pub struct WasmHash {
    pub hi: u128,
    pub lo: u128,
}

impl View for Address {
    type V = Address;

    open spec fn view(&self) -> Address {
        *self
    }
}

impl Stored for Address {
    fn duplicate(&self) -> (r: Self) {
        *self
    }
}

impl Key for Address {
    fn same(&self, other: &Self) -> (r: bool) {
        *self == *other
    }
}

} // verus!
