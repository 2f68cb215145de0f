//! The records that the token wrapper keeps and the events that it publishes.

use vstd::prelude::*;

use crate::address::Address;
use crate::table::{Key, Stored};

verus! {

/// Names of the entries that the token wrapper keeps on the ledger.
#[derive(Clone, Copy, Debug, PartialEq, Eq, Structural)]
pub enum DataKey {
    /// The allowance of an owner to a spender for a token, in that order.
    Allowance(Address, Address, Address),
}

impl View for DataKey {
    type V = DataKey;

    open spec fn view(&self) -> DataKey {
        *self
    }
}

impl Stored for DataKey {
    fn duplicate(&self) -> (r: Self) {
        *self
    }
}

impl Key for DataKey {
    fn same(&self, other: &Self) -> (r: bool) {
        *self == *other
    }
}

/// How much a spender may still move, and the last ledger at which it may.
#[derive(Clone, Copy, Debug, PartialEq, Eq, Structural)]
pub struct Allowance {
    pub amount: i128,
    pub expiry_ledger: u32,
}

impl View for Allowance {
    type V = Allowance;

    open spec fn view(&self) -> Allowance {
        *self
    }
}

impl Stored for Allowance {
    fn duplicate(&self) -> (r: Self) {
        *self
    }
}

/// The reason for which a token wrapper call was refused.
///
/// Each has a numeric code of its own, see [`WrapperError::code`].
#[derive(Clone, Copy, Debug, PartialEq, Eq, Structural)]
pub enum WrapperError {
    AllowanceExpired,
    InsufficientAllowance,
    InvalidAmount,
    InvalidExpiry,
}

impl WrapperError {
    /// The number under which the error is reported on the ledger.
    pub open spec fn number(self) -> u32 {
        match self {
            WrapperError::AllowanceExpired => 2001,
            WrapperError::InsufficientAllowance => 2002,
            WrapperError::InvalidAmount => 2003,
            WrapperError::InvalidExpiry => 2004,
        }
    }

    /// The number under which the error is reported on the ledger.
    pub fn code(self) -> (r: u32)
        ensures
            r == self.number(),
    {
        match self {
            WrapperError::AllowanceExpired => 2001,
            WrapperError::InsufficientAllowance => 2002,
            WrapperError::InvalidAmount => 2003,
            WrapperError::InvalidExpiry => 2004,
        }
    }
}

/// An event that the token wrapper publishes.
#[derive(Clone, Copy, Debug, PartialEq, Eq, Structural)]
pub enum WrapperEvent {
    Approved {
        owner: Address,
        spender: Address,
        token_id: Address,
        amount: i128,
        expiry_ledger: u32,
    },
    TransferFrom { spender: Address, from: Address, to: Address, amount: i128 },
}

impl WrapperEvent {
    /// The name under which an event is published.
    pub open spec fn name(self) -> Seq<char> {
        match self {
            WrapperEvent::Approved { .. } => "approved"@,
            WrapperEvent::TransferFrom { .. } => "transfer_from"@,
        }
    }

    /// The name under which the event is published.
    pub fn topic(&self) -> (r: &'static str)
        ensures
            r@ == self.name(),
    {
        match self {
            WrapperEvent::Approved { .. } => "approved",
            WrapperEvent::TransferFrom { .. } => "transfer_from",
        }
    }
}

/// A request to keep an entry alive: where fewer than `threshold` ledgers of
/// its lifetime are left, extend it to `extend_to` ledgers from now.
#[derive(Clone, Copy, Debug, PartialEq, Eq, Structural)]
pub struct AllowanceExtension {
    pub key: DataKey,
    pub threshold: u32,
    pub extend_to: u32,
}

/// A transfer to be made by a token contract.
#[derive(Clone, Copy, Debug, PartialEq, Eq, Structural)]
pub struct TokenTransfer {
    pub token_id: Address,
    pub from: Address,
    pub to: Address,
    pub amount: i128,
}

} // verus!
