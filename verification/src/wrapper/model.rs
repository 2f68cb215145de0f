//! What each token wrapper operation does, stated over the wrapper's state.

use vstd::prelude::*;

use crate::address::Address;
use crate::wrapper::types::{Allowance, AllowanceExtension, DataKey, WrapperError, WrapperEvent};

verus! {

/// The state of a token wrapper and of the call that is being made on it.
#[verifier::ext_equal]
pub struct WrapperView {
    /// The sequence number of the ledger that runs the call.
    pub sequence: u32,
    /// The addresses that have authorized the call.
    pub signers: Seq<Address>,
    pub allowances: Map<DataKey, Allowance>,
    pub ttl_extensions: Seq<AllowanceExtension>,
    pub events: Seq<WrapperEvent>,
}

impl WrapperView {
    /// A token wrapper that nothing has been done with, at ledger 0.
    pub open spec fn fresh() -> WrapperView {
        WrapperView {
            sequence: 0,
            signers: Seq::empty(),
            allowances: Map::empty(),
            ttl_extensions: Seq::empty(),
            events: Seq::empty(),
        }
    }

    /// The address has authorized the call.
    pub open spec fn authorized(self, who: Address) -> bool {
        self.signers.contains(who)
    }

    /// The state with one more published event.
    pub open spec fn emit(self, event: WrapperEvent) -> Self {
        WrapperView { events: self.events.push(event), ..self }
    }

    /// The allowance of an owner to a spender for a token; nothing, and expired
    /// from the start, where none was granted.
    pub open spec fn allowance(
        self,
        owner: Address,
        spender: Address,
        token_id: Address,
    ) -> Allowance {
        let key = DataKey::Allowance(owner, spender, token_id);
        if self.allowances.contains_key(key) {
            self.allowances[key]
        } else {
            Allowance { amount: 0, expiry_ledger: 0 }
        }
    }

    /// The state with an allowance set, and kept alive as long as it is usable.
    pub open spec fn with_allowance(self, key: DataKey, allowance: Allowance) -> Self {
        let ledgers = allowance.expiry_ledger.saturating_sub(self.sequence);
        WrapperView {
            allowances: self.allowances.insert(key, allowance),
            ttl_extensions: self.ttl_extensions.push(
                AllowanceExtension { key, threshold: ledgers, extend_to: ledgers },
            ),
            ..self
        }
    }

    pub open spec fn approve(
        self,
        owner: Address,
        spender: Address,
        token_id: Address,
        amount: i128,
        expiry_ledger: u32,
    ) -> Result<Self, WrapperError> {
        if amount < 0 {
            Err(WrapperError::InvalidAmount)
        } else if expiry_ledger <= self.sequence {
            Err(WrapperError::InvalidExpiry)
        } else {
            Ok(
                self.with_allowance(
                    DataKey::Allowance(owner, spender, token_id),
                    Allowance { amount, expiry_ledger },
                ).emit(
                    WrapperEvent::Approved { owner, spender, token_id, amount, expiry_ledger },
                ),
            )
        }
    }

    /// The wrapper's own part of a transfer before the token contract is
    /// called: every check, and the allowance debited.
    pub open spec fn debit(
        self,
        spender: Address,
        token_id: Address,
        from: Address,
        amount: i128,
    ) -> Result<Self, WrapperError> {
        let current = self.allowance(from, spender, token_id);
        if amount <= 0 {
            Err(WrapperError::InvalidAmount)
        } else if current.expiry_ledger < self.sequence {
            Err(WrapperError::AllowanceExpired)
        } else if current.amount < amount {
            Err(WrapperError::InsufficientAllowance)
        } else {
            Ok(
                self.with_allowance(
                    DataKey::Allowance(from, spender, token_id),
                    Allowance {
                        amount: (current.amount - amount) as i128,
                        expiry_ledger: current.expiry_ledger,
                    },
                ),
            )
        }
    }

    /// A transfer whose token contract did its part.
    pub open spec fn transfer_from(
        self,
        spender: Address,
        token_id: Address,
        from: Address,
        to: Address,
        amount: i128,
    ) -> Result<Self, WrapperError> {
        match self.debit(spender, token_id, from, amount) {
            Err(e) => Err(e),
            Ok(debited) => Ok(
                debited.emit(WrapperEvent::TransferFrom { spender, from, to, amount }),
            ),
        }
    }
}

} // verus!
