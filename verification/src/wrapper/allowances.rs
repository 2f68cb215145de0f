//! Granting allowances and spending them.

use vstd::prelude::*;

use crate::address::Address;
use crate::wrapper::env::WrapperEnv;
use crate::wrapper::model::WrapperView;
use crate::wrapper::types::{Allowance, DataKey, TokenTransfer, WrapperError, WrapperEvent};
use crate::wrapper::{follows, TokenWrapper};

verus! {

/// A transfer whose allowance has been debited and which the token contract
/// has yet to make.
pub struct PendingTransfer {
    transfer: TokenTransfer,
    spender: Address,
    /// The allowance before the transfer.
    before: Allowance,
    /// How many requests to keep entries alive there were before it.
    extensions: usize,
    /// The state before the transfer.
    initial: Ghost<WrapperView>,
}

impl PendingTransfer {
    /// The transfer that the token contract is to make.
    pub closed spec fn token_transfer(self) -> TokenTransfer {
        self.transfer
    }

    /// Who spends the allowance.
    pub closed spec fn spent_by(self) -> Address {
        self.spender
    }

    /// The state before the transfer.
    pub closed spec fn initial_state(self) -> WrapperView {
        self.initial@
    }

    /// The state in which the token contract is called.
    pub open spec fn debited_state(self) -> Result<WrapperView, WrapperError> {
        self.initial_state().debit(
            self.spent_by(),
            self.token_transfer().token_id,
            self.token_transfer().from,
            self.token_transfer().amount,
        )
    }

    #[verifier::type_invariant]
    spec fn is_debit(self) -> bool {
        &&& self.initial@.debit(
            self.spender,
            self.transfer.token_id,
            self.transfer.from,
            self.transfer.amount,
        ) is Ok
        &&& self.before == self.initial@.allowance(
            self.transfer.from,
            self.spender,
            self.transfer.token_id,
        )
        &&& self.extensions == self.initial@.ttl_extensions.len()
    }

    /// The transfer that the token contract is to make.
    pub fn request(&self) -> (r: TokenTransfer)
        ensures
            r == self.token_transfer(),
    {
        self.transfer
    }
}

impl TokenWrapper {
    /// An owner grants a spender an allowance for a token, in place of any
    /// earlier one: what was left of that is not added.
    pub fn approve(
        env: &mut WrapperEnv,
        owner: Address,
        spender: Address,
        token_id: Address,
        amount: i128,
        expiry_ledger: u32,
    ) -> (r: Result<(), WrapperError>)
        requires
            old(env)@.authorized(owner),
        ensures
            follows(
                old(env)@.approve(owner, spender, token_id, amount, expiry_ledger),
                old(env)@,
                r,
                final(env)@,
            ),
    {
        if amount < 0 {
            return Err(WrapperError::InvalidAmount);
        }
        if expiry_ledger <= env.sequence {
            return Err(WrapperError::InvalidExpiry);
        }
        let key = DataKey::Allowance(owner, spender, token_id);
        env.set_allowance(key, Allowance { amount, expiry_ledger });
        env.events.push(
            WrapperEvent::Approved { owner, spender, token_id, amount, expiry_ledger },
        );
        Ok(())
    }

    /// The allowance of an owner to a spender for a token.
    pub fn allowance(env: &WrapperEnv, owner: Address, spender: Address, token_id: Address) -> (r:
        Allowance)
        ensures
            r == env@.allowance(owner, spender, token_id),
    {
        match env.allowances.get(&DataKey::Allowance(owner, spender, token_id)) {
            Some(allowance) => *allowance,
            None => Allowance { amount: 0, expiry_ledger: 0 },
        }
    }

    /// A spender moves tokens out of the balance of `from`. An allowance can be
    /// used up to and at its expiry ledger.
    ///
    /// This checks and debits the allowance. The caller then has the token
    /// contract make the transfer that it returns, and settles it with
    /// [`TokenWrapper::complete_transfer`] or [`TokenWrapper::abort_transfer`].
    pub fn transfer_from(
        env: &mut WrapperEnv,
        spender: Address,
        token_id: Address,
        from: Address,
        to: Address,
        amount: i128,
    ) -> (r: Result<PendingTransfer, WrapperError>)
        requires
            old(env)@.authorized(spender),
        ensures
            follows(old(env)@.debit(spender, token_id, from, amount), old(env)@, r, final(env)@),
            r matches Ok(pending) ==> {
                &&& pending.token_transfer() == (TokenTransfer { token_id, from, to, amount })
                &&& pending.spent_by() == spender
                &&& pending.initial_state() == old(env)@
            },
    {
        if amount <= 0 {
            return Err(WrapperError::InvalidAmount);
        }
        let current = Self::allowance(env, from, spender, token_id);
        if current.expiry_ledger < env.sequence {
            return Err(WrapperError::AllowanceExpired);
        }
        if current.amount < amount {
            return Err(WrapperError::InsufficientAllowance);
        }
        let ghost initial = env@;
        let extensions: usize = env.ttl_extensions.len();
        let key = DataKey::Allowance(from, spender, token_id);
        let left: i128 = current.amount - amount;
        env.set_allowance(
            key,
            Allowance { amount: left, expiry_ledger: current.expiry_ledger },
        );
        Ok(
            PendingTransfer {
                transfer: TokenTransfer { token_id, from, to, amount },
                spender,
                before: current,
                extensions,
                initial: Ghost(initial),
            },
        )
    }

    /// Settles a transfer that the token contract has made.
    pub fn complete_transfer(env: &mut WrapperEnv, pending: PendingTransfer)
        requires
            pending.debited_state() == Ok::<WrapperView, WrapperError>(old(env)@),
        ensures
            pending.initial_state().transfer_from(
                pending.spent_by(),
                pending.token_transfer().token_id,
                pending.token_transfer().from,
                pending.token_transfer().to,
                pending.token_transfer().amount,
            ) == Ok::<WrapperView, WrapperError>(final(env)@),
    {
        env.events.push(
            WrapperEvent::TransferFrom {
                spender: pending.spender,
                from: pending.transfer.from,
                to: pending.transfer.to,
                amount: pending.transfer.amount,
            },
        );
    }

    /// Undoes a transfer that the token contract has not made: nothing of it
    /// stays.
    pub fn abort_transfer(env: &mut WrapperEnv, pending: PendingTransfer)
        requires
            pending.debited_state() == Ok::<WrapperView, WrapperError>(old(env)@),
        ensures
            final(env)@ == pending.initial_state(),
    {
        proof {
            use_type_invariant(&pending);
        }
        let key = DataKey::Allowance(
            pending.transfer.from,
            pending.spender,
            pending.transfer.token_id,
        );
        env.allowances.set(key, pending.before);
        env.ttl_extensions.truncate(pending.extensions);
        proof {
            let initial = pending.initial@;
            assert(initial.allowances.contains_key(key));
            assert(env@.allowances =~= initial.allowances);
            assert(env@.ttl_extensions =~= initial.ttl_extensions);
            assert(env@ =~= initial);
        }
    }
}

} // verus!
