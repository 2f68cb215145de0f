//! Laws of payments, and of how the wallet and the token wrapper fit together.

use vstd::prelude::*;

use crate::address::Address;
use crate::wallet::error::WalletError;
use crate::wallet::laws::operation::{Operation, PaymentOperation};
use crate::wallet::model::{Asset, WalletView};
use crate::wrapper::model::WrapperView;
use crate::wrapper::types::{DataKey, WrapperError};

verus! {

/// A payment of a token that is not allowed is refused as such, whatever else
/// may be wrong with it.
pub proof fn lemma_disallowed_token_is_refused(
    state: WalletView,
    user: Address,
    token_id: Address,
    asset: Asset,
    amount: i128,
)
    ensures
        state.send(user, token_id, asset, amount) == Err::<WalletView, WalletError>(
            WalletError::TokenNotAllowed,
        ) <==> !state.token_allowed(token_id),
{
}

/// A token is allowed from when the admin adds it until the admin removes it,
/// and no other operation changes that.
pub proof fn lemma_allowlist(state: WalletView, operation: Operation, token_id: Address)
    ensures
        state.step(operation) matches Ok(next) ==> next.token_allowed(token_id) == match operation {
            Operation::Payments(PaymentOperation::AddAllowedToken { token_id: added, .. }) => added
                == token_id || state.token_allowed(token_id),
            Operation::Payments(PaymentOperation::RemoveAllowedToken { token_id: removed, .. }) =>
                removed != token_id && state.token_allowed(token_id),
            _ => state.token_allowed(token_id),
        },
{
    match operation {
        Operation::Admin(_) => reveal(WalletView::admin_step),
        Operation::Recovery(_) => reveal(WalletView::recovery_step),
        Operation::Assets(_) => reveal(WalletView::asset_step),
        Operation::Spends(_) => reveal(WalletView::spend_step),
        Operation::Payments(_) => reveal(WalletView::payment_step),
        Operation::Migration(_) => reveal(WalletView::migration_step),
    }
}

/// The token wrapper that was set is the one that is read, and no other
/// operation changes it.
pub proof fn lemma_token_wrapper(state: WalletView, operation: Operation)
    ensures
        state.step(operation) matches Ok(next) ==> next.token_wrapper == match operation {
            Operation::Payments(PaymentOperation::SetTokenWrapper { token_wrapper_id, .. }) =>
                Some(token_wrapper_id),
            _ => state.token_wrapper,
        },
{
    match operation {
        Operation::Admin(_) => reveal(WalletView::admin_step),
        Operation::Recovery(_) => reveal(WalletView::recovery_step),
        Operation::Assets(_) => reveal(WalletView::asset_step),
        Operation::Spends(_) => reveal(WalletView::spend_step),
        Operation::Payments(_) => reveal(WalletView::payment_step),
        Operation::Migration(_) => reveal(WalletView::migration_step),
    }
}

/// A payment counts against the limit exactly as a recorded spend does, and is
/// counted before the token wrapper is called.
pub proof fn lemma_payment_counts_as_a_spend(
    state: WalletView,
    user: Address,
    token_id: Address,
    asset: Asset,
    amount: i128,
)
    ensures
        state.send(user, token_id, asset, amount) matches Ok(next) ==> state.record_spend(
            user,
            asset,
            amount,
        ) == Ok::<WalletView, WalletError>(next),
        state.token_allowed(token_id) && state.token_wrapper is Some ==> state.send(
            user,
            token_id,
            asset,
            amount,
        ) == state.record_spend(user, asset, amount),
{
}

/// The token wrapper accepts the call of a payment exactly where the user has
/// granted the wallet an allowance for the token that is still usable and
/// covers the amount. It then takes exactly the amount off that allowance and
/// leaves every other as it was.
pub proof fn lemma_payment_uses_the_allowance(
    wallet: WalletView,
    wrapper: WrapperView,
    user: Address,
    token_id: Address,
    asset: Asset,
    amount: i128,
    other: DataKey,
)
    requires
        wallet.send(user, token_id, asset, amount) is Ok,
        other != DataKey::Allowance(user, wallet.contract, token_id),
    ensures
        ({
            let granted = wrapper.allowance(user, wallet.contract, token_id);
            let taken = wrapper.debit(wallet.contract, token_id, user, amount);
            &&& taken is Ok <==> granted.expiry_ledger >= wrapper.sequence && granted.amount
                >= amount
            &&& taken matches Ok(next) ==> {
                let left = next.allowance(user, wallet.contract, token_id);
                &&& left.amount == granted.amount - amount
                &&& left.expiry_ledger == granted.expiry_ledger
                &&& next.allowances.contains_key(other) == wrapper.allowances.contains_key(other)
                &&& next.allowances.contains_key(other) ==> next.allowances[other]
                    == wrapper.allowances[other]
            }
        }),
{
}

/// The numbers under which the two contracts report their errors are all
/// different, and tell which of the two reported one.
pub proof fn lemma_error_numbers(a: WalletError, b: WalletError, c: WrapperError, d: WrapperError)
    ensures
        a.number() == b.number() <==> a == b,
        c.number() == d.number() <==> c == d,
        1001 <= a.number() <= 1999,
        2001 <= c.number() <= 2999,
{
}

} // verus!
