//! Laws of the calls on payments.

use vstd::prelude::*;

use crate::address::Address;
use crate::asset::AssetInfo;
use crate::wallet::env::WalletEnv;
use crate::wallet::error::WalletError;
use crate::wallet::laws::calls::assets::lemma_what_is_found;
use crate::wallet::laws::calls::spending::spend_counted;
use crate::wallet::laws::calls::terms::{
    entry_alive, limit_entry, list_entry, spent_entry, stands_first, stands_in, wallet_alive,
};
use crate::wallet::model::WalletView;
use crate::wallet::payments::{PendingSend, TransferOutcome, TransferRequest};
use crate::wallet::types::{DataKey, Event};
use crate::wallet::GlobeWallet;

verus! {

/// What is the admin's to set, the admin can always set, and nobody else.
pub open spec fn set_by_admin(
    s: WalletView,
    n: WalletView,
    admin: Address,
    r: Result<(), WalletError>,
) -> bool {
    &&& r is Ok <==> s.admin == Some(admin)
    &&& r == Err::<(), WalletError>(WalletError::NotInitialized) <==> s.admin is None
    &&& r == Err::<(), WalletError>(WalletError::Unauthorized) <==> s.admin is Some && s.admin
        != Some(admin)
    &&& r is Err ==> n == s
}

/// The admin can set any token wrapper, in place of any other.
pub proof fn lemma_set_token_wrapper(
    env: &mut WalletEnv,
    admin: Address,
    token_wrapper_id: Address,
    r: Result<(), WalletError>,
)
    requires
        call_ensures(GlobeWallet::set_token_wrapper, (env, admin, token_wrapper_id), r),
    ensures
        set_by_admin(old(env)@, final(env)@, admin, r),
        r is Ok ==> {
            let (s, n) = (old(env)@, final(env)@);
            &&& n.token_wrapper == Some(token_wrapper_id)
            &&& n.events == s.events.push(Event::TokenWrapperSet { admin, token_wrapper_id })
            &&& n.ttl_extensions == s.ttl_extensions.push(wallet_alive())
            &&& n == (WalletView {
                token_wrapper: n.token_wrapper,
                events: n.events,
                ttl_extensions: n.ttl_extensions,
                ..s
            })
        },
{
}

/// The admin can allow any token, allowed before or not.
pub proof fn lemma_add_allowed_token(
    env: &mut WalletEnv,
    admin: Address,
    token_id: Address,
    r: Result<(), WalletError>,
)
    requires
        call_ensures(GlobeWallet::add_allowed_token, (env, admin, token_id), r),
    ensures
        set_by_admin(old(env)@, final(env)@, admin, r),
        r is Ok ==> {
            let (s, n) = (old(env)@, final(env)@);
            &&& n.allowed_tokens == s.allowed_tokens.insert(token_id, ())
            &&& n.events == s.events.push(Event::AllowedTokenAdded { admin, token_id })
            &&& n.ttl_extensions == s.ttl_extensions.push(
                entry_alive(DataKey::AllowedToken(token_id)),
            ).push(wallet_alive())
            &&& n == (WalletView {
                allowed_tokens: n.allowed_tokens,
                events: n.events,
                ttl_extensions: n.ttl_extensions,
                ..s
            })
        },
{
}

/// The admin can disallow any token, allowed before or not.
pub proof fn lemma_remove_allowed_token(
    env: &mut WalletEnv,
    admin: Address,
    token_id: Address,
    r: Result<(), WalletError>,
)
    requires
        call_ensures(GlobeWallet::remove_allowed_token, (env, admin, token_id), r),
    ensures
        set_by_admin(old(env)@, final(env)@, admin, r),
        r is Ok ==> {
            let (s, n) = (old(env)@, final(env)@);
            &&& n.allowed_tokens == s.allowed_tokens.remove(token_id)
            &&& n.events == s.events.push(Event::AllowedTokenRemoved { admin, token_id })
            &&& n.ttl_extensions == s.ttl_extensions.push(wallet_alive())
            &&& n == (WalletView {
                allowed_tokens: n.allowed_tokens,
                events: n.events,
                ttl_extensions: n.ttl_extensions,
                ..s
            })
        },
{
}

/// The token wrapper and the tokens that are read are those that are kept.
pub proof fn lemma_payments_are_read(
    env: &WalletEnv,
    token_id: Address,
    wrapper: Option<Address>,
    allowed: bool,
)
    ensures
        call_ensures(GlobeWallet::get_token_wrapper, (env,), wrapper) ==> wrapper
            == env@.token_wrapper,
        call_ensures(GlobeWallet::is_token_allowed, (env, token_id), allowed) ==> (allowed
            <==> env@.allowed_tokens.contains_key(token_id)),
        call_requires(GlobeWallet::get_token_wrapper, (env,)),
        call_requires(GlobeWallet::is_token_allowed, (env, token_id)),
{
}

/// A payment that was refused.
pub open spec fn refused(e: WalletError) -> Result<PendingSend, WalletError> {
    Err(e)
}

/// A user can pay with every token that is allowed, once a token wrapper is set,
/// whatever could be recorded as a spend. The spend is counted as a recorded one
/// is, and the call that is then to be made is on the token wrapper that is set,
/// for the wallet as the spender, from the user to the payee, of just that token
/// and amount.
pub proof fn lemma_send(
    env: &mut WalletEnv,
    user: Address,
    token_id: Address,
    asset: AssetInfo,
    to: Address,
    amount: i128,
    i: int,
    r: Result<PendingSend, WalletError>,
)
    requires
        call_ensures(GlobeWallet::send, (env, user, token_id, asset, to, amount), r),
    ensures
        ({
            let (s, n) = (old(env)@, final(env)@);
            let list = list_entry(s, user);
            let allowed = s.allowed_tokens.contains_key(token_id);
            &&& r == refused(WalletError::TokenNotAllowed) <==> !allowed
            &&& r == refused(WalletError::InvalidSpendLimit) <==> allowed && amount <= 0
            &&& r == refused(WalletError::AssetNotFound) <==> allowed && amount > 0 && !stands_in(
                list,
                asset@,
            )
            &&& r is Err ==> n == s
        }),
        stands_first(list_entry(old(env)@, user), asset@, i) && amount > 0 && old(
            env,
        )@.allowed_tokens.contains_key(token_id) ==> {
            let (s, n) = (old(env)@, final(env)@);
            let kept = list_entry(s, user)[i];
            let limit = limit_entry(s, user, kept);
            let total = spent_entry(s, user, kept) + amount;
            let within = limit == 0 || total <= limit;
            &&& r is Ok <==> within && s.token_wrapper is Some
            &&& r == refused(WalletError::TokenWrapperNotSet) <==> within
                && s.token_wrapper is None
            &&& r == refused(WalletError::SpendOverflow) <==> limit != 0 && total
                > 170141183460469231731687303715884105727
            &&& r == refused(WalletError::SpendLimitExceeded) <==> limit != 0 && limit < total
                <= 170141183460469231731687303715884105727
            &&& r matches Ok(pending) ==> {
                &&& spend_counted(s, n, user, kept, amount)
                &&& pending.initial_state() == s
                &&& pending.recorded_state() == n
                &&& pending.transfer_request() == (TransferRequest {
                    wrapper: s.token_wrapper.unwrap(),
                    spender: s.contract,
                    token_id,
                    from: user,
                    to,
                    amount,
                })
            }
        },
{
    let s = old(env)@;
    lemma_what_is_found(list_entry(s, user), asset@);
    if stands_first(list_entry(s, user), asset@, i) && r is Ok {
        assert(final(env)@.events.drop_last() =~= s.events || limit_entry(
            s,
            user,
            list_entry(s, user)[i],
        ) == 0);
    }
}

/// The call that is handed out is the one of the payment.
pub proof fn lemma_requested(pending: &PendingSend, r: TransferRequest)
    requires
        call_ensures(PendingSend::request, (pending,), r),
    ensures
        r == pending.transfer_request(),
{
}

/// A payment whose tokens moved stands. Any other fails, for whatever reason the
/// tokens did not move, and leaves the wallet as it was before the payment.
pub proof fn lemma_settle_send(
    env: &mut WalletEnv,
    pending: PendingSend,
    outcome: TransferOutcome,
    r: Result<(), WalletError>,
)
    requires
        call_ensures(GlobeWallet::settle_send, (env, pending, outcome), r),
    ensures
        r is Ok <==> outcome is Completed,
        r is Ok ==> final(env)@ == old(env)@,
        r is Err ==> r == Err::<(), WalletError>(WalletError::TokenTransferFailed) && final(env)@
            == pending.initial_state(),
{
}

/// Who has authorized a call can make it, and a payment of a token that is not
/// allowed takes nobody's authorization to be refused. Every payment can be
/// settled in the state in which it was recorded.
pub proof fn lemma_payment_calls_are_open(
    env: &mut WalletEnv,
    who: Address,
    other: Address,
    asset: AssetInfo,
    to: Address,
    amount: i128,
    pending: PendingSend,
    outcome: TransferOutcome,
)
    ensures
        old(env)@.signers.contains(who) ==> {
            &&& call_requires(GlobeWallet::set_token_wrapper, (env, who, other))
            &&& call_requires(GlobeWallet::add_allowed_token, (env, who, other))
            &&& call_requires(GlobeWallet::remove_allowed_token, (env, who, other))
        },
        old(env)@.signers.contains(who) || !old(env)@.allowed_tokens.contains_key(other)
            ==> call_requires(GlobeWallet::send, (env, who, other, asset, to, amount)),
        old(env)@ == pending.recorded_state() ==> call_requires(
            GlobeWallet::settle_send,
            (env, pending, outcome),
        ),
{
}

} // verus!
