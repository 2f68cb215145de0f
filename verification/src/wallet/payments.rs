//! Payments through the token wrapper.
//!
//! A payment makes every check and every change to the wallet's own state
//! before the token wrapper is called. Where the wrapper does not complete the
//! transfer, nothing of the payment stays.

use vstd::prelude::*;

use crate::address::Address;
use crate::asset::AssetInfo;
use crate::table::Stored;
use crate::wallet::admin::require_admin;
use crate::wallet::env::{event_views, ttl_views, WalletEnv};
use crate::wallet::error::WalletError;
use crate::wallet::model::{
    Asset, WalletView, PERSISTENT_TTL_EXTEND_TO, PERSISTENT_TTL_THRESHOLD,
};
use crate::wallet::spending::{check_spend, commit_spend};
use crate::wallet::types::{DataKey, Event, SpendRecord};
use crate::wallet::{follows, GlobeWallet};
use crate::wrapper::types::WrapperError;

verus! {

/// The call that a payment makes on the token wrapper.
#[derive(Clone, Copy, Debug, PartialEq, Eq, Structural)]
pub struct TransferRequest {
    /// The token wrapper to call.
    pub wrapper: Address,
    /// Whose allowance is spent: the wallet's own.
    pub spender: Address,
    pub token_id: Address,
    pub from: Address,
    pub to: Address,
    pub amount: i128,
}

/// What came of a call on the token wrapper.
#[derive(Clone, Copy, Debug, PartialEq, Eq, Structural)]
pub enum TransferOutcome {
    /// The tokens have moved.
    Completed,
    /// The wrapper refused the call.
    Rejected(WrapperError),
    /// The call could not be carried out.
    Failed,
}

/// A payment that the wallet has recorded and that the token wrapper has yet
/// to carry out.
pub struct PendingSend {
    call: TransferRequest,
    /// The registered form of the asset.
    kept: AssetInfo,
    /// The spend record of the asset before the payment.
    spent: Option<SpendRecord>,
    /// The spend record kept by its code alone before the payment.
    legacy_spent: Option<SpendRecord>,
    /// How many requests to keep entries alive there were before it.
    extensions: usize,
    /// How many events there were before it.
    events: usize,
    /// The state before the payment.
    initial: Ghost<WalletView>,
    /// The state in which the token wrapper is called.
    recorded: Ghost<WalletView>,
}

impl PendingSend {
    /// The call to make on the token wrapper.
    pub closed spec fn transfer_request(self) -> TransferRequest {
        self.call
    }

    /// The state before the payment.
    pub closed spec fn initial_state(self) -> WalletView {
        self.initial@
    }

    /// The state in which the token wrapper is called.
    pub closed spec fn recorded_state(self) -> WalletView {
        self.recorded@
    }

    #[verifier::type_invariant]
    spec fn can_be_undone(self) -> bool {
        let initial = self.initial@;
        let recorded = self.recorded@;
        let key = (self.call.from, self.kept@);
        let legacy_key = (self.call.from, self.kept@.code);
        &&& recorded.daily_spent.remove(key) == initial.daily_spent.remove(key)
        &&& recorded.legacy_daily_spent.remove(legacy_key) == initial.legacy_daily_spent.remove(
            legacy_key,
        )
        &&& self.spent == (if initial.daily_spent.contains_key(key) {
            Some(initial.daily_spent[key])
        } else {
            None
        })
        &&& self.legacy_spent == (if initial.legacy_daily_spent.contains_key(legacy_key) {
            Some(initial.legacy_daily_spent[legacy_key])
        } else {
            None
        })
        &&& self.extensions == initial.ttl_extensions.len()
        &&& initial.ttl_extensions.is_prefix_of(recorded.ttl_extensions)
        &&& self.events == initial.events.len()
        &&& initial.events.is_prefix_of(recorded.events)
        &&& recorded == (WalletView {
            daily_spent: recorded.daily_spent,
            legacy_daily_spent: recorded.legacy_daily_spent,
            ttl_extensions: recorded.ttl_extensions,
            events: recorded.events,
            ..initial
        })
    }

    /// The call to make on the token wrapper.
    pub fn request(&self) -> (r: TransferRequest)
        ensures
            r == self.transfer_request(),
    {
        self.call
    }
}

/// A value and its being put back.
proof fn lemma_put_back<K, V>(before: Map<K, V>, after: Map<K, V>, key: K)
    requires
        after.remove(key) == before.remove(key),
    ensures
        before.contains_key(key) ==> after.insert(key, before[key]) == before,
        !before.contains_key(key) ==> after.remove(key) == before,
{
    assert(after.dom().remove(key) == after.remove(key).dom());
    assert(before.dom().remove(key) == before.remove(key).dom());
    assert forall|k: K| k != key implies (#[trigger] after.dom().contains(k)
        == before.dom().contains(k)) by {
        assert(after.dom().remove(key).contains(k) == after.dom().contains(k));
        assert(before.dom().remove(key).contains(k) == before.dom().contains(k));
    }
    assert forall|k: K| k != key implies #[trigger] after[k] == before[k] by {
        assert(after.remove(key)[k] == after[k]);
        assert(before.remove(key)[k] == before[k]);
    }
    if before.contains_key(key) {
        assert(after.insert(key, before[key]) =~= before);
    } else {
        assert(after.remove(key) =~= before);
    }
}

/// What a spend changes: the records of the asset, and what the call asks the
/// ledger to do.
proof fn lemma_spend_changes(state: WalletView, user: Address, asset: Asset, amount: i128)
    requires
        state.record_spend(user, asset, amount) is Ok,
    ensures
        state.registered(user, asset) is Some,
        ({
            let kept = state.registered(user, asset).unwrap();
            let after = state.record_spend(user, asset, amount).unwrap();
            &&& after.daily_spent.remove((user, kept)) == state.daily_spent.remove((user, kept))
            &&& after.legacy_daily_spent.remove((user, kept.code))
                == state.legacy_daily_spent.remove((user, kept.code))
            &&& state.ttl_extensions.is_prefix_of(after.ttl_extensions)
            &&& state.events.is_prefix_of(after.events)
            &&& after == (WalletView {
                daily_spent: after.daily_spent,
                legacy_daily_spent: after.legacy_daily_spent,
                ttl_extensions: after.ttl_extensions,
                events: after.events,
                ..state
            })
        }),
{
    let kept = state.registered(user, asset).unwrap();
    let after = state.record_spend(user, asset, amount).unwrap();
    assert(after.daily_spent.remove((user, kept)) =~= state.daily_spent.remove((user, kept)));
    assert(after.legacy_daily_spent.remove((user, kept.code))
        =~= state.legacy_daily_spent.remove((user, kept.code)));
}

impl GlobeWallet {
    /// The admin sets the token wrapper through which payments are made.
    pub fn set_token_wrapper(
        env: &mut WalletEnv,
        admin: Address,
        token_wrapper_id: Address,
    ) -> (r: Result<(), WalletError>)
        requires
            old(env)@.authorized(admin),
        ensures
            follows(
                old(env)@.set_token_wrapper(admin, token_wrapper_id),
                old(env)@,
                r,
                final(env)@,
            ),
    {
        match require_admin(env, admin) {
            Err(e) => return Err(e),
            Ok(()) => {},
        }
        env.token_wrapper = Some(token_wrapper_id);
        env.bump_instance_ttl();
        env.emit(Event::TokenWrapperSet { admin, token_wrapper_id });
        Ok(())
    }

    /// The token wrapper through which payments are made, if one is set.
    pub fn get_token_wrapper(env: &WalletEnv) -> (r: Option<Address>)
        ensures
            r == env@.token_wrapper,
    {
        env.token_wrapper
    }

    /// The admin allows payments to move a token.
    pub fn add_allowed_token(env: &mut WalletEnv, admin: Address, token_id: Address) -> (r: Result<
        (),
        WalletError,
    >)
        requires
            old(env)@.authorized(admin),
        ensures
            follows(old(env)@.add_allowed_token(admin, token_id), old(env)@, r, final(env)@),
    {
        match require_admin(env, admin) {
            Err(e) => return Err(e),
            Ok(()) => {},
        }
        env.allowed_tokens.set(token_id, ());
        env.extend_ttl(
            DataKey::AllowedToken(token_id),
            PERSISTENT_TTL_THRESHOLD,
            PERSISTENT_TTL_EXTEND_TO,
        );
        env.bump_instance_ttl();
        env.emit(Event::AllowedTokenAdded { admin, token_id });
        Ok(())
    }

    /// The admin no longer allows payments to move a token.
    pub fn remove_allowed_token(
        env: &mut WalletEnv,
        admin: Address,
        token_id: Address,
    ) -> (r: Result<(), WalletError>)
        requires
            old(env)@.authorized(admin),
        ensures
            follows(old(env)@.remove_allowed_token(admin, token_id), old(env)@, r, final(env)@),
    {
        match require_admin(env, admin) {
            Err(e) => return Err(e),
            Ok(()) => {},
        }
        env.allowed_tokens.remove(&token_id);
        env.bump_instance_ttl();
        env.emit(Event::AllowedTokenRemoved { admin, token_id });
        Ok(())
    }

    /// Whether payments may move a token.
    pub fn is_token_allowed(env: &WalletEnv, token_id: Address) -> (r: bool)
        ensures
            r == env@.token_allowed(token_id),
    {
        env.allowed_tokens.has(&token_id)
    }

    /// A user pays: the spend is counted against the daily limit, and the
    /// tokens then move through the token wrapper.
    ///
    /// This does the wallet's own part. The caller then makes the call on the
    /// token wrapper that it returns, and settles the payment with
    /// [`GlobeWallet::settle_send`]. A token that is not allowed is refused
    /// before the user is asked to have signed.
    pub fn send(
        env: &mut WalletEnv,
        user: Address,
        token_id: Address,
        asset: AssetInfo,
        to: Address,
        amount: i128,
    ) -> (r: Result<PendingSend, WalletError>)
        requires
            old(env)@.token_allowed(token_id) ==> old(env)@.authorized(user),
        ensures
            follows(old(env)@.send(user, token_id, asset@, amount), old(env)@, r, final(env)@),
            r matches Ok(pending) ==> {
                let call = pending.transfer_request();
                &&& Some(call.wrapper) == old(env)@.token_wrapper
                &&& call.spender == old(env)@.contract
                &&& call.token_id == token_id
                &&& call.from == user
                &&& call.to == to
                &&& call.amount == amount
                &&& pending.initial_state() == old(env)@
                &&& pending.recorded_state() == final(env)@
            },
    {
        if !Self::is_token_allowed(env, token_id) {
            return Err(WalletError::TokenNotAllowed);
        }
        let spend = match check_spend(env, user, &asset, amount) {
            Err(e) => return Err(e),
            Ok(spend) => spend,
        };
        let wrapper = match env.token_wrapper {
            None => return Err(WalletError::TokenWrapperNotSet),
            Some(wrapper) => wrapper,
        };
        let ghost initial = env@;
        let kept = spend.kept.duplicate();
        let spent = match env.daily_spent.get(&(user, kept.duplicate())) {
            Some(record) => Some(*record),
            None => None,
        };
        let legacy_spent = match env.legacy_daily_spent.get(&(user, kept.code.duplicate())) {
            Some(record) => Some(*record),
            None => None,
        };
        let extensions: usize = env.ttl_extensions.len();
        let events: usize = env.events.len();
        commit_spend(env, user, Ghost(asset@), amount, spend);
        proof {
            lemma_spend_changes(initial, user, asset@, amount);
        }
        Ok(
            PendingSend {
                call: TransferRequest {
                    wrapper,
                    spender: env.contract,
                    token_id,
                    from: user,
                    to,
                    amount,
                },
                kept,
                spent,
                legacy_spent,
                extensions,
                events,
                initial: Ghost(initial),
                recorded: Ghost(env@),
            },
        )
    }

    /// Settles a payment by what came of the call on the token wrapper. Where
    /// the tokens did not move, nothing of the payment stays.
    pub fn settle_send(
        env: &mut WalletEnv,
        pending: PendingSend,
        outcome: TransferOutcome,
    ) -> (r: Result<(), WalletError>)
        requires
            old(env)@ == pending.recorded_state(),
        ensures
            match outcome {
                TransferOutcome::Completed => r == Ok::<(), WalletError>(()) && final(env)@ == old(
                    env,
                )@,
                _ => r == Err::<(), WalletError>(WalletError::TokenTransferFailed) && final(env)@
                    == pending.initial_state(),
            },
    {
        match outcome {
            TransferOutcome::Completed => Ok(()),
            TransferOutcome::Rejected(_) | TransferOutcome::Failed => {
                Self::undo_send(env, pending);
                Err(WalletError::TokenTransferFailed)
            },
        }
    }

    /// Takes a payment back out of the wallet's state.
    fn undo_send(env: &mut WalletEnv, pending: PendingSend)
        requires
            old(env)@ == pending.recorded_state(),
        ensures
            final(env)@ == pending.initial_state(),
    {
        proof {
            use_type_invariant(&pending);
        }
        let ghost initial = pending.initial@;
        let ghost recorded = pending.recorded@;
        let user = pending.call.from;
        let key = (user, pending.kept.duplicate());
        let legacy_key = (user, pending.kept.code.duplicate());
        proof {
            lemma_put_back(initial.daily_spent, recorded.daily_spent, key@);
            lemma_put_back(initial.legacy_daily_spent, recorded.legacy_daily_spent, legacy_key@);
        }
        match pending.spent {
            Some(record) => env.daily_spent.set(key, record),
            None => env.daily_spent.remove(&key),
        }
        match pending.legacy_spent {
            Some(record) => env.legacy_daily_spent.set(legacy_key, record),
            None => env.legacy_daily_spent.remove(&legacy_key),
        }
        env.ttl_extensions.truncate(pending.extensions);
        env.events.truncate(pending.events);
        proof {
            assert(ttl_views(env.ttl_extensions@) =~= initial.ttl_extensions);
            assert(event_views(env.events@) =~= initial.events);
            assert(env@ =~= initial);
        }
    }
}

} // verus!
