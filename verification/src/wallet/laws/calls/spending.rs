//! Laws of the calls on daily limits.

use vstd::prelude::*;

use crate::address::Address;
use crate::asset::AssetInfo;
use crate::wallet::env::WalletEnv;
use crate::wallet::error::WalletError;
use crate::wallet::laws::calls::assets::lemma_what_is_found;
use crate::wallet::laws::calls::terms::{
    entry_alive, limit_entry, list_entry, record_alive, spent_entry, stands_first, stands_in,
    wallet_alive,
};
use crate::wallet::model::{Asset, WalletView};
use crate::wallet::types::{DataKey, Event};
use crate::wallet::GlobeWallet;

verus! {

/// A user can set any limit of 0 or more on an asset of the list, in whatever
/// casing, unless more has been spent today; 0, which is no limit, at any time.
/// The limit is then kept for the asset, and none for its code alone.
pub proof fn lemma_set_spend_limit(
    env: &mut WalletEnv,
    user: Address,
    asset: AssetInfo,
    limit: i128,
    i: int,
    r: Result<(), WalletError>,
)
    requires
        call_ensures(GlobeWallet::set_spend_limit, (env, user, asset, limit), r),
    ensures
        ({
            let (s, n) = (old(env)@, final(env)@);
            let list = list_entry(s, user);
            &&& r == Err::<(), WalletError>(WalletError::InvalidSpendLimit) <==> limit < 0
            &&& r == Err::<(), WalletError>(WalletError::AssetNotFound) <==> limit >= 0
                && !stands_in(list, asset@)
            &&& r is Err ==> n == s
        }),
        stands_first(list_entry(old(env)@, user), asset@, i) ==> {
            let (s, n) = (old(env)@, final(env)@);
            let kept = list_entry(s, user)[i];
            let spent = spent_entry(s, user, kept);
            &&& r is Ok <==> limit == 0 || (limit > 0 && spent <= limit)
            &&& r == Err::<(), WalletError>(WalletError::SpendLimitExceeded) <==> limit > 0 && spent
                > limit
            &&& r is Ok ==> {
                &&& n.spend_limits == s.spend_limits.insert((user, kept), limit)
                &&& n.legacy_spend_limits == s.legacy_spend_limits.remove((user, kept.code))
                &&& n.events == s.events.push(
                    Event::SpendLimitSet { user, code: kept.code, limit },
                )
                &&& n.ttl_extensions == s.ttl_extensions.push(wallet_alive()).push(
                    entry_alive(DataKey::SpendLimit(user, kept)),
                )
                &&& n == (WalletView {
                    spend_limits: n.spend_limits,
                    legacy_spend_limits: n.legacy_spend_limits,
                    events: n.events,
                    ttl_extensions: n.ttl_extensions,
                    ..s
                })
            }
        },
{
    lemma_what_is_found(list_entry(old(env)@, user), asset@);
}

/// The limit that is read is the one in force for the asset that is named, in
/// whatever casing, and 0 for an asset that is not in the list.
pub proof fn lemma_get_spend_limit(
    env: &WalletEnv,
    user: Address,
    asset: AssetInfo,
    i: int,
    r: i128,
)
    requires
        call_ensures(GlobeWallet::get_spend_limit, (env, user, asset), r),
    ensures
        !stands_in(list_entry(env@, user), asset@) ==> r == 0,
        stands_first(list_entry(env@, user), asset@, i) ==> r == limit_entry(
            env@,
            user,
            list_entry(env@, user)[i],
        ),
        call_requires(GlobeWallet::get_spend_limit, (env, user, asset)),
{
    lemma_what_is_found(list_entry(env@, user), asset@);
}

/// What a spend that is let through changes: without a limit nothing but the
/// lifetime of the wallet's entry; under one the day's record, which then holds
/// what was spent before and the amount, and the record for the code alone, which
/// goes.
pub open spec fn spend_counted(
    s: WalletView,
    n: WalletView,
    user: Address,
    kept: Asset,
    amount: i128,
) -> bool {
    let limit = limit_entry(s, user, kept);
    let total = spent_entry(s, user, kept) + amount;
    if limit == 0 {
        n == (WalletView { ttl_extensions: s.ttl_extensions.push(wallet_alive()), ..s })
    } else {
        let record = n.daily_spent[(user, kept)];
        &&& record.amount == total
        &&& record.day == s.timestamp as int / 86_400
        &&& n.daily_spent == s.daily_spent.insert((user, kept), record)
        &&& n.legacy_daily_spent == s.legacy_daily_spent.remove((user, kept.code))
        &&& n.events.len() == s.events.len() + 1
        &&& n.events.drop_last() == s.events
        &&& n.events.last() matches Event::SpendRecorded {
            user: u,
            code,
            amount: a,
            spent_today,
            limit: l,
        } && u == user && code == kept.code && a == amount && spent_today == total && l == limit
        &&& n.ttl_extensions == s.ttl_extensions.push(wallet_alive()).push(
            record_alive(DataKey::DailySpent(user, kept)),
        )
        &&& n == (WalletView {
            daily_spent: n.daily_spent,
            legacy_daily_spent: n.legacy_daily_spent,
            events: n.events,
            ttl_extensions: n.ttl_extensions,
            ..s
        })
    }
}

/// A user can spend any positive amount of an asset of the list, in whatever
/// casing, as long as it has no limit or the day's total stays within it.
pub proof fn lemma_record_spend(
    env: &mut WalletEnv,
    user: Address,
    asset: AssetInfo,
    amount: i128,
    i: int,
    r: Result<(), WalletError>,
)
    requires
        call_ensures(GlobeWallet::record_spend, (env, user, asset, amount), r),
    ensures
        ({
            let (s, n) = (old(env)@, final(env)@);
            let list = list_entry(s, user);
            &&& r == Err::<(), WalletError>(WalletError::InvalidSpendLimit) <==> amount <= 0
            &&& r == Err::<(), WalletError>(WalletError::AssetNotFound) <==> amount > 0
                && !stands_in(list, asset@)
            &&& r is Err ==> n == s
        }),
        stands_first(list_entry(old(env)@, user), asset@, i) && amount > 0 ==> {
            let (s, n) = (old(env)@, final(env)@);
            let kept = list_entry(s, user)[i];
            let limit = limit_entry(s, user, kept);
            let total = spent_entry(s, user, kept) + amount;
            &&& r is Ok <==> limit == 0 || total <= limit
            &&& r == Err::<(), WalletError>(WalletError::SpendOverflow) <==> limit != 0 && total
                > 170141183460469231731687303715884105727
            &&& r == Err::<(), WalletError>(WalletError::SpendLimitExceeded) <==> limit != 0
                && limit < total <= 170141183460469231731687303715884105727
            &&& r is Ok ==> spend_counted(s, n, user, kept, amount)
        },
{
    let s = old(env)@;
    lemma_what_is_found(list_entry(s, user), asset@);
    if stands_first(list_entry(s, user), asset@, i) && r is Ok {
        assert(final(env)@.events.drop_last() =~= s.events || limit_entry(
            s,
            user,
            list_entry(s, user)[i],
        ) == 0);
    }
}

/// A user who has authorized a call can make it.
pub proof fn lemma_spend_calls_are_open(
    env: &mut WalletEnv,
    user: Address,
    asset: AssetInfo,
    value: i128,
)
    requires
        old(env)@.signers.contains(user),
    ensures
        call_requires(GlobeWallet::set_spend_limit, (env, user, asset, value)),
        call_requires(GlobeWallet::record_spend, (env, user, asset, value)),
{
}

} // verus!
