//! Daily spend limits.
//!
//! A limit bounds what a user can spend of an asset in a day window. Windows
//! are the 86,400-second buckets of the ledger's clock, so the count starts
//! anew at midnight UTC.

use vstd::prelude::*;

use crate::address::Address;
use crate::asset::AssetInfo;
use crate::table::Stored;
use crate::wallet::assets::assets_of;
use crate::wallet::env::WalletEnv;
use crate::wallet::error::WalletError;
use crate::wallet::model::{
    WalletView, DAILY_SPENT_TTL_EXTEND_TO, DAILY_SPENT_TTL_THRESHOLD, PERSISTENT_TTL_EXTEND_TO,
    PERSISTENT_TTL_THRESHOLD, SECONDS_PER_DAY,
};
use crate::wallet::types::{DataKey, Event, SpendRecord};
use crate::wallet::{follows, GlobeWallet};

verus! {

/// The registered form of an asset of a user, if the user has registered it.
pub(crate) fn find_user_asset(env: &WalletEnv, user: Address, asset: &AssetInfo) -> (r: Option<
    AssetInfo,
>)
    ensures
        match r {
            Some(kept) => env@.registered(user, asset@) == Some(kept@),
            None => env@.registered(user, asset@) is None,
        },
{
    assets_of(env, user).find(asset)
}

/// The limit kept for a registered asset.
fn limit_kept(env: &WalletEnv, user: Address, kept: &AssetInfo) -> (r: i128)
    ensures
        r == env@.limit_kept(user, kept@),
{
    match env.spend_limits.get(&(user, kept.duplicate())) {
        Some(limit) => *limit,
        None => match env.legacy_spend_limits.get(&(user, kept.code.duplicate())) {
            Some(limit) => *limit,
            None => 0,
        },
    }
}

/// What a user has spent of a registered asset in the current day window.
fn spent_today(env: &WalletEnv, user: Address, kept: &AssetInfo) -> (r: i128)
    ensures
        r == env@.spent_today(user, kept@),
{
    let day: u64 = env.timestamp / SECONDS_PER_DAY;
    let record = match env.daily_spent.get(&(user, kept.duplicate())) {
        Some(record) => *record,
        None => match env.legacy_daily_spent.get(&(user, kept.code.duplicate())) {
            Some(record) => *record,
            None => SpendRecord { amount: 0, day },
        },
    };
    if record.day == day {
        record.amount
    } else {
        0
    }
}

/// What a spend comes to, once it has passed every check.
pub(crate) struct Spend {
    /// The registered form of the asset.
    pub kept: AssetInfo,
    pub limit: i128,
    /// The day's total with this spend; 0 where there is no limit to count
    /// against.
    pub total: i128,
}

impl WalletView {
    /// The spend passes every check, and comes to this.
    pub(crate) open spec fn spend_passes(
        self,
        user: Address,
        asset: AssetInfo<Seq<u8>>,
        amount: i128,
        spend: Spend,
    ) -> bool {
        &&& amount > 0
        &&& self.registered(user, asset) == Some(spend.kept@)
        &&& spend.limit == self.limit_kept(user, spend.kept@)
        &&& spend.limit != 0 ==> {
            &&& spend.total == self.spent_today(user, spend.kept@) + amount
            &&& spend.total <= spend.limit
        }
    }
}

/// Checks a spend against the limit, without recording it.
pub(crate) fn check_spend(
    env: &WalletEnv,
    user: Address,
    asset: &AssetInfo,
    amount: i128,
) -> (r: Result<Spend, WalletError>)
    ensures
        match r {
            Ok(spend) => env@.record_spend(user, asset@, amount) is Ok && env@.spend_passes(
                user,
                asset@,
                amount,
                spend,
            ),
            Err(e) => env@.record_spend(user, asset@, amount) == Err::<WalletView, WalletError>(e),
        },
{
    if amount <= 0 {
        return Err(WalletError::InvalidSpendLimit);
    }
    let kept = match find_user_asset(env, user, asset) {
        None => return Err(WalletError::AssetNotFound),
        Some(kept) => kept,
    };
    let limit: i128 = limit_kept(env, user, &kept);
    if limit == 0 {
        return Ok(Spend { kept, limit, total: 0 });
    }
    let total: i128 = match spent_today(env, user, &kept).checked_add(amount) {
        None => return Err(WalletError::SpendOverflow),
        Some(total) => total,
    };
    if total > limit {
        return Err(WalletError::SpendLimitExceeded);
    }
    Ok(Spend { kept, limit, total })
}

/// Records a spend that has passed every check.
pub(crate) fn commit_spend(
    env: &mut WalletEnv,
    user: Address,
    Ghost(asset): Ghost<AssetInfo<Seq<u8>>>,
    amount: i128,
    spend: Spend,
)
    requires
        old(env)@.spend_passes(user, asset, amount, spend),
    ensures
        old(env)@.record_spend(user, asset, amount) == Ok::<WalletView, WalletError>(final(env)@),
{
    if spend.limit == 0 {
        env.bump_instance_ttl();
        return;
    }
    let day: u64 = env.timestamp / SECONDS_PER_DAY;
    env.daily_spent.set((user, spend.kept.duplicate()), SpendRecord { amount: spend.total, day });
    env.legacy_daily_spent.remove(&(user, spend.kept.code.duplicate()));
    env.bump_instance_ttl();
    env.extend_ttl(
        DataKey::DailySpent(user, spend.kept.duplicate()),
        DAILY_SPENT_TTL_THRESHOLD,
        DAILY_SPENT_TTL_EXTEND_TO,
    );
    env.emit(
        Event::SpendRecorded {
            user,
            code: spend.kept.code,
            amount,
            spent_today: spend.total,
            limit: spend.limit,
        },
    );
}

impl GlobeWallet {
    /// A user sets the daily limit for a registered asset; 0 removes it. A
    /// limit below what was already spent today is refused.
    pub fn set_spend_limit(
        env: &mut WalletEnv,
        user: Address,
        asset: AssetInfo,
        limit: i128,
    ) -> (r: Result<(), WalletError>)
        requires
            old(env)@.authorized(user),
        ensures
            follows(old(env)@.set_spend_limit(user, asset@, limit), old(env)@, r, final(env)@),
    {
        if limit < 0 {
            return Err(WalletError::InvalidSpendLimit);
        }
        let kept = match find_user_asset(env, user, &asset) {
            None => return Err(WalletError::AssetNotFound),
            Some(kept) => kept,
        };
        if limit != 0 && spent_today(env, user, &kept) > limit {
            return Err(WalletError::SpendLimitExceeded);
        }
        env.spend_limits.set((user, kept.duplicate()), limit);
        env.legacy_spend_limits.remove(&(user, kept.code.duplicate()));
        env.bump_instance_ttl();
        env.extend_ttl(
            DataKey::SpendLimit(user, kept.duplicate()),
            PERSISTENT_TTL_THRESHOLD,
            PERSISTENT_TTL_EXTEND_TO,
        );
        env.emit(Event::SpendLimitSet { user, code: kept.code, limit });
        Ok(())
    }

    /// The daily limit of a user for an asset; 0 where there is none.
    pub fn get_spend_limit(env: &WalletEnv, user: Address, asset: AssetInfo) -> (r: i128)
        ensures
            r == env@.spend_limit(user, asset@),
    {
        match find_user_asset(env, user, &asset) {
            Some(kept) => limit_kept(env, user, &kept),
            None => 0,
        }
    }

    /// Counts a spend against the daily limit, and refuses it where the day's
    /// total would exceed the limit.
    ///
    /// The amount must be positive: a signature proves who is spending, not
    /// that the amount is sound, and a negative one would undo earlier spends.
    pub fn record_spend(
        env: &mut WalletEnv,
        user: Address,
        asset: AssetInfo,
        amount: i128,
    ) -> (r: Result<(), WalletError>)
        requires
            old(env)@.authorized(user),
        ensures
            follows(old(env)@.record_spend(user, asset@, amount), old(env)@, r, final(env)@),
    {
        match check_spend(env, user, &asset, amount) {
            Err(e) => Err(e),
            Ok(spend) => {
                commit_spend(env, user, Ghost(asset@), amount, spend);
                Ok(())
            },
        }
    }
}

} // verus!
