//! Moving a wallet's records from older layouts.
//!
//! Limits and spend records used to be kept by asset code alone, and asset
//! lists used to have no cap.

use vstd::prelude::*;

use crate::address::Address;
use crate::asset::{copy_first_assets, AssetInfo, AssetList};
use crate::lists::lemma_pushed;
use crate::table::Stored;
use crate::wallet::admin::require_admin;
use crate::wallet::assets::{assets_of, set_assets};
use crate::wallet::env::WalletEnv;
use crate::wallet::error::WalletError;
use crate::wallet::model::{
    asset_keys, code_keys, has_code, heads_code, Asset, WalletView, DAILY_SPENT_TTL_EXTEND_TO,
    DAILY_SPENT_TTL_THRESHOLD, PERSISTENT_TTL_EXTEND_TO, PERSISTENT_TTL_THRESHOLD,
    SECONDS_PER_DAY,
};
use crate::wallet::types::{DataKey, Event};
use crate::wallet::{follows, GlobeWallet};

verus! {

impl WalletView {
    /// The state with a limit kept by code alone moved to an asset.
    pub(crate) open spec fn move_limit(self, user: Address, asset: Asset) -> Self {
        if !self.legacy_spend_limits.contains_key((user, asset.code)) {
            self
        } else {
            let cleared = WalletView {
                legacy_spend_limits: self.legacy_spend_limits.remove((user, asset.code)),
                ..self
            };
            if self.spend_limits.contains_key((user, asset)) {
                cleared
            } else {
                WalletView {
                    spend_limits: self.spend_limits.insert(
                        (user, asset),
                        self.legacy_spend_limits[(user, asset.code)],
                    ),
                    ..cleared
                }.extend_ttl(
                    DataKey::SpendLimit(user, asset),
                    PERSISTENT_TTL_THRESHOLD,
                    PERSISTENT_TTL_EXTEND_TO,
                )
            }
        }
    }

    /// The state with a spend record kept by code alone moved to an asset.
    pub(crate) open spec fn move_spend(self, user: Address, asset: Asset) -> Self {
        if !self.legacy_daily_spent.contains_key((user, asset.code)) {
            self
        } else {
            let cleared = WalletView {
                legacy_daily_spent: self.legacy_daily_spent.remove((user, asset.code)),
                ..self
            };
            let record = self.legacy_daily_spent[(user, asset.code)];
            if self.daily_spent.contains_key((user, asset)) || record.day != self.day() {
                cleared
            } else {
                WalletView {
                    daily_spent: self.daily_spent.insert((user, asset), record),
                    ..cleared
                }.extend_ttl(
                    DataKey::DailySpent(user, asset),
                    DAILY_SPENT_TTL_THRESHOLD,
                    DAILY_SPENT_TTL_EXTEND_TO,
                )
            }
        }
    }

    /// The state after the migration of the first n assets of a user.
    pub(crate) open spec fn migrated_prefix(self, user: Address, n: int) -> Self {
        let assets = self.assets_of(user).take(n);
        WalletView {
            spend_limits: self.migrated_limits(user, assets),
            daily_spent: self.migrated_spends(user, assets),
            legacy_spend_limits: self.legacy_spend_limits.remove_keys(code_keys(user, assets)),
            legacy_daily_spent: self.legacy_daily_spent.remove_keys(code_keys(user, assets)),
            ttl_extensions: self.ttl_extensions + self.migration_extensions(user, n),
            ..self
        }
    }
}

/// The codes of a list with one more asset.
proof fn lemma_codes_pushed(list: Seq<Asset>, asset: Asset)
    ensures
        forall|code: Seq<u8>| #[trigger]
            has_code(list.push(asset), code) == (has_code(list, code) || asset.code == code),
{
    let longer = list.push(asset);
    assert forall|code: Seq<u8>| #[trigger] has_code(longer, code) == (has_code(list, code)
        || asset.code == code) by {
        assert(longer[list.len() as int] == asset);
        if has_code(list, code) {
            let i = choose|i: int| 0 <= i < list.len() && (#[trigger] list[i]).code == code;
            assert(longer[i].code == code);
        }
        if has_code(longer, code) && asset.code != code {
            let i = choose|i: int| 0 <= i < longer.len() && (#[trigger] longer[i]).code == code;
            assert(list[i].code == code);
        }
    }
}

/// The assets that head a code, in a list with one more asset.
proof fn lemma_heads_pushed(list: Seq<Asset>, asset: Asset)
    ensures
        forall|a: Asset| #[trigger]
            heads_code(list.push(asset), a) == (heads_code(list, a) || (a == asset && !has_code(
                list,
                asset.code,
            ))),
{
    let longer = list.push(asset);
    let n = list.len() as int;
    assert(longer.take(n) =~= list);
    assert forall|a: Asset| #[trigger] heads_code(longer, a) == (heads_code(list, a) || (a == asset
        && !has_code(list, asset.code))) by {
        if heads_code(list, a) {
            let i = choose|i: int|
                0 <= i < list.len() && #[trigger] list[i] == a && !has_code(list.take(i), a.code);
            assert(longer[i] == a);
            assert(longer.take(i) =~= list.take(i));
        }
        if a == asset && !has_code(list, asset.code) {
            assert(longer[n] == a);
        }
        if heads_code(longer, a) {
            let i = choose|i: int|
                0 <= i < longer.len() && #[trigger] longer[i] == a && !has_code(
                    longer.take(i),
                    a.code,
                );
            if i < n {
                assert(list[i] == a);
                assert(longer.take(i) =~= list.take(i));
            }
        }
    }
}

/// An asset that heads a code in a list has a code of the list.
pub(crate) proof fn lemma_head_has_code(list: Seq<Asset>, asset: Asset)
    requires
        heads_code(list, asset),
    ensures
        has_code(list, asset.code),
{
    let i = choose|i: int|
        0 <= i < list.len() && #[trigger] list[i] == asset && !has_code(list.take(i), asset.code);
    assert(list[i].code == asset.code);
}

/// Every code of a list has an asset that heads it.
pub(crate) proof fn lemma_some_asset_heads(list: Seq<Asset>, code: Seq<u8>)
    requires
        has_code(list, code),
    ensures
        exists|a: Asset| #[trigger] heads_code(list, a) && list.contains(a) && a.code == code,
    decreases list.len(),
{
    let front = list.drop_last();
    let last = list.last();
    assert(list =~= front.push(last));
    lemma_codes_pushed(front, last);
    lemma_heads_pushed(front, last);
    lemma_pushed(front, last);
    if has_code(front, code) {
        lemma_some_asset_heads(front, code);
        let a = choose|a: Asset| #[trigger]
            heads_code(front, a) && front.contains(a) && a.code == code;
        assert(heads_code(list, a));
    } else {
        assert(heads_code(list, last));
    }
}

/// Migrating one more asset moves its limit and its spend record.
proof fn lemma_prefix_step(state: WalletView, user: Address, n: int)
    requires
        0 <= n < state.assets_of(user).len(),
    ensures
        state.migrated_prefix(user, n + 1) == state.migrated_prefix(user, n).move_limit(
            user,
            state.assets_of(user)[n],
        ).move_spend(user, state.assets_of(user)[n]),
{
    let assets = state.assets_of(user);
    let asset = assets[n];
    let list = assets.take(n);
    assert(assets.take(n + 1) =~= list.push(asset));
    lemma_codes_pushed(list, asset);
    lemma_heads_pushed(list, asset);
    if heads_code(list, asset) {
        lemma_head_has_code(list, asset);
    }
    let before = state.migrated_prefix(user, n);
    let after = state.migrated_prefix(user, n + 1);
    let moved = before.move_limit(user, asset).move_spend(user, asset);
    assert(after.legacy_spend_limits =~= moved.legacy_spend_limits);
    assert(after.legacy_daily_spent =~= moved.legacy_daily_spent);
    assert(after.spend_limits =~= moved.spend_limits);
    assert(after.daily_spent =~= moved.daily_spent);
    assert(after.ttl_extensions =~= moved.ttl_extensions);
}

/// Moves the limit kept by an asset's code alone to the asset, unless the asset
/// has its own. Says whether there was one.
fn move_limit(env: &mut WalletEnv, user: Address, asset: &AssetInfo) -> (r: bool)
    ensures
        final(env)@ == old(env)@.move_limit(user, asset@),
        r == old(env)@.legacy_spend_limits.contains_key((user, asset@.code)),
{
    let legacy_key = (user, asset.code.duplicate());
    let limit: i128 = match env.legacy_spend_limits.get(&legacy_key) {
        None => return false,
        Some(limit) => *limit,
    };
    env.legacy_spend_limits.remove(&legacy_key);
    let key = (user, asset.duplicate());
    if !env.spend_limits.has(&key) {
        env.spend_limits.set(key, limit);
        env.extend_ttl(
            DataKey::SpendLimit(user, asset.duplicate()),
            PERSISTENT_TTL_THRESHOLD,
            PERSISTENT_TTL_EXTEND_TO,
        );
    }
    true
}

/// Moves the spend record kept by an asset's code alone to the asset, if it is
/// of the current day and the asset has none.
fn move_spend(env: &mut WalletEnv, user: Address, asset: &AssetInfo)
    ensures
        final(env)@ == old(env)@.move_spend(user, asset@),
{
    let legacy_key = (user, asset.code.duplicate());
    let record = match env.legacy_daily_spent.get(&legacy_key) {
        None => return,
        Some(record) => *record,
    };
    env.legacy_daily_spent.remove(&legacy_key);
    let key = (user, asset.duplicate());
    if !env.daily_spent.has(&key) && record.day == env.timestamp / SECONDS_PER_DAY {
        env.daily_spent.set(key, record);
        env.extend_ttl(
            DataKey::DailySpent(user, asset.duplicate()),
            DAILY_SPENT_TTL_THRESHOLD,
            DAILY_SPENT_TTL_EXTEND_TO,
        );
    }
}

impl WalletView {
    /// The state without what is kept for the assets of a list.
    pub(crate) open spec fn without_records(self, user: Address, list: Seq<Asset>) -> Self {
        WalletView {
            spend_limits: self.spend_limits.remove_keys(asset_keys(user, list)),
            daily_spent: self.daily_spent.remove_keys(asset_keys(user, list)),
            legacy_spend_limits: self.legacy_spend_limits.remove_keys(code_keys(user, list)),
            legacy_daily_spent: self.legacy_daily_spent.remove_keys(code_keys(user, list)),
            ..self
        }
    }

    /// The state without what is kept for an asset.
    pub(crate) open spec fn without_record(self, user: Address, asset: Asset) -> Self {
        WalletView {
            spend_limits: self.spend_limits.remove((user, asset)),
            daily_spent: self.daily_spent.remove((user, asset)),
            legacy_spend_limits: self.legacy_spend_limits.remove((user, asset.code)),
            legacy_daily_spent: self.legacy_daily_spent.remove((user, asset.code)),
            ..self
        }
    }
}

/// Dropping the records of one more asset.
proof fn lemma_without_one_more(state: WalletView, user: Address, list: Seq<Asset>, asset: Asset)
    ensures
        state.without_records(user, list.push(asset)) == state.without_records(
            user,
            list,
        ).without_record(user, asset),
{
    let longer = list.push(asset);
    lemma_codes_pushed(list, asset);
    lemma_pushed(list, asset);
    let after = state.without_records(user, longer);
    let stepped = state.without_records(user, list).without_record(user, asset);
    assert(after.spend_limits =~= stepped.spend_limits);
    assert(after.daily_spent =~= stepped.daily_spent);
    assert(after.legacy_spend_limits =~= stepped.legacy_spend_limits);
    assert(after.legacy_daily_spent =~= stepped.legacy_daily_spent);
}

/// Drops what is kept for an asset, by the asset and by its code alone.
fn drop_records(env: &mut WalletEnv, user: Address, asset: &AssetInfo)
    ensures
        final(env)@ == old(env)@.without_record(user, asset@),
{
    let key = (user, asset.duplicate());
    env.spend_limits.remove(&key);
    env.daily_spent.remove(&key);
    let legacy_key = (user, asset.code.duplicate());
    env.legacy_spend_limits.remove(&legacy_key);
    env.legacy_daily_spent.remove(&legacy_key);
}

impl GlobeWallet {
    /// Moves the limits and spend records of a user that are kept by asset code
    /// alone to the user's registered assets. Returns how many limits moved or
    /// gave way to an asset's own.
    pub fn migrate_spend_limits(env: &mut WalletEnv, user: Address) -> (r: Result<
        u32,
        WalletError,
    >)
        requires
            old(env)@.authorized(user),
            old(env)@.assets_of(user).len() <= u32::MAX,
        ensures
            final(env)@ == old(env)@.migrate_spend_limits(user),
            r matches Ok(count) && count == old(env)@.legacy_limit_count(user),
    {
        let assets = assets_of(env, user);
        let ghost state = env@;
        let ghost list = assets@;
        let mut count: u32 = 0;
        let mut i: usize = 0;
        proof {
            assert(list.take(0) =~= Seq::<Asset>::empty());
            assert(env@ =~= state.migrated_prefix(user, 0));
            assert(state.legacy_limit_codes(user, list.take(0)) =~= Set::<Seq<u8>>::empty());
        }
        while i < assets.items.len()
            invariant
                list == assets@,
                list == state.assets_of(user),
                list.len() <= u32::MAX,
                i <= assets.items.len(),
                env@ == state.migrated_prefix(user, i as int),
                count <= i,
                state.legacy_limit_codes(user, list.take(i as int)).finite(),
                count == state.legacy_limit_codes(user, list.take(i as int)).len(),
            decreases assets.items.len() - i,
        {
            let ghost before = state.legacy_limit_codes(user, list.take(i as int));
            let ghost asset = list[i as int];
            proof {
                lemma_prefix_step(state, user, i as int);
                assert(list.take(i + 1) =~= list.take(i as int).push(asset));
                lemma_codes_pushed(list.take(i as int), asset);
            }
            let moved = move_limit(env, user, &assets.items[i]);
            move_spend(env, user, &assets.items[i]);
            proof {
                let after = state.legacy_limit_codes(user, list.take(i + 1));
                if moved {
                    assert(after =~= before.insert(asset.code));
                } else {
                    assert(after =~= before);
                }
            }
            if moved {
                count += 1;
            }
            i += 1;
        }
        assert(list.take(i as int) =~= list);
        env.bump_instance_ttl();
        env.emit(Event::SpendLimitsMigrated { user, count });
        Ok(count)
    }

    /// The admin, with the user, cuts the user's asset list to the cap. Returns
    /// how many assets were cut.
    ///
    /// It takes both signatures: the admin's because it is a migration, the
    /// user's because the list is the user's own.
    pub fn migrate_user_assets(env: &mut WalletEnv, admin: Address, user: Address) -> (r: Result<
        u32,
        WalletError,
    >)
        requires
            old(env)@.authorized(admin),
            old(env)@.authorized(user),
            old(env)@.assets_of(user).len() <= u32::MAX,
        ensures
            follows(old(env)@.migrate_user_assets(admin, user), old(env)@, r, final(env)@),
            r matches Ok(removed) ==> removed == if old(env)@.assets_of(user).len()
                <= GlobeWallet::MAX_ASSETS {
                0
            } else {
                old(env)@.assets_of(user).len() - GlobeWallet::MAX_ASSETS
            },
    {
        match require_admin(env, admin) {
            Err(e) => return Err(e),
            Ok(()) => {},
        }
        let assets = assets_of(env, user);
        let cap: usize = GlobeWallet::MAX_ASSETS as usize;
        let len: usize = assets.items.len();
        if len <= cap {
            return Ok(0);
        }
        env.bump_instance_ttl();
        let ghost state = env@;
        let ghost list = assets@;
        let mut i: usize = cap;
        proof {
            assert(list.subrange(cap as int, cap as int) =~= Seq::<Asset>::empty());
            assert(env@ =~= state.without_records(user, Seq::empty()));
        }
        while i < len
            invariant
                len == assets.items.len(),
                list == assets@,
                cap <= i <= len,
                env@ == state.without_records(user, list.subrange(cap as int, i as int)),
            decreases len - i,
        {
            let ghost dropped = list.subrange(cap as int, i as int);
            let ghost asset = list[i as int];
            proof {
                assert(list.subrange(cap as int, i + 1) =~= dropped.push(asset));
                lemma_codes_pushed(dropped, asset);
                lemma_without_one_more(state, user, dropped, asset);
            }
            drop_records(env, user, &assets.items[i]);
            i += 1;
        }
        assert(list.subrange(cap as int, len as int) =~= list.skip(cap as int));
        let kept = AssetList { items: copy_first_assets(&assets.items, cap) };
        set_assets(env, user, kept);
        let removed: u32 = (len - cap) as u32;
        env.emit(Event::UserAssetsMigrated { user, removed });
        Ok(removed)
    }
}

} // verus!
