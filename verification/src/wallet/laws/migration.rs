//! Laws of migration.

use vstd::prelude::*;

use crate::address::Address;
use crate::wallet::error::WalletError;
use crate::wallet::migration::lemma_head_has_code;
use crate::wallet::model::{has_code, heads_code, Asset, WalletView};
use crate::wallet::GlobeWallet;

verus! {

/// A migration changes nothing for the first asset of a code: it has the same
/// limit and the same count as before.
pub proof fn lemma_migration_keeps_limits(state: WalletView, user: Address, asset: Asset)
    requires
        heads_code(state.assets_of(user), asset),
    ensures
        state.migrate_spend_limits(user).limit_kept(user, asset) == state.limit_kept(user, asset),
        state.migrate_spend_limits(user).spent_today(user, asset) == state.spent_today(
            user,
            asset,
        ),
{
    lemma_head_has_code(state.assets_of(user), asset);
}

/// What an asset has of its own, a migration leaves as it is.
pub proof fn lemma_migration_keeps_own_records(state: WalletView, user: Address, asset: Asset)
    ensures
        state.spend_limits.contains_key((user, asset)) ==> state.migrate_spend_limits(
            user,
        ).limit_kept(user, asset) == state.limit_kept(user, asset),
        state.daily_spent.contains_key((user, asset)) ==> state.migrate_spend_limits(
            user,
        ).spent_today(user, asset) == state.spent_today(user, asset),
{
}

/// After a migration there is nothing left to migrate: a second one finds no
/// limit and moves nothing.
pub proof fn lemma_migration_is_done_once(state: WalletView, user: Address)
    ensures
        ({
            let once = state.migrate_spend_limits(user);
            let twice = once.migrate_spend_limits(user);
            &&& once.legacy_limit_count(user) == 0
            &&& twice.spend_limits == once.spend_limits
            &&& twice.daily_spent == once.daily_spent
            &&& twice.legacy_spend_limits == once.legacy_spend_limits
            &&& twice.legacy_daily_spent == once.legacy_daily_spent
        }),
{
    let once = state.migrate_spend_limits(user);
    let twice = once.migrate_spend_limits(user);
    let assets = state.assets_of(user);
    assert(once.assets_of(user) == assets);
    assert(once.legacy_limit_codes(user, assets) =~= Set::<Seq<u8>>::empty());
    assert forall|a: Asset| heads_code(assets, a) implies has_code(assets, a.code) by {
        lemma_head_has_code(assets, a);
    }
    assert(twice.spend_limits =~= once.spend_limits);
    assert(twice.daily_spent =~= once.daily_spent);
    assert(twice.legacy_spend_limits =~= once.legacy_spend_limits);
    assert(twice.legacy_daily_spent =~= once.legacy_daily_spent);
}

/// Cutting a list leaves its first assets, up to the cap, and a list that is
/// within the cap as it is. It is done once.
pub proof fn lemma_list_is_cut_to_the_cap(state: WalletView, admin: Address, user: Address)
    requires
        state.admin == Some(admin),
    ensures
        state.migrate_user_assets(admin, user) matches Ok(next) && {
            let assets = state.assets_of(user);
            let cap = GlobeWallet::MAX_ASSETS as int;
            &&& next.assets_of(user) == (if assets.len() <= cap {
                assets
            } else {
                assets.take(cap)
            })
            &&& next.migrate_user_assets(admin, user) == Ok::<WalletView, WalletError>(next)
        },
{
}

/// Cutting a list keeps the limit and the count of an asset whose code no asset
/// beyond the cap has.
pub proof fn lemma_cut_keeps_other_records(
    state: WalletView,
    admin: Address,
    user: Address,
    asset: Asset,
)
    requires
        !has_code(state.assets_of(user).skip(GlobeWallet::MAX_ASSETS as int), asset.code),
    ensures
        state.migrate_user_assets(admin, user) matches Ok(next) ==> {
            &&& next.limit_kept(user, asset) == state.limit_kept(user, asset)
            &&& next.spent_today(user, asset) == state.spent_today(user, asset)
        },
{
    let dropped = state.assets_of(user).skip(GlobeWallet::MAX_ASSETS as int);
    if dropped.contains(asset) {
        let i = choose|i: int| 0 <= i < dropped.len() && dropped[i] == asset;
        assert(dropped[i].code == asset.code);
    }
}

} // verus!
