//! The assets that each user has registered.

use vstd::prelude::*;

use crate::address::Address;
use crate::asset::{asset_views, AssetInfo, AssetList, MAX_CODE_LEN};
use crate::table::{Key, Stored};
use crate::wallet::env::WalletEnv;
use crate::wallet::error::WalletError;
use crate::wallet::model::{
    has_code, without_code, PERSISTENT_TTL_EXTEND_TO, PERSISTENT_TTL_THRESHOLD,
};
use crate::wallet::types::{DataKey, Event};
use crate::wallet::{follows, GlobeWallet};

verus! {

/// The assets of a user, none where the user has no list.
pub(crate) fn assets_of(env: &WalletEnv, user: Address) -> (r: AssetList)
    ensures
        r@ == env@.assets_of(user),
{
    match env.user_assets.get(&user) {
        Some(list) => list.duplicate(),
        None => {
            let r = AssetList { items: Vec::new() };
            assert(r@ =~= env@.assets_of(user));
            r
        },
    }
}

/// Replaces the list of a user and keeps it alive.
pub(crate) fn set_assets(env: &mut WalletEnv, user: Address, list: AssetList)
    ensures
        final(env)@ == old(env)@.with_assets(user, list@),
{
    env.user_assets.set(user, list);
    env.extend_ttl(
        DataKey::UserAssets(user),
        PERSISTENT_TTL_THRESHOLD,
        PERSISTENT_TTL_EXTEND_TO,
    );
}

/// Whether an asset has the code of the native asset, `XLM`.
fn is_native(asset: &AssetInfo) -> (r: bool)
    ensures
        r == asset@.is_native(),
{
    let native = asset.code.len() == 3 && asset.code[0] == 88 && asset.code[1] == 76
        && asset.code[2] == 77;
    proof {
        if native {
            assert(asset.code@ =~= seq![88u8, 76u8, 77u8]);
        }
    }
    native
}

/// A list without the assets that have exactly the given code.
fn drop_code(list: &AssetList, code: &Vec<u8>) -> (r: AssetList)
    ensures
        r@ == without_code(list@, code@),
        (r@.len() == list@.len()) == !has_code(list@, code@),
        r@.len() <= list@.len(),
{
    let mut items: Vec<AssetInfo> = Vec::new();
    let mut i: usize = 0;
    proof {
        reveal(Seq::filter);
        assert(list@.take(0) =~= Seq::<AssetInfo<Seq<u8>>>::empty());
        assert(asset_views(items@) =~= without_code(list@.take(0), code@));
    }
    while i < list.items.len()
        invariant
            i <= list.items.len(),
            asset_views(items@) == without_code(list@.take(i as int), code@),
            items.len() <= i,
            (items.len() == i) == !has_code(list@.take(i as int), code@),
        decreases list.items.len() - i,
    {
        let ghost before = items@;
        proof {
            reveal(Seq::filter);
            assert(list@.take(i + 1).drop_last() =~= list@.take(i as int));
            assert(list@.take(i + 1).last() == list.items@[i as int]@);
            assert(list@.take(i + 1)[i as int] == list.items@[i as int]@);
            if has_code(list@.take(i as int), code@) {
                let k = choose|k: int|
                    0 <= k < i && (#[trigger] list@.take(i as int)[k]).code == code@;
                assert(list@.take(i + 1)[k].code == code@);
            }
            if has_code(list@.take(i + 1), code@) && list.items@[i as int]@.code != code@ {
                let k = choose|k: int|
                    0 <= k < i + 1 && (#[trigger] list@.take(i + 1)[k]).code == code@;
                assert(list@.take(i as int)[k].code == code@);
            }
        }
        if !list.items[i].code.same(code) {
            let copy = list.items[i].duplicate();
            items.push(copy);
            assert(asset_views(items@) =~= asset_views(before).push(copy@));
        }
        i += 1;
    }
    assert(list@.take(i as int) =~= list@);
    AssetList { items }
}

impl GlobeWallet {
    /// A user registers an asset. The native asset has no issuer and every
    /// other has one. Codes that differ only in casing are the same code.
    pub fn add_asset(env: &mut WalletEnv, user: Address, asset: AssetInfo) -> (r: Result<
        (),
        WalletError,
    >)
        requires
            old(env)@.authorized(user),
        ensures
            follows(old(env)@.add_asset(user, asset@), old(env)@, r, final(env)@),
    {
        if asset.code.len() == 0 || asset.code.len() > MAX_CODE_LEN as usize {
            return Err(WalletError::InvalidAssetCode);
        }
        if is_native(&asset) != asset.issuer.is_none() {
            return Err(WalletError::InvalidAssetInfo);
        }
        let mut list = assets_of(env, user);
        if list.items.len() >= GlobeWallet::MAX_ASSETS as usize {
            return Err(WalletError::AssetLimitExceeded);
        }
        if list.find(&asset).is_some() {
            return Err(WalletError::AssetAlreadyAdded);
        }
        let code = asset.code.duplicate();
        let ghost before = list.items@;
        list.items.push(asset);
        assert(asset_views(list.items@) =~= asset_views(before).push(asset@));
        env.bump_instance_ttl();
        set_assets(env, user, list);
        env.emit(Event::AssetAdded { user, code });
        Ok(())
    }

    /// A user removes the assets with exactly the given code.
    pub fn remove_asset(env: &mut WalletEnv, user: Address, asset_code: Vec<u8>) -> (r: Result<
        (),
        WalletError,
    >)
        requires
            old(env)@.authorized(user),
        ensures
            follows(old(env)@.remove_asset(user, asset_code@), old(env)@, r, final(env)@),
    {
        let list = assets_of(env, user);
        let kept = drop_code(&list, &asset_code);
        if kept.items.len() == list.items.len() {
            return Err(WalletError::AssetNotFound);
        }
        env.bump_instance_ttl();
        set_assets(env, user, kept);
        env.emit(Event::AssetRemoved { user, code: asset_code });
        Ok(())
    }

    /// The assets that a user has registered.
    pub fn get_assets(env: &WalletEnv, user: Address) -> (r: Vec<AssetInfo>)
        ensures
            asset_views(r@) == env@.assets_of(user),
    {
        assets_of(env, user).items
    }
}

} // verus!
