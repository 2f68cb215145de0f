//! Laws of asset lists and of when two assets are the same.

use vstd::prelude::*;

use crate::address::Address;
use crate::asset::{find_asset, folded, lemma_found, upper};
use crate::lists::lemma_pushed;
use crate::wallet::laws::operation::{
    AssetOperation, MigrationOperation, Operation, SpendOperation,
};
use crate::wallet::laws::soundness::list_sound;
use crate::wallet::model::{has_code, without_code, Asset, WalletView};
use crate::wallet::GlobeWallet;

verus! {

/// To be the same asset is an equivalence.
pub proof fn lemma_matching_is_an_equivalence(a: Asset, b: Asset, c: Asset)
    ensures
        a.matches(a),
        a.matches(b) ==> b.matches(a),
        a.matches(b) && b.matches(c) ==> a.matches(c),
{
}

/// Upper case is the same code, as long as the code can be registered.
pub proof fn lemma_upper_case_matches(asset: Asset)
    requires
        asset.code.len() <= GlobeWallet::MAX_ASSET_CODE_LEN,
    ensures
        asset.matches(
            (Asset { code: asset.code.map_values(|b: u8| upper(b)), issuer: asset.issuer }),
        ),
{
    let shouted = asset.code.map_values(|b: u8| upper(b));
    assert(folded(shouted) =~= folded(asset.code));
}

/// Assets that match are found alike.
pub(crate) proof fn lemma_found_alike(list: Seq<Asset>, a: Asset, b: Asset)
    requires
        a.matches(b),
    ensures
        find_asset(list, a) == find_asset(list, b),
    decreases list.len(),
{
    if list.len() > 0 {
        lemma_found_alike(list.drop_last(), a, b);
    }
}

/// Casing makes no difference to limits, spends and payments: assets that match
/// have one limit and one count.
pub proof fn lemma_casing_makes_no_difference(
    state: WalletView,
    user: Address,
    a: Asset,
    b: Asset,
    value: i128,
    token_id: Address,
)
    requires
        a.matches(b),
    ensures
        state.registered(user, a) == state.registered(user, b),
        state.spend_limit(user, a) == state.spend_limit(user, b),
        state.set_spend_limit(user, a, value) == state.set_spend_limit(user, b, value),
        state.record_spend(user, a, value) == state.record_spend(user, b, value),
        state.send(user, token_id, a, value) == state.send(user, token_id, b, value),
{
    lemma_found_alike(state.assets_of(user), a, b);
}

/// An asset that was added is the last of the user's list. It is found in
/// whatever casing, and cannot be added again.
pub proof fn lemma_added_asset(state: WalletView, user: Address, asset: Asset, variant: Asset)
    requires
        state.add_asset(user, asset) is Ok,
        variant.matches(asset),
    ensures
        ({
            let next = state.add_asset(user, asset).unwrap();
            &&& next.assets_of(user) == state.assets_of(user).push(asset)
            &&& next.registered(user, variant) == Some(asset)
            &&& next.add_asset(user, variant) is Err
        }),
{
    let next = state.add_asset(user, asset).unwrap();
    let list = state.assets_of(user);
    let longer = list.push(asset);
    assert(next.assets_of(user) == longer);
    assert(longer.drop_last() =~= list);
    lemma_found_alike(longer, variant, asset);
    assert(find_asset(longer, asset) == Some(asset));
}

/// Removing a code removes the assets with exactly that code and no other.
pub proof fn lemma_removed_asset(state: WalletView, user: Address, code: Seq<u8>, asset: Asset)
    requires
        state.remove_asset(user, code) is Ok,
    ensures
        ({
            let next = state.remove_asset(user, code).unwrap();
            next.assets_of(user).contains(asset) == (state.assets_of(user).contains(asset)
                && asset.code != code)
        }),
{
    let next = state.remove_asset(user, code).unwrap();
    lemma_filtered(state.assets_of(user), code, asset);
    assert(next.assets_of(user) == without_code(state.assets_of(user), code));
}

/// The assets of a list without a code.
pub(crate) proof fn lemma_filtered(list: Seq<Asset>, code: Seq<u8>, asset: Asset)
    ensures
        without_code(list, code).contains(asset) == (list.contains(asset) && asset.code != code),
    decreases list.len(),
{
    reveal(Seq::filter);
    if list.len() > 0 {
        let front = list.drop_last();
        let last = list.last();
        let rest = without_code(front, code);
        lemma_filtered(front, code, asset);
        assert(list =~= front.push(last));
        lemma_pushed(front, last);
        if last.code != code {
            assert(without_code(list, code) == rest.push(last));
            lemma_pushed(rest, last);
        }
    }
}

/// Adding an asset and removing its code again leaves the list as it was, where
/// no other asset has the code.
pub proof fn lemma_removal_undoes_addition(state: WalletView, user: Address, asset: Asset)
    requires
        state.add_asset(user, asset) is Ok,
        !has_code(state.assets_of(user), asset.code),
    ensures
        state.add_asset(user, asset).unwrap().remove_asset(user, asset.code) matches Ok(next)
            && next.assets_of(user) == state.assets_of(user),
{
    let added = state.add_asset(user, asset).unwrap();
    let list = state.assets_of(user);
    let longer = list.push(asset);
    assert(longer[list.len() as int] == asset);
    assert(has_code(added.assets_of(user), asset.code));
    lemma_nothing_filtered(list, asset.code);
    reveal(Seq::filter);
    assert(longer.drop_last() =~= list);
    assert(without_code(longer, asset.code) == list);
}

/// Removing an asset and adding it again keeps every limit and every count, its
/// own among them.
pub proof fn lemma_records_outlive_a_removal(state: WalletView, user: Address, asset: Asset)
    requires
        list_sound(state.assets_of(user)),
        state.assets_of(user).contains(asset),
    ensures
        state.remove_asset(user, asset.code) matches Ok(gone) && (gone.add_asset(
            user,
            asset,
        ) matches Ok(back) && {
            &&& back.registered(user, asset) == Some(asset)
            &&& back.spend_limit(user, asset) == state.spend_limit(user, asset)
            &&& forall|u: Address, a: Asset| #[trigger]
                back.limit_kept(u, a) == state.limit_kept(u, a)
            &&& forall|u: Address, a: Asset| #[trigger]
                back.spent_today(u, a) == state.spent_today(u, a)
        }),
{
    let list = state.assets_of(user);
    let rest = without_code(list, asset.code);
    let i = choose|i: int| 0 <= i < list.len() && list[i] == asset;
    assert(list[i].code == asset.code);
    let gone = state.remove_asset(user, asset.code).unwrap();
    assert(gone.assets_of(user) == rest);
    assert(rest.len() < list.len()) by {
        lemma_removal_shortens(list, asset.code);
    }
    lemma_found(rest, asset);
    if let Some(other) = find_asset(rest, asset) {
        lemma_filtered(list, asset.code, other);
        let j = choose|j: int| 0 <= j < list.len() && list[j] == other;
        assert(list[i].matches(list[j]) && list[j].matches(list[i]));
    }
    lemma_added_asset(gone, user, asset, asset);
    lemma_found(list, asset);
    assert(list[i].matches(asset));
    let found = find_asset(list, asset).unwrap();
    let k = choose|k: int| 0 <= k < list.len() && list[k] == found;
    assert(list[i].matches(list[k]) && list[k].matches(list[i]));
}

/// A list is shorter without a code that it has.
proof fn lemma_removal_shortens(list: Seq<Asset>, code: Seq<u8>)
    requires
        has_code(list, code),
    ensures
        without_code(list, code).len() < list.len(),
    decreases list.len(),
{
    reveal(Seq::filter);
    let front = list.drop_last();
    if list.last().code == code {
        broadcast use vstd::seq_lib::group_filter_ensures;

        assert(without_code(front, code).len() <= front.len());
    } else {
        let i = choose|i: int| 0 <= i < list.len() && (#[trigger] list[i]).code == code;
        assert(front[i].code == code);
        lemma_removal_shortens(front, code);
    }
}

proof fn lemma_nothing_filtered(list: Seq<Asset>, code: Seq<u8>)
    requires
        !has_code(list, code),
    ensures
        without_code(list, code) == list,
    decreases list.len(),
{
    reveal(Seq::filter);
    if list.len() > 0 {
        let front = list.drop_last();
        assert(!has_code(front, code)) by {
            if has_code(front, code) {
                let i = choose|i: int| 0 <= i < front.len() && (#[trigger] front[i]).code == code;
                assert(list[i].code == code);
            }
        }
        lemma_nothing_filtered(front, code);
        assert(list[list.len() - 1].code != code);
        assert(front.push(list.last()) =~= list);
    } else {
        assert(without_code(list, code) =~= list);
    }
}

impl Operation {
    /// The user whose list, limit or count an operation is about.
    pub open spec fn user(self) -> Option<Address> {
        match self {
            Operation::Assets(o) => match o {
                AssetOperation::AddAsset { user, .. } => Some(user),
                AssetOperation::RemoveAsset { user, .. } => Some(user),
            },
            Operation::Spends(o) => match o {
                SpendOperation::SetSpendLimit { user, .. } => Some(user),
                SpendOperation::RecordSpend { user, .. } => Some(user),
                SpendOperation::Send { user, .. } => Some(user),
            },
            Operation::Migration(o) => match o {
                MigrationOperation::MigrateSpendLimits { user } =>
                    Some(user),
                MigrationOperation::MigrateUserAssets {
                    user,
                    ..
                } => Some(user),
            },
            _ => None,
        }
    }
}

/// What one user does leaves the assets, the limits and the counts of every
/// other user alone.
pub proof fn lemma_users_are_separate(
    state: WalletView,
    operation: Operation,
    other: Address,
    asset: Asset,
)
    requires
        operation.user() != Some(other),
    ensures
        state.step(operation) matches Ok(next) ==> {
            &&& next.assets_of(other) == state.assets_of(other)
            &&& next.limit_kept(other, asset) == state.limit_kept(other, asset)
            &&& next.spent_today(other, asset) == state.spent_today(other, asset)
        },
{
    match operation {
        Operation::Admin(_) => reveal(WalletView::admin_step),
        Operation::Recovery(_) => reveal(WalletView::recovery_step),
        Operation::Assets(_) => reveal(WalletView::asset_step),
        Operation::Spends(_) => reveal(WalletView::spend_step),
        Operation::Payments(_) => reveal(WalletView::payment_step),
        Operation::Migration(_) => reveal(WalletView::migration_step),
    }
}

} // verus!
