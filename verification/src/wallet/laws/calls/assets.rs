//! Laws of the calls on asset lists, and of when two assets are one.

use vstd::prelude::*;

use crate::address::Address;
use crate::asset::{
    asset_views, assets_match, codes_match, codes_match_case_insensitive, find_asset, folded,
    upper, AssetInfo, AssetList,
};
use crate::wallet::env::WalletEnv;
use crate::wallet::error::WalletError;
use crate::wallet::laws::calls::terms::{
    entry_alive, list_entry, same_asset, same_code, same_letter, stands_first, stands_in,
    wallet_alive,
};
use crate::wallet::model::{without_code, Asset, WalletView};
use crate::wallet::types::{DataKey, Event};
use crate::wallet::GlobeWallet;

verus! {

/// Codes match exactly where they differ in nothing but the casing of ASCII
/// letters, whichever letters they are and wherever they stand.
pub proof fn lemma_when_codes_match(a: Seq<u8>, b: Seq<u8>)
    ensures
        codes_match(a, b) <==> same_code(a, b),
{
    assert(forall|x: u8, y: u8| upper(x) == upper(y) <==> #[trigger] same_letter(x, y));
    assert(folded(a).len() == a.len() && folded(b).len() == b.len());
    if a.len() == b.len() && a.len() <= 12 {
        if codes_match(a, b) {
            assert forall|i: int| 0 <= i < a.len() implies same_letter(#[trigger] a[i], b[i]) by {
                assert(folded(a)[i] == upper(a[i]));
                assert(folded(b)[i] == upper(b[i]));
            }
        }
        if same_code(a, b) {
            assert(folded(a) =~= folded(b)) by {
                assert forall|i: int| 0 <= i < a.len() implies upper(a[i]) == upper(b[i]) by {
                    assert(same_letter(a[i], b[i]));
                }
            }
        }
    } else if a.len() == b.len() {
        if codes_match(a, b) {
            assert forall|i: int| 0 <= i < a.len() implies same_letter(#[trigger] a[i], b[i]) by {}
        }
    }
}

/// Assets match exactly where their codes do and they have the same issuer.
pub proof fn lemma_when_assets_match(a: Asset, b: Asset)
    ensures
        a.matches(b) <==> same_asset(a, b),
{
    lemma_when_codes_match(a.code, b.code);
}

/// The comparison of two codes tells whether they are one.
pub proof fn lemma_codes_compared(a: &Vec<u8>, b: &Vec<u8>, r: bool)
    requires
        call_ensures(codes_match_case_insensitive, (a, b), r),
    ensures
        r <==> same_code(a@, b@),
        call_requires(codes_match_case_insensitive, (a, b)),
{
    lemma_when_codes_match(a@, b@);
}

/// The comparison of two assets tells whether they are one.
pub proof fn lemma_assets_compared(a: &AssetInfo, b: &AssetInfo, r: bool)
    requires
        call_ensures(assets_match, (a, b), r),
    ensures
        r <==> same_code(a.code@, b.code@) && a.issuer == b.issuer,
        call_requires(assets_match, (a, b)),
{
    lemma_when_codes_match(a.code@, b.code@);
}

/// An asset is found in a list exactly where it stands in it, and what is found
/// is the first that it stands for.
pub proof fn lemma_what_is_found(list: Seq<Asset>, asset: Asset)
    ensures
        find_asset(list, asset) is Some <==> stands_in(list, asset),
        find_asset(list, asset) is Some ==> exists|i: int| #[trigger]
            stands_first(list, asset, i),
        forall|i: int| #[trigger]
            stands_first(list, asset, i) ==> find_asset(list, asset) == Some(list[i]),
    decreases list.len(),
{
    if list.len() > 0 {
        let front = list.drop_last();
        let last = list.len() - 1;
        lemma_what_is_found(front, asset);
        lemma_when_assets_match(list[last], asset);
        assert forall|i: int| 0 <= i < last implies list[i] == front[i] by {}
        assert forall|i: int| i < last implies #[trigger] stands_first(list, asset, i)
            == stands_first(front, asset, i) by {
            assert(forall|j: int| 0 <= j < i ==> list[j] == front[j]);
        }
        if find_asset(front, asset) is Some {
            let i = choose|i: int| #[trigger] stands_first(front, asset, i);
            assert(stands_first(list, asset, i));
            assert(same_asset(list[i], asset));
            assert forall|k: int| #[trigger] stands_first(list, asset, k) implies k == i by {
                if k > i {
                    assert(!same_asset(list[i], asset));
                }
                if k < i {
                    assert(!same_asset(list[k], asset));
                }
            }
        } else {
            assert forall|j: int| 0 <= j < last implies !same_asset(#[trigger] list[j], asset) by {
                assert(!same_asset(front[j], asset));
            }
            if same_asset(list[last], asset) {
                assert(stands_first(list, asset, last));
            }
        }
    }
}

/// The search of a list gives the first asset that the one asked for stands for,
/// with the casing in which the list has it.
pub proof fn lemma_find(list: &AssetList, asset: &AssetInfo, i: int, r: Option<AssetInfo>)
    requires
        call_ensures(AssetList::find, (list, asset), r),
    ensures
        r is None <==> !stands_in(list@, asset@),
        stands_first(list@, asset@, i) ==> (r matches Some(a) && a.code@ == list@[i].code
            && a.issuer == list@[i].issuer),
        call_requires(AssetList::find, (list, asset)),
{
    lemma_what_is_found(list@, asset@);
}

/// A user can register every asset whose code has from 1 to 12 bytes, that is the
/// native one exactly where it has no issuer, and that does not stand in the
/// list in whatever casing, as long as the list has fewer than 50. It comes
/// last.
pub proof fn lemma_add_asset(
    env: &mut WalletEnv,
    user: Address,
    asset: AssetInfo,
    r: Result<(), WalletError>,
)
    requires
        call_ensures(GlobeWallet::add_asset, (env, user, asset), r),
    ensures
        ({
            let (s, n) = (old(env)@, final(env)@);
            let list = list_entry(s, user);
            let code = asset@.code;
            let fits = 1 <= code.len() <= 12;
            let fair = (code == seq![88u8, 76u8, 77u8]) == (asset@.issuer is None);
            let room = list.len() < 50;
            let known = stands_in(list, asset@);
            &&& r is Ok <==> fits && fair && room && !known
            &&& r == Err::<(), WalletError>(WalletError::InvalidAssetCode) <==> !fits
            &&& r == Err::<(), WalletError>(WalletError::InvalidAssetInfo) <==> fits && !fair
            &&& r == Err::<(), WalletError>(WalletError::AssetLimitExceeded) <==> fits && fair
                && !room
            &&& r == Err::<(), WalletError>(WalletError::AssetAlreadyAdded) <==> fits && fair
                && room && known
            &&& r is Err ==> n == s
            &&& r is Ok ==> {
                &&& n.user_assets == s.user_assets.insert(user, list.push(asset@))
                &&& n.events == s.events.push(Event::AssetAdded { user, code })
                &&& n.ttl_extensions == s.ttl_extensions.push(wallet_alive()).push(
                    entry_alive(DataKey::UserAssets(user)),
                )
                &&& n == (WalletView {
                    user_assets: n.user_assets,
                    events: n.events,
                    ttl_extensions: n.ttl_extensions,
                    ..s
                })
            }
        }),
{
    lemma_what_is_found(list_entry(old(env)@, user), asset@);
}

/// The places of the assets of a list that have another code.
proof fn lemma_places_without_code(list: Seq<Asset>, code: Seq<u8>) -> (places: Seq<int>)
    ensures
        places.len() == without_code(list, code).len(),
        forall|k: int|
            0 <= k < places.len() ==> {
                &&& 0 <= #[trigger] places[k] < list.len()
                &&& list[places[k]].code != code
                &&& without_code(list, code)[k] == list[places[k]]
            },
        forall|k: int, l: int|
            0 <= k < l < places.len() ==> #[trigger] places[k] < #[trigger] places[l],
        forall|i: int|
            0 <= i < list.len() && (#[trigger] list[i]).code != code ==> places.contains(i),
    decreases list.len(),
{
    reveal(Seq::filter);
    if list.len() == 0 {
        Seq::empty()
    } else {
        let front = list.drop_last();
        let last: int = list.len() - 1;
        let rest = lemma_places_without_code(front, code);
        let places = if list[last].code == code {
            rest
        } else {
            rest.push(last)
        };
        assert forall|k: int| 0 <= k < places.len() implies {
            &&& 0 <= #[trigger] places[k] < list.len()
            &&& list[places[k]].code != code
            &&& without_code(list, code)[k] == list[places[k]]
        } by {
            if k < rest.len() {
                assert(rest[k] == places[k]);
                assert(front[rest[k]] == list[rest[k]]);
            }
        }
        assert forall|k: int, l: int| 0 <= k < l < places.len() implies #[trigger] places[k]
            < #[trigger] places[l] by {
            assert(rest[k] == places[k]);
            if l < rest.len() {
                assert(rest[l] == places[l]);
            }
        }
        assert forall|i: int|
            0 <= i < list.len() && (#[trigger] list[i]).code != code implies places.contains(i) by {
            if i < last {
                assert(front[i] == list[i]);
                let k = choose|k: int| 0 <= k < rest.len() && rest[k] == i;
                assert(places[k] == i);
            } else {
                assert(places[rest.len() as int] == i);
            }
        }
        places
    }
}

/// A user can remove exactly the codes that stand in the list. All assets with
/// exactly the code go; the others stay, in their order. The law gives the places
/// where those stood.
pub proof fn lemma_remove_asset(
    env: &mut WalletEnv,
    user: Address,
    code: Vec<u8>,
    r: Result<(), WalletError>,
) -> (places: Seq<int>)
    requires
        call_ensures(GlobeWallet::remove_asset, (env, user, code), r),
    ensures
        ({
            let (s, n) = (old(env)@, final(env)@);
            let list = list_entry(s, user);
            let known = exists|i: int| 0 <= i < list.len() && (#[trigger] list[i]).code == code@;
            &&& r is Ok <==> known
            &&& r is Err ==> r == Err::<(), WalletError>(WalletError::AssetNotFound) && n == s
        }),
        r is Ok ==> {
            let (s, n) = (old(env)@, final(env)@);
            let list = list_entry(s, user);
            let left = n.user_assets[user];
            &&& n.user_assets == s.user_assets.insert(user, left)
            &&& places.len() == left.len()
            &&& forall|k: int|
                0 <= k < places.len() ==> {
                    &&& 0 <= #[trigger] places[k] < list.len()
                    &&& list[places[k]].code != code@
                    &&& left[k] == list[places[k]]
                }
            &&& forall|k: int, l: int|
                0 <= k < l < places.len() ==> #[trigger] places[k] < #[trigger] places[l]
            &&& forall|i: int|
                0 <= i < list.len() && (#[trigger] list[i]).code != code@ ==> places.contains(i)
            &&& n.events == s.events.push(Event::AssetRemoved { user, code: code@ })
            &&& n.ttl_extensions == s.ttl_extensions.push(wallet_alive()).push(
                entry_alive(DataKey::UserAssets(user)),
            )
            &&& n == (WalletView {
                user_assets: n.user_assets,
                events: n.events,
                ttl_extensions: n.ttl_extensions,
                ..s
            })
        },
{
    lemma_places_without_code(list_entry(old(env)@, user), code@)
}

/// The assets that are read are those that are kept, in their order.
pub proof fn lemma_get_assets(env: &WalletEnv, user: Address, r: Vec<AssetInfo>)
    requires
        call_ensures(GlobeWallet::get_assets, (env, user), r),
    ensures
        ({
            let list = list_entry(env@, user);
            &&& r@.len() == list.len()
            &&& forall|i: int|
                0 <= i < list.len() ==> (#[trigger] r@[i]).code@ == list[i].code && r@[i].issuer
                    == list[i].issuer
        }),
        call_requires(GlobeWallet::get_assets, (env, user)),
{
    let list = list_entry(env@, user);
    let views = asset_views(r@);
    assert forall|i: int| 0 <= i < list.len() implies (#[trigger] r@[i]).code@ == list[i].code
        && r@[i].issuer == list[i].issuer by {
        assert(views[i] == r@[i]@);
    }
}

/// A user who has authorized a call can make it.
pub proof fn lemma_asset_calls_are_open(
    env: &mut WalletEnv,
    user: Address,
    asset: AssetInfo,
    code: Vec<u8>,
)
    requires
        old(env)@.signers.contains(user),
    ensures
        call_requires(GlobeWallet::add_asset, (env, user, asset)),
        call_requires(GlobeWallet::remove_asset, (env, user, code)),
{
}

} // verus!
