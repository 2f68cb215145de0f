//! Laws of the calls that move records from older layouts.

use vstd::prelude::*;

use crate::address::Address;
use crate::lists::lemma_pushed;
use crate::wallet::env::WalletEnv;
use crate::wallet::error::WalletError;
use crate::wallet::laws::calls::terms::{
    entry_alive, list_entry, record_alive, wallet_alive,
};
use crate::wallet::model::{has_code, heads_code, Asset, WalletView};
use crate::wallet::types::{DataKey, Event, TtlExtension};
use crate::wallet::GlobeWallet;

verus! {

/// No asset of a list before the i-th has the code of the i-th.
pub open spec fn first_with_code(list: Seq<Asset>, i: int) -> bool {
    &&& 0 <= i < list.len()
    &&& forall|j: int| 0 <= j < i ==> (#[trigger] list[j]).code != list[i].code
}

/// A limit kept for a code goes to the i-th asset of a user: the first with the
/// code, without a limit of its own.
pub open spec fn limit_goes_to(s: WalletView, user: Address, i: int) -> bool {
    let list = list_entry(s, user);
    &&& first_with_code(list, i)
    &&& s.legacy_spend_limits.contains_key((user, list[i].code))
    &&& !s.spend_limits.contains_key((user, list[i]))
}

/// A record kept for a code goes to the i-th asset of a user: likewise, and the
/// record is of the day of the call.
pub open spec fn record_goes_to(s: WalletView, user: Address, i: int) -> bool {
    let list = list_entry(s, user);
    &&& first_with_code(list, i)
    &&& s.legacy_daily_spent.contains_key((user, list[i].code))
    &&& s.legacy_daily_spent[(user, list[i].code)].day == s.timestamp as int / 86_400
    &&& !s.daily_spent.contains_key((user, list[i]))
}

/// Some asset of a list has a code.
pub open spec fn code_stands(list: Seq<Asset>, code: Seq<u8>) -> bool {
    exists|i: int| 0 <= i < list.len() && (#[trigger] list[i]).code == code
}

proof fn lemma_first_with_code(list: Seq<Asset>, i: int)
    requires
        0 <= i < list.len(),
    ensures
        first_with_code(list, i) <==> !has_code(list.take(i), list[i].code),
        first_with_code(list, i) ==> heads_code(list, list[i]),
{
    let before = list.take(i);
    if has_code(before, list[i].code) {
        let j = choose|j: int|
            0 <= j < before.len() && (#[trigger] before[j]).code == list[i].code;
        assert(list[j].code == list[i].code);
    }
    if !first_with_code(list, i) {
        let j = choose|j: int| 0 <= j < i && (#[trigger] list[j]).code == list[i].code;
        assert(before[j].code == list[i].code);
    }
}

proof fn lemma_heads(list: Seq<Asset>, asset: Asset)
    requires
        heads_code(list, asset),
    ensures
        exists|i: int| #[trigger] first_with_code(list, i) && list[i] == asset,
{
    let i = choose|i: int|
        0 <= i < list.len() && #[trigger] list[i] == asset && !has_code(list.take(i), asset.code);
    lemma_first_with_code(list, i);
    assert(first_with_code(list, i) && list[i] == asset);
}

/// What a migration keeps alive for the first n assets of a user.
proof fn lemma_kept_alive(s: WalletView, user: Address, n: int)
    requires
        0 <= n <= list_entry(s, user).len(),
    ensures
        ({
            let list = list_entry(s, user);
            let moved = s.migration_extensions(user, n);
            &&& moved.no_duplicates()
            &&& forall|x: TtlExtension<Seq<u8>>| #[trigger]
                moved.contains(x) <==> exists|i: int|
                    0 <= i < n && #[trigger] first_with_code(list, i) && {
                        ||| limit_goes_to(s, user, i) && x == entry_alive(
                            DataKey::SpendLimit(user, list[i]),
                        )
                        ||| record_goes_to(s, user, i) && x == record_alive(
                            DataKey::DailySpent(user, list[i]),
                        )
                    }
        }),
    decreases n,
{
    let list = list_entry(s, user);
    if n > 0 {
        let m = n - 1;
        lemma_kept_alive(s, user, m);
        lemma_first_with_code(list, m);
        let before = s.migration_extensions(user, m);
        let limit = entry_alive(DataKey::SpendLimit(user, list[m]));
        let record = record_alive(DataKey::DailySpent(user, list[m]));
        assert(s.limit_moves_to(user, m) == limit_goes_to(s, user, m));
        assert(s.spend_moves_to(user, m) == record_goes_to(s, user, m));
        if first_with_code(list, m) {
            assert forall|i: int| 0 <= i < m implies list[i] != list[m] by {
                assert(list[i].code != list[m].code);
            }
            assert(!before.contains(limit));
            assert(!before.contains(record));
        }
        let limits = if limit_goes_to(s, user, m) {
            before.push(limit)
        } else {
            before
        };
        lemma_pushed(before, limit);
        lemma_pushed(limits, record);
        let moved = s.migration_extensions(user, n);
        assert forall|x: TtlExtension<Seq<u8>>| #[trigger]
            moved.contains(x) implies exists|i: int|
            0 <= i < n && #[trigger] first_with_code(list, i) && {
                ||| limit_goes_to(s, user, i) && x == entry_alive(
                    DataKey::SpendLimit(user, list[i]),
                )
                ||| record_goes_to(s, user, i) && x == record_alive(
                    DataKey::DailySpent(user, list[i]),
                )
            } by {
            if before.contains(x) {
                let i = choose|i: int|
                    0 <= i < m && #[trigger] first_with_code(list, i) && {
                        ||| limit_goes_to(s, user, i) && x == entry_alive(
                            DataKey::SpendLimit(user, list[i]),
                        )
                        ||| record_goes_to(s, user, i) && x == record_alive(
                            DataKey::DailySpent(user, list[i]),
                        )
                    };
                assert(0 <= i < n && first_with_code(list, i));
            } else {
                assert(first_with_code(list, m));
            }
        }
        assert forall|x: TtlExtension<Seq<u8>>|
            (exists|i: int|
                0 <= i < n && #[trigger] first_with_code(list, i) && {
                    ||| limit_goes_to(s, user, i) && x == entry_alive(
                        DataKey::SpendLimit(user, list[i]),
                    )
                    ||| record_goes_to(s, user, i) && x == record_alive(
                        DataKey::DailySpent(user, list[i]),
                    )
                }) implies #[trigger] moved.contains(x) by {
            let i = choose|i: int|
                0 <= i < n && #[trigger] first_with_code(list, i) && {
                    ||| limit_goes_to(s, user, i) && x == entry_alive(
                        DataKey::SpendLimit(user, list[i]),
                    )
                    ||| record_goes_to(s, user, i) && x == record_alive(
                        DataKey::DailySpent(user, list[i]),
                    )
                };
            if i < m {
                assert(before.contains(x));
            }
        }
    } else {
        assert(s.migration_extensions(user, n) =~= Seq::empty());
    }
}

/// A migration moves each limit and each record of the day that is kept for a
/// code to the first asset of the user with that code, unless the asset has its
/// own, and leaves nothing kept for a code of the list. It counts the codes for
/// which there was a limit. It touches nothing of other users and never fails.
/// The law gives the requests to keep entries alive: one for each entry that
/// something moved to.
pub proof fn lemma_migrate_spend_limits(
    env: &mut WalletEnv,
    user: Address,
    r: Result<u32, WalletError>,
) -> (moved: Seq<TtlExtension<Seq<u8>>>)
    requires
        call_ensures(GlobeWallet::migrate_spend_limits, (env, user), r),
    ensures
        r matches Ok(count) && count == Set::new(
            |code: Seq<u8>|
                code_stands(list_entry(old(env)@, user), code) && old(
                    env,
                )@.legacy_spend_limits.contains_key((user, code)),
        ).len(),
        ({
            let (s, n) = (old(env)@, final(env)@);
            let list = list_entry(s, user);
            &&& forall|k: (Address, Asset)|
                s.spend_limits.contains_key(k) ==> #[trigger] n.spend_limits.contains_key(k)
                    && n.spend_limits[k] == s.spend_limits[k]
            &&& forall|k: (Address, Asset)|
                !s.spend_limits.contains_key(k) ==> (#[trigger] n.spend_limits.contains_key(k)
                    <==> exists|i: int| #[trigger]
                    limit_goes_to(s, user, i) && k == (user, list[i]))
            &&& forall|i: int| #[trigger]
                limit_goes_to(s, user, i) ==> n.spend_limits[(user, list[i])]
                    == s.legacy_spend_limits[(user, list[i].code)]
            &&& forall|k: (Address, Asset)|
                s.daily_spent.contains_key(k) ==> #[trigger] n.daily_spent.contains_key(k)
                    && n.daily_spent[k] == s.daily_spent[k]
            &&& forall|k: (Address, Asset)|
                !s.daily_spent.contains_key(k) ==> (#[trigger] n.daily_spent.contains_key(k)
                    <==> exists|i: int| #[trigger]
                    record_goes_to(s, user, i) && k == (user, list[i]))
            &&& forall|i: int| #[trigger]
                record_goes_to(s, user, i) ==> n.daily_spent[(user, list[i])]
                    == s.legacy_daily_spent[(user, list[i].code)]
            &&& forall|k: (Address, Seq<u8>)|
                {
                    &&& #[trigger] n.legacy_spend_limits.contains_key(k)
                        <==> s.legacy_spend_limits.contains_key(k) && !(k.0 == user && code_stands(
                        list,
                        k.1,
                    ))
                    &&& n.legacy_spend_limits.contains_key(k) ==> n.legacy_spend_limits[k]
                        == s.legacy_spend_limits[k]
                }
            &&& forall|k: (Address, Seq<u8>)|
                {
                    &&& #[trigger] n.legacy_daily_spent.contains_key(k)
                        <==> s.legacy_daily_spent.contains_key(k) && !(k.0 == user && code_stands(
                        list,
                        k.1,
                    ))
                    &&& n.legacy_daily_spent.contains_key(k) ==> n.legacy_daily_spent[k]
                        == s.legacy_daily_spent[k]
                }
            &&& n.events == s.events.push(
                Event::SpendLimitsMigrated { user, count: r.unwrap() },
            )
            &&& n.ttl_extensions == (s.ttl_extensions + moved).push(wallet_alive())
            &&& n == (WalletView {
                spend_limits: n.spend_limits,
                daily_spent: n.daily_spent,
                legacy_spend_limits: n.legacy_spend_limits,
                legacy_daily_spent: n.legacy_daily_spent,
                events: n.events,
                ttl_extensions: n.ttl_extensions,
                ..s
            })
        }),
        moved.no_duplicates(),
        forall|x: TtlExtension<Seq<u8>>| #[trigger]
            moved.contains(x) <==> exists|i: int| #[trigger]
                first_with_code(list_entry(old(env)@, user), i) && {
                    ||| limit_goes_to(old(env)@, user, i) && x == entry_alive(
                        DataKey::SpendLimit(user, list_entry(old(env)@, user)[i]),
                    )
                    ||| record_goes_to(old(env)@, user, i) && x == record_alive(
                        DataKey::DailySpent(user, list_entry(old(env)@, user)[i]),
                    )
                },
{
    let s = old(env)@;
    let n = final(env)@;
    let list = list_entry(s, user);
    let count = list.len() as int;
    lemma_kept_alive(s, user, count);
    assert(s.legacy_limit_codes(user, list) =~= Set::new(
        |code: Seq<u8>| code_stands(list, code) && s.legacy_spend_limits.contains_key((user, code)),
    ));
    assert forall|i: int| first_with_code(list, i) implies heads_code(list, #[trigger] list[i]) by {
        lemma_first_with_code(list, i);
    }
    assert forall|a: Asset| heads_code(list, a) implies exists|i: int| #[trigger]
        first_with_code(list, i) && list[i] == a by {
        lemma_heads(list, a);
    }
    assert forall|k: (Address, Asset)| !s.spend_limits.contains_key(k) implies (
    #[trigger] n.spend_limits.contains_key(k) <==> exists|i: int| #[trigger]
        limit_goes_to(s, user, i) && k == (user, list[i])) by {
        if n.spend_limits.contains_key(k) {
            let i = choose|i: int| #[trigger] first_with_code(list, i) && list[i] == k.1;
            assert(limit_goes_to(s, user, i));
        }
    }
    assert forall|k: (Address, Asset)| !s.daily_spent.contains_key(k) implies (
    #[trigger] n.daily_spent.contains_key(k) <==> exists|i: int| #[trigger]
        record_goes_to(s, user, i) && k == (user, list[i])) by {
        if n.daily_spent.contains_key(k) {
            let i = choose|i: int| #[trigger] first_with_code(list, i) && list[i] == k.1;
            assert(record_goes_to(s, user, i));
        }
    }
    s.migration_extensions(user, count)
}

/// The admin can cut the list of every user to its first 50 assets. A list within
/// that stays as it is, and so does all else. What is kept for an asset beyond
/// the fiftieth, or for its code alone, goes with it, and nothing more. The
/// number of assets that went is told.
pub proof fn lemma_migrate_user_assets(
    env: &mut WalletEnv,
    admin: Address,
    user: Address,
    r: Result<u32, WalletError>,
)
    requires
        call_ensures(GlobeWallet::migrate_user_assets, (env, admin, user), r),
    ensures
        ({
            let (s, n) = (old(env)@, final(env)@);
            &&& r is Ok <==> s.admin == Some(admin)
            &&& r == Err::<u32, WalletError>(WalletError::NotInitialized) <==> s.admin is None
            &&& r == Err::<u32, WalletError>(WalletError::Unauthorized) <==> s.admin is Some
                && s.admin != Some(admin)
            &&& r is Err ==> n == s
            &&& r is Ok && list_entry(s, user).len() <= 50 ==> n == s && r == Ok::<
                u32,
                WalletError,
            >(0)
        }),
        r is Ok && 50 < list_entry(old(env)@, user).len() <= 4_294_967_295 ==> {
            let (s, n) = (old(env)@, final(env)@);
            let list = list_entry(s, user);
            let cut = list.subrange(50, list.len() as int);
            let removed = r.unwrap();
            &&& removed == list.len() - 50
            &&& n.user_assets == s.user_assets.insert(user, list.subrange(0, 50))
            &&& forall|k: (Address, Asset)|
                {
                    &&& #[trigger] n.spend_limits.contains_key(k) <==> s.spend_limits.contains_key(
                        k,
                    ) && !(k.0 == user && cut.contains(k.1))
                    &&& n.spend_limits.contains_key(k) ==> n.spend_limits[k] == s.spend_limits[k]
                }
            &&& forall|k: (Address, Asset)|
                {
                    &&& #[trigger] n.daily_spent.contains_key(k) <==> s.daily_spent.contains_key(k)
                        && !(k.0 == user && cut.contains(k.1))
                    &&& n.daily_spent.contains_key(k) ==> n.daily_spent[k] == s.daily_spent[k]
                }
            &&& forall|k: (Address, Seq<u8>)|
                {
                    &&& #[trigger] n.legacy_spend_limits.contains_key(k)
                        <==> s.legacy_spend_limits.contains_key(k) && !(k.0 == user && code_stands(
                        cut,
                        k.1,
                    ))
                    &&& n.legacy_spend_limits.contains_key(k) ==> n.legacy_spend_limits[k]
                        == s.legacy_spend_limits[k]
                }
            &&& forall|k: (Address, Seq<u8>)|
                {
                    &&& #[trigger] n.legacy_daily_spent.contains_key(k)
                        <==> s.legacy_daily_spent.contains_key(k) && !(k.0 == user && code_stands(
                        cut,
                        k.1,
                    ))
                    &&& n.legacy_daily_spent.contains_key(k) ==> n.legacy_daily_spent[k]
                        == s.legacy_daily_spent[k]
                }
            &&& n.events == s.events.push(Event::UserAssetsMigrated { user, removed })
            &&& n.ttl_extensions == s.ttl_extensions.push(wallet_alive()).push(
                entry_alive(DataKey::UserAssets(user)),
            )
            &&& n == (WalletView {
                user_assets: n.user_assets,
                spend_limits: n.spend_limits,
                daily_spent: n.daily_spent,
                legacy_spend_limits: n.legacy_spend_limits,
                legacy_daily_spent: n.legacy_daily_spent,
                events: n.events,
                ttl_extensions: n.ttl_extensions,
                ..s
            })
        },
{
    let list = list_entry(old(env)@, user);
    if list.len() > 50 {
        assert(list.skip(50) =~= list.subrange(50, list.len() as int));
        assert(list.take(50) =~= list.subrange(0, 50));
    }
}

/// Who has authorized a migration can make it, on every list whose assets can be
/// counted.
pub proof fn lemma_migration_calls_are_open(env: &mut WalletEnv, admin: Address, user: Address)
    requires
        old(env)@.signers.contains(user),
        list_entry(old(env)@, user).len() <= 4_294_967_295,
    ensures
        call_requires(GlobeWallet::migrate_spend_limits, (env, user)),
        old(env)@.signers.contains(admin) ==> call_requires(
            GlobeWallet::migrate_user_assets,
            (env, admin, user),
        ),
{
}

} // verus!
