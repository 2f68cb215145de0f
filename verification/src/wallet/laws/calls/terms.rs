//! The terms in which the laws of calls are stated.

use vstd::prelude::*;

use crate::address::Address;
use crate::wallet::model::{Asset, WalletView};
use crate::wallet::types::{DataKey, LedgerEntry, TtlExtension};

verus! {

/// Two bytes are equal, or the two cases of one ASCII letter.
pub open spec fn same_letter(x: u8, y: u8) -> bool {
    ||| x == y
    ||| 97 <= x <= 122 && y == x - 32
    ||| 97 <= y <= 122 && x == y - 32
}

/// Two codes differ in nothing but casing. A code of more than 12 bytes is like
/// itself alone.
pub open spec fn same_code(a: Seq<u8>, b: Seq<u8>) -> bool {
    &&& a.len() == b.len()
    &&& forall|i: int| 0 <= i < a.len() ==> same_letter(#[trigger] a[i], b[i])
    &&& a.len() > 12 ==> a == b
}

/// Two assets are one: codes that differ in nothing but casing, and the same
/// issuer.
pub open spec fn same_asset(a: Asset, b: Asset) -> bool {
    same_code(a.code, b.code) && a.issuer == b.issuer
}

/// An asset stands in a list, in whatever casing.
pub open spec fn stands_in(list: Seq<Asset>, asset: Asset) -> bool {
    exists|i: int| 0 <= i < list.len() && same_asset(#[trigger] list[i], asset)
}

/// The i-th asset of a list is the first that an asset stands for.
pub open spec fn stands_first(list: Seq<Asset>, asset: Asset, i: int) -> bool {
    &&& 0 <= i < list.len()
    &&& same_asset(list[i], asset)
    &&& forall|j: int| 0 <= j < i ==> !same_asset(#[trigger] list[j], asset)
}

/// The entry of a user's list; no assets where there is none.
pub open spec fn list_entry(state: WalletView, user: Address) -> Seq<Asset> {
    if state.user_assets.contains_key(user) {
        state.user_assets[user]
    } else {
        Seq::empty()
    }
}

/// The limit of an asset: its own, else the one kept for its code, else none.
pub open spec fn limit_entry(state: WalletView, user: Address, kept: Asset) -> int {
    if state.spend_limits.contains_key((user, kept)) {
        state.spend_limits[(user, kept)] as int
    } else if state.legacy_spend_limits.contains_key((user, kept.code)) {
        state.legacy_spend_limits[(user, kept.code)] as int
    } else {
        0
    }
}

/// What was spent of an asset on the day of the call: by its own record, else by
/// the one kept for its code. A day has 86,400 seconds.
pub open spec fn spent_entry(state: WalletView, user: Address, kept: Asset) -> int {
    let today = state.timestamp as int / 86_400;
    if state.daily_spent.contains_key((user, kept)) {
        if state.daily_spent[(user, kept)].day == today {
            state.daily_spent[(user, kept)].amount as int
        } else {
            0
        }
    } else if state.legacy_daily_spent.contains_key((user, kept.code))
        && state.legacy_daily_spent[(user, kept.code)].day == today {
        state.legacy_daily_spent[(user, kept.code)].amount as int
    } else {
        0
    }
}

/// An address is a guardian: by the index where there is one, by the list where
/// there is none.
pub open spec fn guards(state: WalletView, who: Address) -> bool {
    match state.guardian_index {
        Some(index) => index.contains_key(who) && index[who],
        None => state.guardians.contains(who),
    }
}

/// A ledger a number of ledgers ahead, the last one where that is beyond it.
pub open spec fn ledgers_ahead(state: WalletView, count: u32) -> int {
    if state.sequence + count <= 4_294_967_295 {
        state.sequence + count
    } else {
        4_294_967_295
    }
}

/// The request to keep the wallet's own entry alive: for 30 days of 17,280
/// ledgers, whenever less than 7 are left.
pub open spec fn wallet_alive() -> TtlExtension<Seq<u8>> {
    TtlExtension { entry: LedgerEntry::Instance, threshold: 120_960, extend_to: 518_400 }
}

/// The same request for an entry of its own.
pub open spec fn entry_alive(key: DataKey<Seq<u8>>) -> TtlExtension<Seq<u8>> {
    TtlExtension { entry: LedgerEntry::Persistent(key), threshold: 120_960, extend_to: 518_400 }
}

/// The request to keep a day's record alive: for 2 days, whenever less than one
/// is left.
pub open spec fn record_alive(key: DataKey<Seq<u8>>) -> TtlExtension<Seq<u8>> {
    TtlExtension { entry: LedgerEntry::Persistent(key), threshold: 17_280, extend_to: 34_560 }
}

} // verus!
