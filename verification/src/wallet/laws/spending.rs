//! Laws of daily limits.

use vstd::prelude::*;

use crate::address::Address;
use crate::asset::{find_asset, lemma_found};
use crate::lists::lemma_pushed;
use crate::wallet::error::WalletError;
use crate::wallet::laws::assets::{lemma_filtered, lemma_found_alike};
use crate::wallet::laws::history::{in_order, Call};
use crate::wallet::laws::operation::{
    lemma_operations_are_separate, AssetOperation, Operation, SpendOperation,
};
use crate::wallet::laws::soundness::{lemma_history_keeps_spends, lemma_time_of_the_last_call};
use crate::wallet::migration::lemma_some_asset_heads;
use crate::wallet::model::{
    has_code, without_code, Asset, WalletView, DAILY_SPENT_TTL_EXTEND_TO,
    DAILY_SPENT_TTL_THRESHOLD, LEDGERS_PER_DAY, SECONDS_PER_DAY,
};
use crate::wallet::types::{DataKey, LedgerEntry, TtlExtension};
use crate::wallet::GlobeWallet;

verus! {

/// Under a limit, a spend of a registered asset succeeds exactly where it is
/// positive and the day's total stays within the limit.
pub proof fn lemma_when_a_spend_succeeds(
    state: WalletView,
    user: Address,
    asset: Asset,
    amount: i128,
)
    requires
        state.registered(user, asset) is Some,
        state.spend_limit(user, asset) != 0,
    ensures
        state.record_spend(user, asset, amount) is Ok <==> amount > 0 && state.spent_today(
            user,
            state.registered(user, asset).unwrap(),
        ) + amount <= state.spend_limit(user, asset),
{
}

/// A spend under a limit is counted exactly: the day's total grows by the
/// amount, and stays within the limit.
pub proof fn lemma_spend_is_counted(state: WalletView, user: Address, asset: Asset, amount: i128)
    requires
        state.record_spend(user, asset, amount) is Ok,
        state.spend_limit(user, asset) != 0,
    ensures
        ({
            let next = state.record_spend(user, asset, amount).unwrap();
            let kept = state.registered(user, asset).unwrap();
            &&& next.spent_today(user, kept) == state.spent_today(user, kept) + amount
            &&& next.spent_today(user, kept) <= next.spend_limit(user, asset)
            &&& next.spend_limit(user, asset) == state.spend_limit(user, asset)
        }),
{
}

/// Without a limit every positive spend of a registered asset is allowed, and
/// none is counted.
pub proof fn lemma_no_limit_no_count(state: WalletView, user: Address, asset: Asset, amount: i128)
    requires
        state.registered(user, asset) is Some,
        state.spend_limit(user, asset) == 0,
        amount > 0,
    ensures
        state.record_spend(user, asset, amount) == Ok::<WalletView, WalletError>(
            state.bump_instance_ttl(),
        ),
{
}

/// Two spends whose ledgers close in the same day window add up; of two whose
/// ledgers do not, the second counts from zero.
pub proof fn lemma_day_windows(
    state: WalletView,
    user: Address,
    asset: Asset,
    first: i128,
    sequence: u32,
    timestamp: u64,
    signers: Seq<Address>,
)
    requires
        state.record_spend(user, asset, first) is Ok,
        state.spend_limit(user, asset) != 0,
    ensures
        ({
            let kept = state.registered(user, asset).unwrap();
            let once = state.record_spend(user, asset, first).unwrap();
            let later = once.at(sequence, timestamp, signers);
            later.spent_today(user, kept) == if timestamp / SECONDS_PER_DAY == state.timestamp
                / SECONDS_PER_DAY {
                state.spent_today(user, kept) + first
            } else {
                0
            }
        }),
{
}

/// The window turns at the multiples of the day: the second before one is of the
/// day before, the multiple itself is of the new day.
pub proof fn lemma_window_boundary(state: WalletView, day: u64)
    requires
        0 < day <= u64::MAX / SECONDS_PER_DAY,
    ensures
        state.at(state.sequence, (day * SECONDS_PER_DAY) as u64, state.signers).day() == day,
        state.at(state.sequence, (day * SECONDS_PER_DAY - 1) as u64, state.signers).day() == day
            - 1,
{
}

/// Two spends in one window that together exceed the limit do not both succeed,
/// whatever happens to the ledger in between.
pub proof fn lemma_two_spends_within_the_limit(
    state: WalletView,
    user: Address,
    asset: Asset,
    first: i128,
    second: i128,
    sequence: u32,
    timestamp: u64,
    signers: Seq<Address>,
)
    requires
        state.record_spend(user, asset, first) is Ok,
        state.spend_limit(user, asset) != 0,
        timestamp / SECONDS_PER_DAY == state.timestamp / SECONDS_PER_DAY,
        second > 0,
    ensures
        state.record_spend(user, asset, first).unwrap().at(sequence, timestamp, signers)
            .record_spend(user, asset, second) is Ok <==> state.spent_today(
            user,
            state.registered(user, asset).unwrap(),
        ) + first + second <= state.spend_limit(user, asset),
{
    let kept = state.registered(user, asset).unwrap();
    let once = state.record_spend(user, asset, first).unwrap();
    let later = once.at(sequence, timestamp, signers);
    assert(later.registered(user, asset) == Some(kept));
    assert(later.limit_kept(user, kept) == state.limit_kept(user, kept));
    assert(later.spent_today(user, kept) == state.spent_today(user, kept) + first);
}

/// A limit that was set is the limit that is read, in whatever casing the asset
/// is named.
pub proof fn lemma_limit_read_back(
    state: WalletView,
    user: Address,
    asset: Asset,
    variant: Asset,
    limit: i128,
)
    requires
        variant.matches(asset),
    ensures
        state.set_spend_limit(user, asset, limit) matches Ok(next) ==> next.spend_limit(
            user,
            variant,
        ) == limit,
{
    lemma_found_alike(state.assets_of(user), variant, asset);
}

/// A limit below what was already spent today is refused, and any other is
/// accepted for a registered asset.
pub proof fn lemma_when_a_limit_is_accepted(
    state: WalletView,
    user: Address,
    asset: Asset,
    limit: i128,
)
    requires
        state.registered(user, asset) is Some,
    ensures
        state.set_spend_limit(user, asset, limit) is Ok <==> limit == 0 || (limit > 0
            && state.spent_today(user, state.registered(user, asset).unwrap()) <= limit),
{
}

/// Limits and counts of different assets are kept apart. The one exception is an
/// asset of the same code that still counts by what is kept for the code alone.
pub proof fn lemma_assets_are_counted_apart(
    state: WalletView,
    user: Address,
    asset: Asset,
    amount: i128,
    limit: i128,
    other: Asset,
)
    requires
        state.registered(user, asset) matches Some(kept) && other != kept && (other.code
            == kept.code ==> {
            &&& state.legacy_daily_spent.contains_key((user, other.code))
                ==> state.daily_spent.contains_key((user, other))
            &&& state.legacy_spend_limits.contains_key((user, other.code))
                ==> state.spend_limits.contains_key((user, other))
        }),
    ensures
        state.record_spend(user, asset, amount) matches Ok(next) ==> {
            &&& next.limit_kept(user, other) == state.limit_kept(user, other)
            &&& next.spent_today(user, other) == state.spent_today(user, other)
        },
        state.set_spend_limit(user, asset, limit) matches Ok(next) ==> {
            &&& next.limit_kept(user, other) == state.limit_kept(user, other)
            &&& next.spent_today(user, other) == state.spent_today(user, other)
        },
{
}

impl WalletView {
    /// What an asset has spent today is counted for the asset itself, or there is
    /// nothing that is counted for its code alone.
    pub open spec fn counts_apart(self, user: Address, asset: Asset) -> bool {
        self.legacy_daily_spent.contains_key((user, asset.code)) ==> self.daily_spent.contains_key(
            (user, asset),
        )
    }

    /// No other registered asset of the user has the asset's code.
    pub open spec fn sole_of_its_code(self, user: Address, asset: Asset) -> bool {
        forall|a: Asset| #[trigger]
            self.assets_of(user).contains(a) && a.code == asset.code ==> a == asset
    }
}

/// Nothing that a wallet does lowers a day's count. The exceptions are an asset
/// that counts by what is kept for its code alone while another asset with the
/// code is registered, and one beyond the cap of its user's list.
pub proof fn lemma_counts_never_go_down(
    state: WalletView,
    operation: Operation,
    user: Address,
    asset: Asset,
)
    requires
        state.counts_apart(user, asset) || state.sole_of_its_code(user, asset),
        state.assets_of(user).len() <= GlobeWallet::MAX_ASSETS,
    ensures
        state.step(operation) matches Ok(next) ==> next.spent_today(user, asset)
            >= state.spent_today(user, asset),
{
    lemma_operations_are_separate(state, operation);
    match operation {
        Operation::Spends(o) => {
            reveal(WalletView::spend_step);
            match o {
                SpendOperation::RecordSpend { user: u, asset: a, .. } => lemma_found(
                    state.assets_of(u),
                    a,
                ),
                SpendOperation::Send { user: u, asset: a, .. } => lemma_found(
                    state.assets_of(u),
                    a,
                ),
                _ => {},
            }
        },
        Operation::Migration(_) => {
            reveal(WalletView::migration_step);
            if has_code(state.assets_of(user), asset.code) {
                lemma_some_asset_heads(state.assets_of(user), asset.code);
            }
        },
        _ => {},
    }
}

/// The record of a counted spend is kept alive for two days, at the pace at
/// which ledgers close, whenever less than one day is left: it does not lapse
/// before its window is over.
pub proof fn lemma_record_outlives_its_window(
    state: WalletView,
    user: Address,
    asset: Asset,
    amount: i128,
)
    requires
        state.record_spend(user, asset, amount) is Ok,
        state.spend_limit(user, asset) != 0,
    ensures
        state.record_spend(user, asset, amount).unwrap().ttl_extensions.last() == (TtlExtension {
            entry: LedgerEntry::Persistent(
                DataKey::DailySpent(user, state.registered(user, asset).unwrap()),
            ),
            threshold: DAILY_SPENT_TTL_THRESHOLD,
            extend_to: DAILY_SPENT_TTL_EXTEND_TO,
        }),
        DAILY_SPENT_TTL_THRESHOLD >= LEDGERS_PER_DAY,
        DAILY_SPENT_TTL_EXTEND_TO >= 2 * LEDGERS_PER_DAY,
{
}

impl Operation {
    /// What an operation spends of a user's asset, in whatever casing it names
    /// the asset.
    pub open spec fn spends(self, user: Address, asset: Asset) -> int {
        match self {
            Operation::Spends(SpendOperation::RecordSpend { user: u, asset: a, amount }) => if u
                == user && a.matches(asset) {
                amount as int
            } else {
                0
            },
            Operation::Spends(SpendOperation::Send { user: u, asset: a, amount, .. }) => if u
                == user && a.matches(asset) {
                amount as int
            } else {
                0
            },
            _ => 0,
        }
    }
}

impl WalletView {
    /// All that the calls of a history spend of a user's asset. A refused call
    /// spends nothing.
    pub open spec fn spent_in(self, history: Seq<Call>, user: Address, asset: Asset) -> int
        decreases history.len(),
    {
        if history.len() == 0 {
            0
        } else {
            let before = self.after_all(history.drop_last());
            let call = history.last();
            self.spent_in(history.drop_last(), user, asset) + if before.grants(call) {
                call.operation.spends(user, asset)
            } else {
                0
            }
        }
    }
}

/// The calls of a day that find a limit on an asset.
pub open spec fn limited_calls(day: u64, user: Address, asset: Asset) -> spec_fn(
    WalletView,
    Call,
) -> bool {
    |state: WalletView, call: Call|
        call.timestamp / SECONDS_PER_DAY == day && state.spend_limit(user, asset) != 0
}

/// The operations that remove a code from a user's list.
pub open spec fn removals_of(user: Address, code: Seq<u8>) -> spec_fn(Operation) -> bool {
    |o: Operation| o == Operation::Assets(AssetOperation::RemoveAsset { user, code })
}

/// The operations that add an asset with a code to a user's list.
pub open spec fn additions_of_code(user: Address, code: Seq<u8>) -> spec_fn(Operation) -> bool {
    |o: Operation|
        o is Assets && (o->Assets_0 matches AssetOperation::AddAsset { user: u, asset } && u == user
            && asset.code == code)
}

/// What is found in a list is found after another code has been removed.
proof fn lemma_still_found(list: Seq<Asset>, code: Seq<u8>, asset: Asset)
    requires
        find_asset(list, asset) matches Some(kept) && kept.code != code,
    ensures
        find_asset(without_code(list, code), asset) == find_asset(list, asset),
    decreases list.len(),
{
    reveal(Seq::filter);
    let front = list.drop_last();
    let rest = without_code(front, code);
    if find_asset(front, asset) is Some {
        lemma_still_found(front, code, asset);
        assert(rest.push(list.last()).drop_last() =~= rest);
    } else {
        lemma_found(front, asset);
        lemma_found(rest, asset);
        if let Some(found) = find_asset(rest, asset) {
            lemma_filtered(front, code, found);
            let i = choose|i: int| 0 <= i < front.len() && front[i] == found;
            assert(front[i].matches(asset));
        }
        assert(rest.push(list.last()).drop_last() =~= rest);
    }
}

/// An asset stays registered until its code is removed, a list within the cap
/// stays within it, and the sole asset of its code stays so until another is
/// added.
proof fn lemma_step_keeps_registered(
    state: WalletView,
    operation: Operation,
    user: Address,
    asset: Asset,
    kept: Asset,
)
    requires
        state.assets_of(user).len() <= GlobeWallet::MAX_ASSETS,
        state.registered(user, asset) == Some(kept),
        !removals_of(user, kept.code)(operation),
    ensures
        state.step(operation) matches Ok(next) ==> {
            &&& next.assets_of(user).len() <= GlobeWallet::MAX_ASSETS
            &&& next.registered(user, asset) == Some(kept)
            &&& state.sole_of_its_code(user, kept) && !additions_of_code(user, kept.code)(operation)
                ==> next.sole_of_its_code(user, kept)
        },
{
    let list = state.assets_of(user);
    lemma_operations_are_separate(state, operation);
    match operation {
        Operation::Assets(o) => {
            reveal(WalletView::asset_step);
            match o {
                AssetOperation::AddAsset { asset: a, .. } => {
                    assert(list.push(a).drop_last() =~= list);
                    lemma_pushed(list, a);
                },
                AssetOperation::RemoveAsset { user: u, code } => {
                    if u == user && code != kept.code {
                        lemma_still_found(list, code, asset);
                        assert(without_code(list, code).len() <= list.len()) by {
                            broadcast use vstd::seq_lib::group_filter_ensures;

                        }
                        assert forall|a: Asset| #[trigger]
                            without_code(list, code).contains(a) implies list.contains(a) by {
                            lemma_filtered(list, code, a);
                        }
                    }
                },
            }
        },
        Operation::Migration(_) => reveal(WalletView::migration_step),
        _ => {},
    }
}

/// Of a spend, exactly the asset that it names is charged.
proof fn lemma_charged(
    state: WalletView,
    user: Address,
    asset: Asset,
    kept: Asset,
    spender: Address,
    named: Asset,
    amount: i128,
)
    requires
        state.registered(user, asset) == Some(kept),
        state.limit_kept(user, kept) != 0,
        state.counts_apart(user, kept) || state.sole_of_its_code(user, kept),
    ensures
        state.record_spend(spender, named, amount) matches Ok(next) ==> {
            &&& state.counts_apart(user, kept) ==> next.counts_apart(user, kept)
            &&& next.spent_today(user, kept) == state.spent_today(user, kept) + if spender == user
                && named.matches(asset) {
                amount as int
            } else {
                0
            }
        },
{
    if spender == user {
        lemma_found(state.assets_of(user), asset);
        lemma_found(state.assets_of(user), named);
        if named.matches(asset) {
            lemma_found_alike(state.assets_of(user), named, asset);
        }
    }
}

/// Under a limit an operation adds to the day's count of an asset exactly what it
/// spends.
proof fn lemma_step_counts(
    state: WalletView,
    operation: Operation,
    user: Address,
    asset: Asset,
    kept: Asset,
)
    requires
        state.assets_of(user).len() <= GlobeWallet::MAX_ASSETS,
        state.registered(user, asset) == Some(kept),
        state.limit_kept(user, kept) != 0,
        state.counts_apart(user, kept) || state.sole_of_its_code(user, kept),
    ensures
        state.step(operation) matches Ok(next) ==> {
            &&& state.counts_apart(user, kept) ==> next.counts_apart(user, kept)
            &&& next.spent_today(user, kept) == state.spent_today(user, kept) + operation.spends(
                user,
                asset,
            )
        },
{
    lemma_operations_are_separate(state, operation);
    match operation {
        Operation::Spends(o) => {
            reveal(WalletView::spend_step);
            match o {
                SpendOperation::RecordSpend { user: u, asset: a, amount } => {
                    lemma_charged(state, user, asset, kept, u, a, amount);
                },
                SpendOperation::Send { user: u, asset: a, amount, .. } => {
                    lemma_charged(state, user, asset, kept, u, a, amount);
                },
                _ => {},
            }
        },
        Operation::Migration(_) => {
            reveal(WalletView::migration_step);
            if has_code(state.assets_of(user), kept.code) {
                lemma_some_asset_heads(state.assets_of(user), kept.code);
            }
        },
        _ => {},
    }
}

/// A day stays within its limit, whatever calls are made in it and by whom. All
/// that is spent of an asset in a day, by recorded spends and by payments, in
/// whatever casing, is counted on top of what was spent before, and the total
/// stays within the limit then in force. This holds while the asset stays
/// registered and limited, on a list within the cap. An asset that still counts
/// by what is kept for its code alone must be the only one with the code, and
/// stay so.
///
/// A payment that the token wrapper did not carry out leaves no trace, and is no
/// call of the history.
pub proof fn lemma_a_day_stays_within_its_limit(
    state: WalletView,
    history: Seq<Call>,
    user: Address,
    asset: Asset,
    kept: Asset,
)
    requires
        state.spends_sound(),
        state.assets_of(user).len() <= GlobeWallet::MAX_ASSETS,
        in_order(history, state.timestamp),
        state.registered(user, asset) == Some(kept),
        state.counts_apart(user, kept) || (state.sole_of_its_code(user, kept)
            && state.none_succeeds(history, additions_of_code(user, kept.code))),
        state.each_call(history, limited_calls(state.day(), user, asset)),
        state.none_succeeds(history, removals_of(user, kept.code)),
    ensures
        ({
            let after = state.after_all(history);
            let total = state.spent_today(user, kept) + state.spent_in(history, user, asset);
            &&& after.registered(user, asset) == Some(kept)
            &&& after.day() == state.day()
            &&& after.spent_today(user, kept) == total
            &&& after.spend_limit(user, asset) != 0 ==> total <= after.spend_limit(user, asset)
        }),
{
    let after = state.after_all(history);
    lemma_day_counts(state, history, user, asset, kept);
    lemma_history_keeps_spends(state, history);
    assert(after.limit_kept(user, kept) >= 0);
    assert(after.limit_kept(user, kept) != 0 ==> after.spent_today(user, kept)
        <= after.limit_kept(user, kept));
}

/// All that is spent of an asset in a day is counted.
proof fn lemma_day_counts(
    state: WalletView,
    history: Seq<Call>,
    user: Address,
    asset: Asset,
    kept: Asset,
)
    requires
        state.assets_of(user).len() <= GlobeWallet::MAX_ASSETS,
        state.registered(user, asset) == Some(kept),
        state.counts_apart(user, kept) || (state.sole_of_its_code(user, kept)
            && state.none_succeeds(history, additions_of_code(user, kept.code))),
        state.each_call(history, limited_calls(state.day(), user, asset)),
        state.none_succeeds(history, removals_of(user, kept.code)),
    ensures
        ({
            let after = state.after_all(history);
            &&& after.assets_of(user).len() <= GlobeWallet::MAX_ASSETS
            &&& after.registered(user, asset) == Some(kept)
            &&& if state.counts_apart(user, kept) {
                after.counts_apart(user, kept)
            } else {
                after.sole_of_its_code(user, kept)
            }
            &&& after.day() == state.day()
            &&& after.spent_today(user, kept) == state.spent_today(user, kept) + state.spent_in(
                history,
                user,
                asset,
            )
        }),
    decreases history.len(),
{
    if history.len() > 0 {
        let front = history.drop_last();
        let call = history.last();
        lemma_day_counts(state, front, user, asset, kept);
        lemma_time_of_the_last_call(state, history);
        let before = state.after_all(front);
        let met = before.met_by(call);
        assert(met.registered(user, asset) == Some(kept));
        assert(met.spent_today(user, kept) == before.spent_today(user, kept));
        assert(before.sole_of_its_code(user, kept) ==> met.sole_of_its_code(user, kept));
        if before.grants(call) {
            lemma_step_keeps_registered(met, call.operation, user, asset, kept);
            lemma_step_counts(met, call.operation, user, asset, kept);
        } else {
            assert(met == state.after_all(history));
        }
    }
}

} // verus!
