//! What holds of every state that a wallet reaches.

use vstd::prelude::*;

use crate::address::Address;
use crate::asset::{lemma_found, MAX_CODE_LEN};
use crate::host::{index_of, without};
use crate::lists::lemma_pushed;
use crate::wallet::laws::history::{in_order, lemma_front_in_order, Call};
use crate::wallet::laws::operation::{
    lemma_operations_are_separate, AssetOperation, MigrationOperation, Operation, RecoveryOperation,
    SpendOperation,
};
use crate::wallet::migration::lemma_head_has_code;
use crate::wallet::model::{has_code, heads_code, without_code, Asset, WalletView};
use crate::wallet::GlobeWallet;

verus! {

/// An asset list as the wallet keeps it: within the cap, each asset with a code
/// that can be registered, the native asset alone without an issuer, and no
/// asset twice, in whatever casing.
pub open spec fn list_sound(list: Seq<Asset>) -> bool {
    &&& list.len() <= GlobeWallet::MAX_ASSETS
    &&& forall|i: int|
        0 <= i < list.len() ==> {
            &&& 0 < (#[trigger] list[i]).code.len() <= MAX_CODE_LEN
            &&& list[i].is_native() == (list[i].issuer is None)
        }
    &&& forall|i: int, j: int|
        0 <= i < j < list.len() ==> !(#[trigger] list[i]).matches(#[trigger] list[j])
}

impl WalletView {
    /// No guardian twice, no more than the cap, and an index that holds exactly
    /// the guardians.
    pub open spec fn guardians_sound(self) -> bool {
        &&& self.guardians.no_duplicates()
        &&& self.guardians.len() <= GlobeWallet::MAX_GUARDIANS
        &&& self.guardian_index matches Some(index) ==> index == index_of(self.guardians)
    }

    /// A threshold of at least two that the guardians can reach, and a delay
    /// that is not too short.
    pub open spec fn config_sound(self) -> bool {
        self.recovery_config matches Some(config) ==> {
            &&& 2 <= config.threshold <= self.guardians.len()
            &&& config.delay_in_ledgers >= GlobeWallet::MIN_RECOVERY_DELAY_LEDGERS
        }
    }

    /// A recovery in flight has the approvals of guardians, each once, and its
    /// delay runs exactly while they are a quorum.
    pub open spec fn proposal_sound(self) -> bool {
        self.recovery_proposal matches Some(proposal) ==> {
            &&& self.recovery_config matches Some(config) && (proposal.ready_at is Some
                <==> proposal.approvals.len() >= config.threshold)
            &&& proposal.approvals.no_duplicates()
            &&& forall|a: Address|
                #![trigger proposal.approvals.contains(a)]
                #![trigger self.guardians.contains(a)]
                proposal.approvals.contains(a) ==> self.guardians.contains(a)
        }
    }

    /// Only the admin in office has a proposal of a successor.
    pub open spec fn successors_sound(self) -> bool {
        forall|a: Address| #[trigger]
            self.pending_admins.contains_key(a) ==> self.admin == Some(a)
    }

    /// The guardians, the configuration and the recovery in flight are sound.
    pub open spec fn recovery_sound(self) -> bool {
        self.guardians_sound() && self.config_sound() && self.proposal_sound()
    }

    pub open spec fn assets_sound(self) -> bool {
        forall|user: Address| list_sound(#[trigger] self.assets_of(user))
    }

    /// No limit is negative, and nobody has spent more today than a limit
    /// allows.
    pub open spec fn spends_sound(self) -> bool {
        &&& forall|user: Address, a: Asset| #[trigger] self.limit_kept(user, a) >= 0
        &&& forall|user: Address, a: Asset|
            self.limit_kept(user, a) != 0 ==> #[trigger] self.spent_today(user, a)
                <= self.limit_kept(user, a)
        &&& forall|k: (Address, Asset)| #[trigger]
            self.daily_spent.contains_key(k) ==> self.daily_spent[k].day <= self.day()
        &&& forall|k: (Address, Seq<u8>)| #[trigger]
            self.legacy_daily_spent.contains_key(k) ==> self.legacy_daily_spent[k].day
                <= self.day()
    }

    /// What holds of every state that a wallet reaches.
    pub open spec fn sound(self) -> bool {
        &&& self.successors_sound()
        &&& self.recovery_sound()
        &&& self.assets_sound()
        &&& self.spends_sound()
    }
}

/// A wallet that nothing has been done with is sound.
pub proof fn lemma_fresh_is_sound(contract: Address)
    ensures
        WalletView::fresh(contract).sound(),
{
}

/// The passing of ledgers keeps spends sound: what was spent on an earlier day
/// no longer counts.
pub proof fn lemma_time_keeps_spends(
    state: WalletView,
    sequence: u32,
    timestamp: u64,
    signers: Seq<Address>,
)
    requires
        state.spends_sound(),
        timestamp >= state.timestamp,
    ensures
        state.at(sequence, timestamp, signers).spends_sound(),
{
    let later = state.at(sequence, timestamp, signers);
    assert(later.day() >= state.day());
    assert forall|user: Address, a: Asset| #[trigger] later.limit_kept(user, a) >= 0 by {
        assert(state.limit_kept(user, a) >= 0);
    }
    assert forall|user: Address, a: Asset|
        later.limit_kept(user, a) != 0 implies #[trigger] later.spent_today(user, a)
        <= later.limit_kept(user, a) by {
        assert(state.limit_kept(user, a) >= 0);
        assert(state.spent_today(user, a) <= state.limit_kept(user, a));
        assert(state.daily_spent.contains_key((user, a)) ==> state.daily_spent[(user, a)].day
            <= state.day());
        assert(state.legacy_daily_spent.contains_key((user, a.code))
            ==> state.legacy_daily_spent[(user, a.code)].day <= state.day());
    }
}

/// The passing of ledgers keeps a wallet sound.
pub proof fn lemma_time_keeps_soundness(
    state: WalletView,
    sequence: u32,
    timestamp: u64,
    signers: Seq<Address>,
)
    requires
        state.sound(),
        timestamp >= state.timestamp,
    ensures
        state.at(sequence, timestamp, signers).sound(),
{
    lemma_time_keeps_spends(state, sequence, timestamp, signers);
    lemma_assets_untouched(state, state.at(sequence, timestamp, signers));
}

/// Spends stay sound where no limit and no spend record changes.
proof fn lemma_spends_untouched(state: WalletView, next: WalletView)
    requires
        state.spends_sound(),
        next.timestamp == state.timestamp,
        next.spend_limits == state.spend_limits,
        next.daily_spent == state.daily_spent,
        next.legacy_spend_limits == state.legacy_spend_limits,
        next.legacy_daily_spent == state.legacy_daily_spent,
    ensures
        next.spends_sound(),
{
    assert forall|user: Address, a: Asset| #[trigger] next.limit_kept(user, a) >= 0 by {
        assert(state.limit_kept(user, a) >= 0);
    }
    assert forall|user: Address, a: Asset|
        next.limit_kept(user, a) != 0 implies #[trigger] next.spent_today(user, a)
        <= next.limit_kept(user, a) by {
        assert(state.spent_today(user, a) <= state.limit_kept(user, a));
    }
}

/// Asset lists stay sound where no list changes.
proof fn lemma_assets_untouched(state: WalletView, next: WalletView)
    requires
        state.assets_sound(),
        next.user_assets == state.user_assets,
    ensures
        next.assets_sound(),
{
    assert forall|user: Address| list_sound(#[trigger] next.assets_of(user)) by {
        assert(list_sound(state.assets_of(user)));
    }
}

/// Asset lists stay sound where one user's list is replaced by a sound one.
proof fn lemma_assets_replaced(state: WalletView, next: WalletView, user: Address, list: Seq<Asset>)
    requires
        state.assets_sound(),
        list_sound(list),
        next.user_assets == state.user_assets.insert(user, list),
    ensures
        next.assets_sound(),
{
    assert forall|u: Address| list_sound(#[trigger] next.assets_of(u)) by {
        assert(list_sound(state.assets_of(u)));
        if u == user {
            assert(next.assets_of(u) == list);
        } else {
            assert(next.assets_of(u) == state.assets_of(u));
        }
    }
}

/// A list without one address: shorter by one where it was there once, still
/// without duplicates, and with all the others.
pub proof fn lemma_without(list: Seq<Address>, who: Address)
    requires
        list.no_duplicates(),
    ensures
        without(list, who).no_duplicates(),
        forall|a: Address| #[trigger]
            without(list, who).contains(a) == (list.contains(a) && a != who),
        without(list, who).len() == list.len() - (if list.contains(who) {
            1int
        } else {
            0int
        }),
    decreases list.len(),
{
    reveal(Seq::filter);
    if list.len() > 0 {
        let front = list.drop_last();
        let last = list.last();
        let rest = without(front, who);
        lemma_without(front, who);
        assert(list =~= front.push(last));
        lemma_pushed(front, last);
        assert(!front.contains(last)) by {
            if front.contains(last) {
                let i = choose|i: int| 0 <= i < front.len() && front[i] == last;
                assert(list[i] == list[list.len() - 1]);
            }
        }
        if last != who {
            assert(without(list, who) == rest.push(last));
            lemma_pushed(rest, last);
        }
    }
}

/// Adding a guardian keeps the guardians, the configuration and the recovery
/// sound.
proof fn lemma_add_guardian_sound(state: WalletView, admin: Address, guardian: Address)
    requires
        state.recovery_sound(),
        state.add_guardian(admin, guardian) is Ok,
    ensures
        state.add_guardian(admin, guardian).unwrap().recovery_sound(),
{
    let next = state.add_guardian(admin, guardian).unwrap();
    let guardians = state.guardians;
    let longer = guardians.push(guardian);
    assert(state.index() =~= index_of(guardians));
    assert(!guardians.contains(guardian));
    lemma_pushed(guardians, guardian);
    assert(next.guardian_index.unwrap() =~= index_of(longer));
}

/// Striking an approval keeps a recovery sound, and leaves the other approvals.
proof fn lemma_strike_sound(state: WalletView, guardian: Address)
    requires
        state.proposal_sound(),
    ensures
        state.strike_approval(guardian).proposal_sound(),
        state.strike_approval(guardian).recovery_proposal matches Some(proposal)
            ==> !proposal.approvals.contains(guardian),
{
    if state.recovery_proposal is Some {
        lemma_without(state.recovery_proposal.unwrap().approvals, guardian);
    }
}

/// Removing a guardian keeps the guardians, the configuration and the recovery
/// sound.
proof fn lemma_remove_guardian_sound(state: WalletView, admin: Address, guardian: Address)
    requires
        state.recovery_sound(),
        state.remove_guardian(admin, guardian) is Ok,
    ensures
        state.remove_guardian(admin, guardian).unwrap().recovery_sound(),
{
    let next = state.remove_guardian(admin, guardian).unwrap();
    lemma_without(state.guardians, guardian);
    lemma_strike_sound(state, guardian);
    assert(state.index() =~= index_of(state.guardians));
    assert(next.guardian_index.unwrap() =~= index_of(next.guardians));
    let struck = state.strike_approval(guardian);
    assert(next.recovery_proposal == struck.recovery_proposal);
    if let Some(proposal) = next.recovery_proposal {
        assert forall|a: Address|
            proposal.approvals.contains(a) implies #[trigger] next.guardians.contains(a) by {
            assert(state.guardians.contains(a));
            assert(a != guardian);
        }
    }
}

/// An approval keeps a recovery sound.
proof fn lemma_approve_sound(state: WalletView, guardian: Address)
    requires
        state.recovery_sound(),
        state.approve_recovery(guardian) is Ok,
    ensures
        state.approve_recovery(guardian).unwrap().recovery_sound(),
{
    let next = state.approve_recovery(guardian).unwrap();
    let approvals = state.recovery_proposal.unwrap().approvals;
    let longer = approvals.push(guardian);
    assert(state.index() =~= index_of(state.guardians));
    assert(state.guardians.contains(guardian));
    lemma_pushed(approvals, guardian);
    assert(next.recovery_proposal.unwrap().approvals == longer);
}

/// Every operation on guardians and recovery keeps them sound.
proof fn lemma_recovery_step(state: WalletView, operation: RecoveryOperation)
    requires
        state.recovery_sound(),
        state.recovery_step(operation) is Ok,
    ensures
        state.recovery_step(operation).unwrap().recovery_sound(),
{
    reveal(WalletView::recovery_step);
    let next = state.recovery_step(operation).unwrap();
    assert(state.index() =~= index_of(state.guardians));
    match operation {
        RecoveryOperation::AddGuardian { admin, guardian } => {
            lemma_add_guardian_sound(state, admin, guardian);
        },
        RecoveryOperation::RemoveGuardian { admin, guardian } => {
            lemma_remove_guardian_sound(state, admin, guardian);
        },
        RecoveryOperation::InitiateRecovery { guardian, new_admin } => {
            assert(state.guardians.contains(guardian));
            assert(next.recovery_proposal.unwrap().approvals =~= seq![guardian]);
        },
        RecoveryOperation::ApproveRecovery { guardian } => {
            lemma_approve_sound(state, guardian);
        },
        RecoveryOperation::RevokeRecoveryApproval { guardian } => {
            lemma_strike_sound(state, guardian);
            assert(next.recovery_proposal == state.strike_approval(guardian).recovery_proposal);
        },
        _ => {},
    }
}

/// Dropping the assets of a code keeps a list sound.
proof fn lemma_without_code_sound(list: Seq<Asset>, code: Seq<u8>)
    requires
        list_sound(list),
    ensures
        list_sound(without_code(list, code)),
        without_code(list, code).len() <= list.len(),
        forall|a: Asset| #[trigger] without_code(list, code).contains(a) ==> list.contains(a),
    decreases list.len(),
{
    reveal(Seq::filter);
    if list.len() > 0 {
        let front = list.drop_last();
        let last = list.last();
        assert forall|i: int| 0 <= i < front.len() implies {
            &&& 0 < (#[trigger] front[i]).code.len() <= MAX_CODE_LEN
            &&& front[i].is_native() == (front[i].issuer is None)
        } by {
            assert(front[i] == list[i]);
        }
        assert forall|i: int, j: int| 0 <= i < j < front.len() implies !(
        #[trigger] front[i]).matches(#[trigger] front[j]) by {
            assert(front[i] == list[i] && front[j] == list[j]);
        }
        lemma_without_code_sound(front, code);
        let rest = without_code(front, code);
        assert(list =~= front.push(last));
        lemma_pushed(front, last);
        if last.code != code {
            let whole = rest.push(last);
            assert(without_code(list, code) == whole);
            assert(list[list.len() - 1] == last);
            assert forall|i: int| 0 <= i < rest.len() implies !(#[trigger] rest[i]).matches(
                last,
            ) by {
                assert(rest.contains(rest[i]));
                let k = choose|k: int| 0 <= k < front.len() && front[k] == rest[i];
                assert(!list[k].matches(list[list.len() - 1]));
            }
            assert forall|i: int, j: int| 0 <= i < j < whole.len() implies !(
            #[trigger] whole[i]).matches(#[trigger] whole[j]) by {
                if j < rest.len() {
                    assert(!rest[i].matches(rest[j]));
                } else {
                    assert(!rest[i].matches(last));
                }
            }
            lemma_pushed(rest, last);
        }
    }
}

/// Every operation on asset lists keeps them sound.
proof fn lemma_asset_step(state: WalletView, operation: AssetOperation)
    requires
        state.assets_sound(),
        state.asset_step(operation) is Ok,
    ensures
        state.asset_step(operation).unwrap().assets_sound(),
{
    reveal(WalletView::asset_step);
    let next = state.asset_step(operation).unwrap();
    match operation {
        AssetOperation::AddAsset { user, asset } => {
            let list = state.assets_of(user);
            let longer = list.push(asset);
            lemma_found(list, asset);
            assert(list_sound(list));
            assert forall|i: int, j: int| 0 <= i < j < longer.len() implies !(
            #[trigger] longer[i]).matches(#[trigger] longer[j]) by {
                if j < list.len() {
                    assert(!list[i].matches(list[j]));
                } else {
                    assert(!list[i].matches(asset));
                }
            }
            lemma_assets_replaced(state, next, user, longer);
        },
        AssetOperation::RemoveAsset { user, code } => {
            let list = state.assets_of(user);
            assert(list_sound(list));
            lemma_without_code_sound(list, code);
            lemma_assets_replaced(state, next, user, without_code(list, code));
        },
    }
}

/// Setting a limit keeps spends sound.
proof fn lemma_set_limit_sound(state: WalletView, user: Address, asset: Asset, limit: i128)
    requires
        state.spends_sound(),
        state.set_spend_limit(user, asset, limit) is Ok,
    ensures
        state.set_spend_limit(user, asset, limit).unwrap().spends_sound(),
{
    let next = state.set_spend_limit(user, asset, limit).unwrap();
    let kept = state.registered(user, asset).unwrap();
    assert forall|u: Address, a: Asset| #[trigger] next.limit_kept(u, a) >= 0 by {
        assert(state.limit_kept(u, a) >= 0);
    }
    assert forall|u: Address, a: Asset|
        next.limit_kept(u, a) != 0 implies #[trigger] next.spent_today(u, a) <= next.limit_kept(
        u,
        a,
    ) by {
        assert(next.spent_today(u, a) == state.spent_today(u, a));
        if u == user && a == kept {
            assert(next.limit_kept(u, a) == limit);
        } else {
            assert(next.limit_kept(u, a) == state.limit_kept(u, a));
        }
    }
}

/// Recording a spend keeps spends sound.
proof fn lemma_record_sound(state: WalletView, user: Address, asset: Asset, amount: i128)
    requires
        state.spends_sound(),
        state.record_spend(user, asset, amount) is Ok,
    ensures
        state.record_spend(user, asset, amount).unwrap().spends_sound(),
{
    let next = state.record_spend(user, asset, amount).unwrap();
    let kept = state.registered(user, asset).unwrap();
    if state.limit_kept(user, kept) == 0 {
        lemma_spends_untouched(state, next);
    } else {
        assert forall|u: Address, a: Asset| #[trigger] next.limit_kept(u, a) >= 0 by {
            assert(state.limit_kept(u, a) >= 0);
        }
        assert forall|u: Address, a: Asset|
            next.limit_kept(u, a) != 0 implies #[trigger] next.spent_today(u, a)
            <= next.limit_kept(u, a) by {
            assert(state.limit_kept(u, a) >= 0);
            assert(state.spent_today(u, a) <= state.limit_kept(u, a));
            assert(next.limit_kept(u, a) == state.limit_kept(u, a));
        }
    }
}

/// Migrating limits keeps spends sound.
proof fn lemma_migrate_limits_sound(state: WalletView, user: Address)
    requires
        state.spends_sound(),
    ensures
        state.migrate_spend_limits(user).spends_sound(),
{
    let next = state.migrate_spend_limits(user);
    let assets = state.assets_of(user);
    assert forall|u: Address, a: Asset| #[trigger] next.limit_kept(u, a) >= 0 by {
        assert(state.limit_kept(u, a) >= 0);
        if u == user && heads_code(assets, a) {
            lemma_head_has_code(assets, a);
        }
    }
    assert forall|u: Address, a: Asset|
        next.limit_kept(u, a) != 0 implies #[trigger] next.spent_today(u, a) <= next.limit_kept(
        u,
        a,
    ) by {
        assert(state.limit_kept(u, a) >= 0);
        assert(state.spent_today(u, a) <= state.limit_kept(u, a) || state.limit_kept(u, a) == 0);
        if u == user && heads_code(assets, a) {
            lemma_head_has_code(assets, a);
        }
    }
}

/// Cutting a list keeps spends sound: a record that goes, goes with the limit
/// that it counted against, or leaves nothing counted.
proof fn lemma_cut_sound(state: WalletView, admin: Address, user: Address)
    requires
        state.spends_sound(),
        state.migrate_user_assets(admin, user) is Ok,
    ensures
        state.migrate_user_assets(admin, user).unwrap().spends_sound(),
{
    let next = state.migrate_user_assets(admin, user).unwrap();
    let dropped = state.assets_of(user).skip(GlobeWallet::MAX_ASSETS as int);
    assert forall|a: Asset| dropped.contains(a) implies has_code(dropped, a.code) by {
        let i = choose|i: int| 0 <= i < dropped.len() && dropped[i] == a;
        assert(dropped[i].code == a.code);
    }
    assert forall|u: Address, a: Asset| #[trigger] next.limit_kept(u, a) >= 0 by {
        assert(state.limit_kept(u, a) >= 0);
    }
    assert forall|u: Address, a: Asset|
        next.limit_kept(u, a) != 0 implies #[trigger] next.spent_today(u, a) <= next.limit_kept(
        u,
        a,
    ) by {
        assert(state.limit_kept(u, a) >= 0);
        assert(state.spent_today(u, a) <= state.limit_kept(u, a) || state.limit_kept(u, a) == 0);
    }
}

/// Every operation keeps limits and spend records sound.
pub proof fn lemma_step_keeps_spends(state: WalletView, operation: Operation)
    requires
        state.spends_sound(),
    ensures
        state.step(operation) matches Ok(next) ==> next.spends_sound(),
{
    if let Ok(next) = state.step(operation) {
        lemma_operations_are_separate(state, operation);
        match operation {
            Operation::Spends(o) => {
                reveal(WalletView::spend_step);
                match o {
                    SpendOperation::SetSpendLimit { user, asset, limit } => {
                        lemma_set_limit_sound(state, user, asset, limit);
                    },
                    SpendOperation::RecordSpend { user, asset, amount } => {
                        lemma_record_sound(state, user, asset, amount);
                    },
                    SpendOperation::Send { user, token_id, asset, amount } => {
                        lemma_record_sound(state, user, asset, amount);
                    },
                }
            },
            Operation::Migration(o) => {
                reveal(WalletView::migration_step);
                match o {
                    MigrationOperation::MigrateSpendLimits { user } => {
                        lemma_migrate_limits_sound(state, user);
                    },
                    MigrationOperation::MigrateUserAssets { admin, user } => {
                        lemma_cut_sound(state, admin, user);
                    },
                }
            },
            _ => lemma_spends_untouched(state, next),
        }
    }
}

/// Every operation keeps asset lists sound.
proof fn lemma_step_keeps_assets(state: WalletView, operation: Operation)
    requires
        state.assets_sound(),
    ensures
        state.step(operation) matches Ok(next) ==> next.assets_sound(),
{
    if let Ok(next) = state.step(operation) {
        lemma_operations_are_separate(state, operation);
        match operation {
            Operation::Assets(o) => lemma_asset_step(state, o),
            Operation::Migration(o) => {
                reveal(WalletView::migration_step);
                if let MigrationOperation::MigrateUserAssets { user, .. } = o {
                    assert(list_sound(state.assets_of(user)));
                }
                lemma_assets_untouched(state, next);
            },
            _ => lemma_assets_untouched(state, next),
        }
    }
}

/// Every operation keeps the guardians, the configuration and the recovery in
/// flight sound.
pub proof fn lemma_step_keeps_recovery(state: WalletView, operation: Operation)
    requires
        state.recovery_sound(),
    ensures
        state.step(operation) matches Ok(next) ==> next.recovery_sound(),
{
    if state.step(operation) is Ok {
        lemma_operations_are_separate(state, operation);
        if let Operation::Recovery(o) = operation {
            lemma_recovery_step(state, o);
        }
    }
}

/// Every operation leaves a proposal of a successor to the admin in office
/// alone.
pub proof fn lemma_step_keeps_successors(state: WalletView, operation: Operation)
    requires
        state.successors_sound(),
    ensures
        state.step(operation) matches Ok(next) ==> next.successors_sound(),
{
    match operation {
        Operation::Admin(_) => reveal(WalletView::admin_step),
        Operation::Recovery(_) => reveal(WalletView::recovery_step),
        Operation::Assets(_) => reveal(WalletView::asset_step),
        Operation::Spends(_) => reveal(WalletView::spend_step),
        Operation::Payments(_) => reveal(WalletView::payment_step),
        Operation::Migration(_) => reveal(WalletView::migration_step),
    }
}

/// Every operation keeps a wallet sound.
pub proof fn lemma_step_keeps_soundness(state: WalletView, operation: Operation)
    requires
        state.sound(),
    ensures
        state.step(operation) matches Ok(next) ==> next.sound(),
{
    lemma_step_keeps_successors(state, operation);
    lemma_step_keeps_recovery(state, operation);
    lemma_step_keeps_assets(state, operation);
    lemma_step_keeps_spends(state, operation);
}

/// Whatever calls are made on a new wallet, it is sound after each of them.
pub proof fn lemma_reached_states_are_sound(contract: Address, history: Seq<Call>)
    requires
        in_order(history, 0),
    ensures
        WalletView::fresh(contract).after_all(history).sound(),
{
    lemma_history_keeps_soundness(WalletView::fresh(contract), history);
}

/// Whatever calls are made, at whatever ledgers, sound guardians stay sound, and
/// so do the configuration and the recovery in flight, whatever the state of
/// asset lists and spend records.
pub proof fn lemma_history_keeps_recovery(state: WalletView, history: Seq<Call>)
    requires
        state.recovery_sound(),
    ensures
        state.after_all(history).recovery_sound(),
    decreases history.len(),
{
    if history.len() > 0 {
        let before = state.after_all(history.drop_last());
        let call = history.last();
        lemma_history_keeps_recovery(state, history.drop_last());
        lemma_step_keeps_recovery(before.met_by(call), call.operation);
    }
}

/// Whatever calls are made, only the admin in office has a proposal of a
/// successor.
pub proof fn lemma_history_keeps_successors(state: WalletView, history: Seq<Call>)
    requires
        state.successors_sound(),
    ensures
        state.after_all(history).successors_sound(),
    decreases history.len(),
{
    if history.len() > 0 {
        let before = state.after_all(history.drop_last());
        let call = history.last();
        lemma_history_keeps_successors(state, history.drop_last());
        lemma_step_keeps_successors(before.met_by(call), call.operation);
    }
}

/// A state has the time of the last call that was made.
pub proof fn lemma_time_of_the_last_call(state: WalletView, history: Seq<Call>)
    ensures
        state.after_all(history).timestamp == (if history.len() == 0 {
            state.timestamp
        } else {
            history.last().timestamp
        }),
{
    if history.len() > 0 {
        let before = state.after_all(history.drop_last());
        lemma_operations_are_separate(before.met_by(history.last()), history.last().operation);
    }
}

/// Whatever calls are made, limits and spend records stay sound, whatever the
/// state of asset lists.
pub proof fn lemma_history_keeps_spends(state: WalletView, history: Seq<Call>)
    requires
        state.spends_sound(),
        in_order(history, state.timestamp),
    ensures
        state.after_all(history).spends_sound(),
    decreases history.len(),
{
    if history.len() > 0 {
        let front = history.drop_last();
        let before = state.after_all(front);
        let call = history.last();
        lemma_front_in_order(history, state.timestamp);
        lemma_history_keeps_spends(state, front);
        lemma_time_of_the_last_call(state, front);
        lemma_time_keeps_spends(before, call.sequence, call.timestamp, call.signers);
        lemma_step_keeps_spends(before.met_by(call), call.operation);
    }
}

/// Whatever calls are made, asset lists stay sound.
proof fn lemma_history_keeps_assets(state: WalletView, history: Seq<Call>)
    requires
        state.assets_sound(),
    ensures
        state.after_all(history).assets_sound(),
    decreases history.len(),
{
    if history.len() > 0 {
        let before = state.after_all(history.drop_last());
        let call = history.last();
        lemma_history_keeps_assets(state, history.drop_last());
        lemma_assets_untouched(before, before.met_by(call));
        lemma_step_keeps_assets(before.met_by(call), call.operation);
    }
}

/// Whatever calls are made on a sound wallet, it is sound after each of them.
pub proof fn lemma_history_keeps_soundness(state: WalletView, history: Seq<Call>)
    requires
        state.sound(),
        in_order(history, state.timestamp),
    ensures
        state.after_all(history).sound(),
{
    lemma_history_keeps_successors(state, history);
    lemma_history_keeps_recovery(state, history);
    lemma_history_keeps_assets(state, history);
    lemma_history_keeps_spends(state, history);
}

} // verus!
