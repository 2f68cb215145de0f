//! Laws of guardian recovery.

use vstd::prelude::*;

use crate::address::Address;
use crate::host::{index_of, without};
use crate::lists::lemma_pushed;
use crate::wallet::error::WalletError;
use crate::wallet::laws::admin::{
    admin_proposals, lemma_an_admin_stays, lemma_no_acceptance_without_a_proposal,
};
use crate::wallet::laws::history::{lemma_kept_by_calls, refused, Call};
use crate::wallet::laws::operation::{
    lemma_operations_are_separate, Operation, RecoveryOperation,
};
use crate::wallet::laws::soundness::{
    lemma_history_keeps_recovery, lemma_step_keeps_recovery, lemma_without,
};
use crate::wallet::model::WalletView;
use crate::wallet::types::{Event, RecoveryCompletedEvent, RecoveryConfig};
use crate::wallet::GlobeWallet;

verus! {

/// A recovery hands the role over only with the approvals of at least two
/// different guardians, as many as the threshold asks for, and only once its
/// delay has run out. It tells who lost the role, who has it, and every guardian
/// that approved.
pub proof fn lemma_recovery_takes_a_quorum(state: WalletView)
    requires
        state.recovery_sound(),
    ensures
        state.execute_recovery() matches Ok(next) ==> {
            let proposal = state.recovery_proposal.unwrap();
            let config = state.recovery_config.unwrap();
            &&& state.recovery_proposal is Some && state.recovery_config is Some
            &&& proposal.approvals.no_duplicates()
            &&& forall|a: Address|
                proposal.approvals.contains(a) ==> #[trigger] state.guardians.contains(a)
            &&& proposal.approvals.len() >= config.threshold >= 2
            &&& proposal.ready_at matches Some(ready_at) && ready_at <= state.sequence
            &&& next.admin == Some(proposal.new_admin)
            &&& state.admin matches Some(old_admin) && next.events.last()
                == Event::<Seq<u8>, Seq<Address>>::RecoveryCompleted(
                RecoveryCompletedEvent {
                    old_admin,
                    new_admin: proposal.new_admin,
                    approving_guardians: proposal.approvals,
                    threshold: config.threshold,
                    ready_at: proposal.ready_at.unwrap(),
                    executed_at: state.sequence,
                },
            )
        },
{
}

impl WalletView {
    /// No recovery in flight has more than one approval.
    pub open spec fn one_approval_at_most(self) -> bool {
        self.recovery_proposal matches Some(proposal) ==> proposal.approvals.len() <= 1
    }
}

/// The operations that approve a recovery.
pub open spec fn recovery_approvals() -> spec_fn(Operation) -> bool {
    |o: Operation| o is Recovery && o->Recovery_0 is ApproveRecovery
}

/// Without a further approval none is added.
proof fn lemma_history_adds_no_approval(state: WalletView, history: Seq<Call>)
    requires
        state.recovery_sound(),
        state.one_approval_at_most(),
        state.none_succeeds(history, recovery_approvals()),
    ensures
        state.after_all(history).one_approval_at_most(),
    decreases history.len(),
{
    if history.len() > 0 {
        let front = history.drop_last();
        let call = history.last();
        lemma_history_adds_no_approval(state, front);
        lemma_history_keeps_recovery(state, front);
        let met = state.after_all(front).met_by(call);
        lemma_operations_are_separate(met, call.operation);
        if call.operation is Recovery {
            reveal(WalletView::recovery_step);
            let approvals = met.recovery_proposal.unwrap().approvals;
            if met.recovery_proposal is Some {
                match call.operation->Recovery_0 {
                    RecoveryOperation::RemoveGuardian { guardian, .. } => lemma_without(
                        approvals,
                        guardian,
                    ),
                    RecoveryOperation::RevokeRecoveryApproval { guardian } => lemma_without(
                        approvals,
                        guardian,
                    ),
                    _ => {},
                }
            }
        }
    }
}

/// Starting a recovery starts no countdown: with the one approval that it comes
/// with it can be executed at no ledger. Until an approval is given, no recovery
/// can, whatever else happens.
pub proof fn lemma_one_guardian_is_not_enough(
    state: WalletView,
    guardian: Address,
    new_admin: Address,
    history: Seq<Call>,
    later: Call,
)
    requires
        state.recovery_sound(),
    ensures
        state.initiate_recovery(guardian, new_admin) matches Ok(next) ==> {
            &&& next.met_by(later).execute_recovery() == Err::<WalletView, WalletError>(
                WalletError::RecoveryNotQuorate,
            )
            &&& next.none_succeeds(history, recovery_approvals()) ==> next.after_all(
                history,
            ).met_by(later).execute_recovery() is Err
        },
{
    if let Ok(next) = state.initiate_recovery(guardian, new_admin) {
        if next.none_succeeds(history, recovery_approvals()) {
            let start = RecoveryOperation::InitiateRecovery { guardian, new_admin };
            assert(state.step(Operation::Recovery(start)) == Ok::<WalletView, WalletError>(next))
                by {
                reveal(WalletView::recovery_step);
            }
            lemma_step_keeps_recovery(state, Operation::Recovery(start));
            lemma_history_adds_no_approval(next, history);
            lemma_history_keeps_recovery(next, history);
        }
    }
}

/// The countdown starts with the approval that makes the quorum, and runs for
/// the configured delay: at no ledger before its end can the recovery be
/// executed.
pub proof fn lemma_delay_starts_with_the_quorum(
    state: WalletView,
    guardian: Address,
    sequence: u32,
    timestamp: u64,
    signers: Seq<Address>,
)
    requires
        state.recovery_sound(),
        state.approve_recovery(guardian) is Ok,
        state.recovery_proposal.unwrap().ready_at is None,
    ensures
        ({
            let next = state.approve_recovery(guardian).unwrap();
            let config = state.recovery_config.unwrap();
            let later = next.at(sequence, timestamp, signers);
            let due = state.sequence + config.delay_in_ledgers;
            &&& next.recovery_proposal.unwrap().approvals.len() < config.threshold
                ==> later.execute_recovery() == Err::<WalletView, WalletError>(
                WalletError::RecoveryNotQuorate,
            )
            &&& next.recovery_proposal.unwrap().approvals.len() >= config.threshold && sequence
                < due && sequence < u32::MAX ==> later.execute_recovery() == Err::<
                WalletView,
                WalletError,
            >(WalletError::RecoveryNotReady)
            &&& due >= state.sequence + GlobeWallet::MIN_RECOVERY_DELAY_LEDGERS
        }),
{
}

/// An approval on top of a quorum does not move the countdown.
pub proof fn lemma_later_approvals_keep_the_countdown(state: WalletView, guardian: Address)
    ensures
        state.approve_recovery(guardian) matches Ok(next) ==> (
        state.recovery_proposal.unwrap().ready_at is Some
            ==> next.recovery_proposal.unwrap().ready_at
            == state.recovery_proposal.unwrap().ready_at),
{
}

impl WalletView {
    /// Recovery is configured, and none is in flight.
    pub open spec fn no_recovery(self) -> bool {
        self.recovery_config is Some && self.recovery_proposal is None
    }
}

/// The operations that start a recovery.
pub open spec fn recovery_initiations() -> spec_fn(Operation) -> bool {
    |o: Operation| o is Recovery && o->Recovery_0 is InitiateRecovery
}

/// Where no recovery is in flight, none can be executed until a guardian starts
/// a new one, whatever else happens.
pub proof fn lemma_no_recovery_without_an_initiation(
    state: WalletView,
    history: Seq<Call>,
    later: Call,
)
    requires
        state.no_recovery(),
        state.none_succeeds(history, recovery_initiations()),
    ensures
        state.after_all(history).met_by(later).execute_recovery() == Err::<
            WalletView,
            WalletError,
        >(WalletError::NoPendingRecovery),
{
    let calls = refused(recovery_initiations());
    let kept = |s: WalletView| s.no_recovery();
    assert forall|s: WalletView, c: Call| kept(s) && calls(s, c) implies kept(
        #[trigger] s.after(c),
    ) by {
        lemma_operations_are_separate(s.met_by(c), c.operation);
        if c.operation is Recovery {
            reveal(WalletView::recovery_step);
        }
    }
    lemma_kept_by_calls(state, history, calls, kept);
}

/// As long as the admin can sign, the admin can stop a recovery, at whatever
/// stage it is. After that there is none to execute: not at once, nor, where
/// recovery is configured, at any time until a guardian starts a new one.
pub proof fn lemma_admin_can_cancel(
    state: WalletView,
    admin: Address,
    history: Seq<Call>,
    later: Call,
)
    requires
        state.admin == Some(admin),
        state.recovery_proposal is Some,
    ensures
        state.cancel_recovery(admin) matches Ok(next) && {
            &&& next.recovery_proposal is None
            &&& next.execute_recovery() is Err
            &&& next.admin == Some(admin)
            &&& state.recovery_config is Some && next.none_succeeds(history, recovery_initiations())
                ==> next.after_all(history).met_by(later).execute_recovery() == Err::<
                WalletView,
                WalletError,
            >(WalletError::NoPendingRecovery)
        },
{
    let next = state.cancel_recovery(admin).unwrap();
    if state.recovery_config is Some && next.none_succeeds(history, recovery_initiations()) {
        assert(next.no_recovery());
        lemma_no_recovery_without_an_initiation(next, history, later);
    }
}

/// A recovery is executed once: after that there is none to execute until a
/// guardian starts a new one.
pub proof fn lemma_recovered_once(state: WalletView, history: Seq<Call>, later: Call)
    ensures
        state.execute_recovery() matches Ok(next) ==> (next.none_succeeds(
            history,
            recovery_initiations(),
        ) ==> next.after_all(history).met_by(later).execute_recovery() == Err::<
            WalletView,
            WalletError,
        >(WalletError::NoPendingRecovery)),
{
    if let Ok(next) = state.execute_recovery() {
        if next.none_succeeds(history, recovery_initiations()) {
            assert(next.no_recovery());
            lemma_no_recovery_without_an_initiation(next, history, later);
        }
    }
}

/// Taking an approval back below the threshold stops the countdown. The recovery
/// can then be executed at no ledger, and the next quorum starts the delay over.
pub proof fn lemma_lost_quorum_restarts_the_delay(
    state: WalletView,
    guardian: Address,
    sequence: u32,
    timestamp: u64,
    signers: Seq<Address>,
    approver: Address,
)
    requires
        state.recovery_sound(),
        state.revoke_recovery_approval(guardian) is Ok,
        state.recovery_proposal.unwrap().approvals.len()
            == state.recovery_config.unwrap().threshold,
    ensures
        ({
            let next = state.revoke_recovery_approval(guardian).unwrap();
            let later = next.at(sequence, timestamp, signers);
            &&& next.recovery_proposal.unwrap().ready_at is None
            &&& later.execute_recovery() == Err::<WalletView, WalletError>(
                WalletError::RecoveryNotQuorate,
            )
            &&& later.approve_recovery(approver) matches Ok(again)
                ==> again.recovery_proposal.unwrap().ready_at == Some(
                sequence.saturating_add(state.recovery_config.unwrap().delay_in_ledgers),
            )
        }),
{
    let approvals = state.recovery_proposal.unwrap().approvals;
    lemma_without(approvals, guardian);
}

/// The operations that add a guardian.
pub open spec fn additions_of(guardian: Address) -> spec_fn(Operation) -> bool {
    |o: Operation|
        o is Recovery && (o->Recovery_0 matches RecoveryOperation::AddGuardian { guardian: g, .. }
            && g == guardian)
}

/// Who is no guardian has no approval on a recovery, and can neither start one,
/// nor approve one, nor take an approval back.
pub proof fn lemma_only_guardians_have_a_say(state: WalletView, who: Address, new_admin: Address)
    requires
        state.recovery_sound(),
        !state.guardians.contains(who),
    ensures
        ({
            let refused = Err::<WalletView, WalletError>(WalletError::Unauthorized);
            &&& !state.has_approved(who)
            &&& state.initiate_recovery(who, new_admin) == refused
            &&& state.approve_recovery(who) == refused
            &&& state.revoke_recovery_approval(who) == refused
        }),
{
    assert(state.index() =~= index_of(state.guardians));
}

/// Only an addition makes a guardian.
proof fn lemma_nobody_joins_unasked(state: WalletView, history: Seq<Call>, who: Address)
    requires
        state.recovery_sound(),
        !state.guardians.contains(who),
        state.none_succeeds(history, additions_of(who)),
    ensures
        !state.after_all(history).guardians.contains(who),
    decreases history.len(),
{
    if history.len() > 0 {
        let front = history.drop_last();
        let call = history.last();
        lemma_nobody_joins_unasked(state, front, who);
        lemma_history_keeps_recovery(state, front);
        let met = state.after_all(front).met_by(call);
        lemma_operations_are_separate(met, call.operation);
        if call.operation is Recovery {
            reveal(WalletView::recovery_step);
            match call.operation->Recovery_0 {
                RecoveryOperation::AddGuardian { guardian, .. } => lemma_pushed(
                    met.guardians,
                    guardian,
                ),
                RecoveryOperation::RemoveGuardian { guardian, .. } => lemma_without(
                    met.guardians,
                    guardian,
                ),
                _ => {},
            }
        }
    }
}

/// A guardian that the admin has removed has no say, until added again: the
/// approval given before is gone, and no further one is taken.
pub proof fn lemma_removed_guardian_has_no_say(
    state: WalletView,
    admin: Address,
    guardian: Address,
    new_admin: Address,
    history: Seq<Call>,
    later: Call,
)
    requires
        state.recovery_sound(),
    ensures
        state.remove_guardian(admin, guardian) matches Ok(next) ==> (next.none_succeeds(
            history,
            additions_of(guardian),
        ) ==> {
            let refused = Err::<WalletView, WalletError>(WalletError::Unauthorized);
            let met = next.after_all(history).met_by(later);
            &&& !met.guardians.contains(guardian)
            &&& !met.has_approved(guardian)
            &&& met.initiate_recovery(guardian, new_admin) == refused
            &&& met.approve_recovery(guardian) == refused
            &&& met.revoke_recovery_approval(guardian) == refused
        }),
{
    if let Ok(next) = state.remove_guardian(admin, guardian) {
        if next.none_succeeds(history, additions_of(guardian)) {
            let removal = Operation::Recovery(
                RecoveryOperation::RemoveGuardian { admin, guardian },
            );
            assert(state.step(removal) == Ok::<WalletView, WalletError>(next)) by {
                reveal(WalletView::recovery_step);
            }
            lemma_step_keeps_recovery(state, removal);
            lemma_without(state.guardians, guardian);
            lemma_nobody_joins_unasked(next, history, guardian);
            lemma_history_keeps_recovery(next, history);
            lemma_only_guardians_have_a_say(
                next.after_all(history).met_by(later),
                guardian,
                new_admin,
            );
        }
    }
}

/// A recovery ends the proposal of a successor that the old admin had made:
/// nobody can accept it any more, at any time until a new proposal is made.
pub proof fn lemma_recovery_ends_a_transfer(
    state: WalletView,
    candidate: Address,
    history: Seq<Call>,
    later: Call,
)
    requires
        state.successors_sound(),
    ensures
        state.execute_recovery() matches Ok(next) ==> {
            let refused = Err::<WalletView, WalletError>(WalletError::NoPendingAdmin);
            &&& next.accept_admin(candidate) == refused
            &&& next.none_succeeds(history, admin_proposals()) ==> next.after_all(history).met_by(
                later,
            ).accept_admin(candidate) == refused
        },
{
    if let Ok(next) = state.execute_recovery() {
        if next.none_succeeds(history, admin_proposals()) {
            assert(next.no_successor());
            lemma_no_acceptance_without_a_proposal(next, history, candidate, later);
        }
    }
}

/// The configuration does not change under a recovery in flight.
pub proof fn lemma_config_is_frozen(state: WalletView, operation: Operation)
    requires
        state.recovery_proposal is Some,
    ensures
        state.step(operation) matches Ok(next) ==> next.recovery_config == state.recovery_config,
{
    match operation {
        Operation::Admin(_) => reveal(WalletView::admin_step),
        Operation::Recovery(_) => reveal(WalletView::recovery_step),
        Operation::Assets(_) => reveal(WalletView::asset_step),
        Operation::Spends(_) => reveal(WalletView::spend_step),
        Operation::Payments(_) => reveal(WalletView::payment_step),
        Operation::Migration(_) => reveal(WalletView::migration_step),
    }
}

/// Where the wallet has no index of its guardians yet, it answers as with one.
pub proof fn lemma_index_is_built_in_place(
    state: WalletView,
    operation: RecoveryOperation,
)
    requires
        state.guardian_index is None,
    ensures
        ({
            let indexed = WalletView { guardian_index: Some(index_of(state.guardians)), ..state };
            match (state.recovery_step(operation), indexed.recovery_step(operation)) {
                (Ok(a), Ok(b)) => a == (WalletView { guardian_index: a.guardian_index, ..b })
                    && a.index() =~= b.index(),
                (Err(a), Err(b)) => a == b,
                _ => false,
            }
        }),
{
    reveal(WalletView::recovery_step);
}

/// A guardian that was added is the last of the list, can take part in a
/// recovery, and cannot be added again.
pub proof fn lemma_added_guardian(state: WalletView, admin: Address, guardian: Address)
    ensures
        state.add_guardian(admin, guardian) matches Ok(next) ==> {
            &&& next.guardians == state.guardians.push(guardian)
            &&& next.is_guardian(guardian)
            &&& next.add_guardian(admin, guardian) == Err::<WalletView, WalletError>(
                WalletError::GuardianAlreadyAdded,
            )
        },
{
}

/// A list with an address added at its end that was not in it, without that
/// address.
proof fn lemma_pushed_without(list: Seq<Address>, who: Address)
    requires
        !list.contains(who),
    ensures
        without(list.push(who), who) == list,
{
    lemma_nothing_without(list, who);
    reveal(Seq::filter);
    assert(list.push(who).drop_last() =~= list);
}

/// An address that is not in a list leaves nothing out.
pub(crate) proof fn lemma_nothing_without(list: Seq<Address>, who: Address)
    requires
        !list.contains(who),
    ensures
        without(list, who) == list,
    decreases list.len(),
{
    reveal(Seq::filter);
    if list.len() > 0 {
        let front = list.drop_last();
        assert(list =~= front.push(list.last()));
        lemma_pushed(front, list.last());
        lemma_nothing_without(front, who);
    } else {
        assert(without(list, who) =~= list);
    }
}

/// Adding a guardian and removing it again leaves the guardians, the
/// configuration, the recovery in flight and the admin as they were.
pub proof fn lemma_removal_undoes_a_guardian(state: WalletView, admin: Address, guardian: Address)
    requires
        state.recovery_sound(),
        state.add_guardian(admin, guardian) is Ok,
    ensures
        state.add_guardian(admin, guardian).unwrap().remove_guardian(admin, guardian) matches Ok(
            next,
        ) && {
            &&& next.guardians == state.guardians
            &&& next.index() == state.index()
            &&& next.recovery_config == state.recovery_config
            &&& next.recovery_proposal == state.recovery_proposal
            &&& next.admin == state.admin
        },
{
    assert(state.index() =~= index_of(state.guardians));
    assert(!state.guardians.contains(guardian));
    let added = state.add_guardian(admin, guardian).unwrap();
    lemma_pushed(state.guardians, guardian);
    lemma_pushed_without(state.guardians, guardian);
    let next = added.remove_guardian(admin, guardian).unwrap();
    assert(next.index() =~= state.index());
}

/// Approving a recovery and taking the approval back leaves the recovery as it
/// was, its countdown among the rest.
pub proof fn lemma_revocation_undoes_an_approval(state: WalletView, guardian: Address)
    requires
        state.recovery_sound(),
        state.approve_recovery(guardian) is Ok,
    ensures
        state.approve_recovery(guardian).unwrap().revoke_recovery_approval(guardian) matches Ok(
            next,
        ) && next.recovery_proposal == state.recovery_proposal && next.guardians == state.guardians,
{
    let approvals = state.recovery_proposal.unwrap().approvals;
    lemma_pushed(approvals, guardian);
    lemma_pushed_without(approvals, guardian);
}

/// The operations that can undo a recovery in flight: a revocation, the removal
/// of a guardian, a cancellation and the execution.
pub open spec fn recovery_undoings() -> spec_fn(Operation) -> bool {
    |o: Operation|
        o is Recovery && {
            ||| o->Recovery_0 is RevokeRecoveryApproval
            ||| o->Recovery_0 is RemoveGuardian
            ||| o->Recovery_0 is CancelRecovery
            ||| o->Recovery_0 is ExecuteRecovery
        }
}

/// A recovery with a quorum has no deadline: until something undoes it, it can be
/// executed at every ledger from the end of its countdown on, by anybody,
/// whatever else happens, unless the role is where it would bring it.
pub proof fn lemma_ready_recovery_stays_ready(
    state: WalletView,
    history: Seq<Call>,
    later: Call,
    ready_at: u32,
)
    requires
        state.recovery_sound(),
        state.recovery_proposal matches Some(p) && p.ready_at == Some(ready_at),
        state.none_succeeds(history, recovery_undoings()),
    ensures
        ({
            let met = state.after_all(history).met_by(later);
            let new_admin = state.recovery_proposal.unwrap().new_admin;
            met.execute_recovery() is Ok <==> ready_at <= later.sequence && met.admin is Some
                && met.admin != Some(new_admin)
        }),
        state.admin is Some ==> state.after_all(history).admin is Some,
{
    let new_admin = state.recovery_proposal.unwrap().new_admin;
    let calls = refused(recovery_undoings());
    let kept = |s: WalletView|
        {
            &&& s.recovery_sound()
            &&& s.recovery_proposal matches Some(p) && p.ready_at == Some(ready_at) && p.new_admin
                == new_admin
        };
    assert forall|s: WalletView, c: Call| kept(s) && calls(s, c) implies kept(
        #[trigger] s.after(c),
    ) by {
        lemma_step_keeps_recovery(s.met_by(c), c.operation);
        lemma_operations_are_separate(s.met_by(c), c.operation);
        if c.operation is Recovery {
            reveal(WalletView::recovery_step);
        }
    }
    lemma_kept_by_calls(state, history, calls, kept);
    if state.admin is Some {
        lemma_an_admin_stays(state, history);
    }
}

/// A recovery configuration that was set is the one that is read.
pub proof fn lemma_config_read_back(
    state: WalletView,
    admin: Address,
    threshold: u32,
    delay_in_ledgers: u32,
)
    ensures
        state.set_recovery_config(admin, threshold, delay_in_ledgers) matches Ok(next)
            ==> next.recovery_config == Some(RecoveryConfig { threshold, delay_in_ledgers }),
{
}

impl WalletView {
    /// No recovery can be executed before a ledger as things stand.
    pub open spec fn no_recovery_before(self, ledger: int) -> bool {
        self.recovery_proposal matches Some(proposal) ==> (proposal.ready_at matches Some(ready_at)
            ==> ready_at >= ledger)
    }
}

/// An operation does not bring a recovery nearer than the minimum delay.
proof fn lemma_step_keeps_its_distance(state: WalletView, operation: Operation, ledger: int)
    requires
        state.recovery_sound(),
        state.no_recovery_before(ledger),
        ledger <= state.sequence + GlobeWallet::MIN_RECOVERY_DELAY_LEDGERS,
        ledger <= u32::MAX,
    ensures
        state.step(operation) matches Ok(next) ==> next.no_recovery_before(ledger),
{
    lemma_operations_are_separate(state, operation);
    if operation is Recovery {
        reveal(WalletView::recovery_step);
    }
}

/// While no countdown runs, the admin has at least the minimum delay, a day of
/// ledgers, in which no recovery can be executed, whatever calls are made in that
/// time and by whom.
pub proof fn lemma_the_admin_has_time(
    state: WalletView,
    history: Seq<Call>,
    sequence: u32,
    timestamp: u64,
    signers: Seq<Address>,
)
    requires
        state.recovery_sound(),
        state.recovery_proposal matches Some(proposal) ==> proposal.ready_at is None,
        forall|i: int|
            0 <= i < history.len() ==> state.sequence <= (#[trigger] history[i]).sequence,
        sequence < state.sequence + GlobeWallet::MIN_RECOVERY_DELAY_LEDGERS <= u32::MAX,
    ensures
        state.after_all(history).at(sequence, timestamp, signers).execute_recovery() is Err,
{
    lemma_history_keeps_its_distance(
        state,
        history,
        state.sequence + GlobeWallet::MIN_RECOVERY_DELAY_LEDGERS,
    );
}

proof fn lemma_history_keeps_its_distance(state: WalletView, history: Seq<Call>, ledger: int)
    requires
        state.recovery_sound(),
        state.no_recovery_before(ledger),
        forall|i: int|
            0 <= i < history.len() ==> ledger <= (#[trigger] history[i]).sequence
                + GlobeWallet::MIN_RECOVERY_DELAY_LEDGERS,
        ledger <= u32::MAX,
    ensures
        state.after_all(history).no_recovery_before(ledger),
    decreases history.len(),
{
    if history.len() > 0 {
        let front = history.drop_last();
        let call = history.last();
        assert forall|i: int| 0 <= i < front.len() implies ledger <= (#[trigger] front[i]).sequence
            + GlobeWallet::MIN_RECOVERY_DELAY_LEDGERS by {
            assert(front[i] == history[i]);
        }
        lemma_history_keeps_its_distance(state, front, ledger);
        lemma_history_keeps_recovery(state, front);
        let before = state.after_all(front);
        lemma_step_keeps_its_distance(before.met_by(call), call.operation, ledger);
    }
}

} // verus!
