//! Laws of the admin role and of code upgrades.

use vstd::prelude::*;

use crate::address::{Address, WasmHash};
use crate::wallet::error::WalletError;
use crate::wallet::laws::history::{lemma_kept_by_calls, refused, Call};
use crate::wallet::laws::operation::{
    AdminOperation, MigrationOperation, Operation, PaymentOperation, RecoveryOperation,
};
use crate::wallet::model::WalletView;
use crate::wallet::GlobeWallet;

verus! {

impl Operation {
    /// The caller that acts as admin, for an operation that is the admin's.
    pub open spec fn admin_caller(self) -> Option<Address> {
        match self {
            Operation::Admin(o) => match o {
                AdminOperation::ProposeAdmin { current, .. } => Some(current),
                AdminOperation::CancelAdminTransfer { current } => Some(current),
                AdminOperation::ProposeUpgrade { proposer, .. } => Some(proposer),
                AdminOperation::ExecuteUpgrade { executor, .. } => Some(executor),
                _ => None,
            },
            Operation::Recovery(o) => match o {
                RecoveryOperation::AddGuardian { admin, .. } => Some(admin),
                RecoveryOperation::RemoveGuardian { admin, .. } => Some(admin),
                RecoveryOperation::SetRecoveryConfig { admin, .. } => Some(admin),
                RecoveryOperation::CancelRecovery { admin } => Some(admin),
                _ => None,
            },
            Operation::Payments(o) => match o {
                PaymentOperation::SetTokenWrapper { admin, .. } => Some(admin),
                PaymentOperation::AddAllowedToken { admin, .. } => Some(admin),
                PaymentOperation::RemoveAllowedToken { admin, .. } => Some(admin),
            },
            Operation::Migration(MigrationOperation::MigrateUserAssets { admin, .. }) => Some(
                admin,
            ),
            _ => None,
        }
    }
}

/// What is the admin's to do, nobody else can do: before there is an admin it is
/// refused as `NotInitialized`, from any other caller as `Unauthorized`.
pub proof fn lemma_only_the_admin(state: WalletView, operation: Operation)
    ensures
        operation.admin_caller() matches Some(caller) && state.admin != Some(caller)
            ==> state.step(operation) == Err::<WalletView, WalletError>(
            if state.admin is None {
                WalletError::NotInitialized
            } else {
                WalletError::Unauthorized
            },
        ),
{
    match operation {
        Operation::Admin(_) => reveal(WalletView::admin_step),
        Operation::Recovery(_) => reveal(WalletView::recovery_step),
        Operation::Payments(_) => reveal(WalletView::payment_step),
        Operation::Migration(_) => reveal(WalletView::migration_step),
        _ => {},
    }
}

/// The admin changes only when a first one is set, when a candidate accepts,
/// and when the guardians recover the role. Once there is an admin, there
/// always is one.
pub proof fn lemma_how_the_admin_changes(state: WalletView, operation: Operation)
    ensures
        state.step(operation) matches Ok(next) ==> {
            &&& state.admin is Some ==> next.admin is Some
            &&& next.admin != state.admin ==> {
                ||| operation is Admin && operation->Admin_0 is Initialize && state.admin is None
                ||| operation is Admin && operation->Admin_0 is AcceptAdmin
                ||| operation is Recovery && operation->Recovery_0 is ExecuteRecovery
            }
        },
{
    match operation {
        Operation::Admin(_) => reveal(WalletView::admin_step),
        Operation::Recovery(_) => reveal(WalletView::recovery_step),
        Operation::Assets(_) => reveal(WalletView::asset_step),
        Operation::Spends(_) => reveal(WalletView::spend_step),
        Operation::Payments(_) => reveal(WalletView::payment_step),
        Operation::Migration(_) => reveal(WalletView::migration_step),
    }
}

/// A wallet is initialized once, whatever is done with it afterwards.
pub proof fn lemma_initialized_once(
    state: WalletView,
    first: Address,
    second: Address,
    history: Seq<Call>,
    later: Call,
)
    ensures
        state.initialize(first) matches Ok(next) ==> {
            let refused = Err::<WalletView, WalletError>(WalletError::AlreadyInitialized);
            &&& next.initialize(second) == refused
            &&& next.after_all(history).met_by(later).initialize(second) == refused
        },
{
    if let Ok(next) = state.initialize(first) {
        lemma_an_admin_stays(next, history);
    }
}

/// Once there is an admin, there is one after every history.
pub proof fn lemma_an_admin_stays(state: WalletView, history: Seq<Call>)
    requires
        state.admin is Some,
    ensures
        state.after_all(history).admin is Some,
    decreases history.len(),
{
    if history.len() > 0 {
        let before = state.after_all(history.drop_last());
        let call = history.last();
        lemma_an_admin_stays(state, history.drop_last());
        lemma_how_the_admin_changes(before.met_by(call), call.operation);
    }
}

/// The operations that end a proposal of a successor: a later proposal, a
/// withdrawal, an acceptance and a recovery.
pub open spec fn proposal_ends() -> spec_fn(Operation) -> bool {
    |o: Operation|
        {
            ||| o is Admin && o->Admin_0 is ProposeAdmin
            ||| o is Admin && o->Admin_0 is CancelAdminTransfer
            ||| o is Admin && o->Admin_0 is AcceptAdmin
            ||| o is Recovery && o->Recovery_0 is ExecuteRecovery
        }
}

/// No other operation touches the admin or the proposals.
proof fn lemma_step_keeps_the_proposal(state: WalletView, operation: Operation)
    requires
        state.admin is Some,
        !proposal_ends()(operation),
    ensures
        state.step(operation) matches Ok(next) ==> next.admin == state.admin
            && next.pending_admins == state.pending_admins,
{
    match operation {
        Operation::Admin(_) => reveal(WalletView::admin_step),
        Operation::Recovery(_) => reveal(WalletView::recovery_step),
        Operation::Assets(_) => reveal(WalletView::asset_step),
        Operation::Spends(_) => reveal(WalletView::spend_step),
        Operation::Payments(_) => reveal(WalletView::payment_step),
        Operation::Migration(_) => reveal(WalletView::migration_step),
    }
}

/// A proposal leaves the admin in office, and the candidate becomes the admin by
/// accepting it, at whatever ledger and whatever happens before, as long as
/// nothing has ended the proposal.
pub proof fn lemma_proposal_then_acceptance(
    state: WalletView,
    current: Address,
    candidate: Address,
    history: Seq<Call>,
    later: Call,
)
    ensures
        state.propose_admin(current, candidate) matches Ok(proposed) ==> {
            &&& proposed.admin == state.admin
            &&& proposed.none_succeeds(history, proposal_ends()) ==> {
                let met = proposed.after_all(history).met_by(later);
                &&& met.admin == state.admin
                &&& met.accept_admin(candidate) matches Ok(next) && next.admin == Some(candidate)
            }
        },
{
    if let Ok(proposed) = state.propose_admin(current, candidate) {
        if proposed.none_succeeds(history, proposal_ends()) {
            let calls = refused(proposal_ends());
            let kept = |s: WalletView|
                s.admin == Some(current) && s.pending_admins == proposed.pending_admins;
            assert forall|s: WalletView, c: Call| kept(s) && calls(s, c) implies kept(
                #[trigger] s.after(c),
            ) by {
                if s.grants(c) {
                    lemma_step_keeps_the_proposal(s.met_by(c), c.operation);
                }
            }
            lemma_kept_by_calls(proposed, history, calls, kept);
        }
    }
}

/// Of two proposals, the later one counts: the earlier candidate can no longer
/// accept.
pub proof fn lemma_later_proposal_counts(
    state: WalletView,
    current: Address,
    first: Address,
    second: Address,
)
    requires
        first != second,
    ensures
        state.propose_admin(current, first) matches Ok(once) ==> (once.propose_admin(
            current,
            second,
        ) matches Ok(twice) && twice.accept_admin(first) == Err::<WalletView, WalletError>(
            WalletError::Unauthorized,
        ) && twice.accept_admin(second) is Ok),
{
}

impl WalletView {
    /// There is an admin, and nobody is proposed as a successor.
    pub open spec fn no_successor(self) -> bool {
        &&& self.admin is Some
        &&& forall|a: Address| !#[trigger] self.pending_admins.contains_key(a)
    }
}

/// The operations that propose a successor.
pub open spec fn admin_proposals() -> spec_fn(Operation) -> bool {
    |o: Operation| o is Admin && o->Admin_0 is ProposeAdmin
}

/// Only a proposal makes somebody a successor.
proof fn lemma_step_names_no_successor(state: WalletView, operation: Operation)
    requires
        state.no_successor(),
        !admin_proposals()(operation),
    ensures
        state.step(operation) matches Ok(next) ==> next.no_successor(),
{
    match operation {
        Operation::Admin(_) => reveal(WalletView::admin_step),
        Operation::Recovery(_) => reveal(WalletView::recovery_step),
        Operation::Assets(_) => reveal(WalletView::asset_step),
        Operation::Spends(_) => reveal(WalletView::spend_step),
        Operation::Payments(_) => reveal(WalletView::payment_step),
        Operation::Migration(_) => reveal(WalletView::migration_step),
    }
}

/// Without a proposal there is nothing to accept: where nobody is proposed as a
/// successor, nobody can accept the role until a new proposal is made, whatever
/// else happens.
pub proof fn lemma_no_acceptance_without_a_proposal(
    state: WalletView,
    history: Seq<Call>,
    candidate: Address,
    later: Call,
)
    requires
        state.no_successor(),
        state.none_succeeds(history, admin_proposals()),
    ensures
        state.after_all(history).met_by(later).accept_admin(candidate) == Err::<
            WalletView,
            WalletError,
        >(WalletError::NoPendingAdmin),
{
    let calls = refused(admin_proposals());
    let kept = |s: WalletView| s.no_successor();
    assert forall|s: WalletView, c: Call| kept(s) && calls(s, c) implies kept(
        #[trigger] s.after(c),
    ) by {
        if s.grants(c) {
            lemma_step_names_no_successor(s.met_by(c), c.operation);
        }
    }
    lemma_kept_by_calls(state, history, calls, kept);
}

/// After a proposal is withdrawn, nobody can accept it: not at once, nor, where
/// only the admin in office had a proposal, at any time until a new one is made.
pub proof fn lemma_withdrawn_proposal(
    state: WalletView,
    current: Address,
    candidate: Address,
    history: Seq<Call>,
    later: Call,
)
    ensures
        state.cancel_admin_transfer(current) matches Ok(next) ==> {
            let refused = Err::<WalletView, WalletError>(WalletError::NoPendingAdmin);
            &&& next.accept_admin(candidate) == refused
            &&& state.successors_sound() && next.none_succeeds(history, admin_proposals())
                ==> next.after_all(history).met_by(later).accept_admin(candidate) == refused
        },
{
    if let Ok(next) = state.cancel_admin_transfer(current) {
        if state.successors_sound() && next.none_succeeds(history, admin_proposals()) {
            assert(next.no_successor());
            lemma_no_acceptance_without_a_proposal(next, history, candidate, later);
        }
    }
}

/// A proposal is accepted once: after that nobody can accept it again, neither
/// the candidate nor anybody else, until a new proposal is made.
pub proof fn lemma_accepted_once(
    state: WalletView,
    accepted: Address,
    candidate: Address,
    history: Seq<Call>,
    later: Call,
)
    requires
        state.successors_sound(),
    ensures
        state.accept_admin(accepted) matches Ok(next) ==> (next.none_succeeds(
            history,
            admin_proposals(),
        ) ==> next.after_all(history).met_by(later).accept_admin(candidate) == Err::<
            WalletView,
            WalletError,
        >(WalletError::NoPendingAdmin)),
{
    if let Ok(next) = state.accept_admin(accepted) {
        if next.none_succeeds(history, admin_proposals()) {
            assert(next.no_successor());
            lemma_no_acceptance_without_a_proposal(next, history, candidate, later);
        }
    }
}

/// A queued upgrade waits: at no ledger before its time can it be executed, and
/// its time is at least the minimum delay away, as far as ledger numbers go. From
/// then on it can, and no other code can be put in its place.
pub proof fn lemma_upgrade_waits(
    state: WalletView,
    proposer: Address,
    wasm_hash: WasmHash,
    delay_in_ledgers: u32,
    executor: Address,
    other_hash: WasmHash,
    sequence: u32,
    timestamp: u64,
    signers: Seq<Address>,
)
    ensures
        state.propose_upgrade(proposer, wasm_hash, delay_in_ledgers) matches Ok(queued) ==> {
            let later = queued.at(sequence, timestamp, signers);
            let due = state.sequence + delay_in_ledgers;
            &&& due >= state.sequence + GlobeWallet::MIN_UPGRADE_DELAY_LEDGERS
            &&& sequence < due && sequence < u32::MAX ==> later.execute_upgrade(
                executor,
                other_hash,
            ) is Err
            &&& sequence >= due ==> (later.execute_upgrade(proposer, wasm_hash) matches Ok(next)
                && next.code_update == Some(wasm_hash) && next.pending_upgrade is None)
            &&& other_hash != wasm_hash ==> later.execute_upgrade(executor, other_hash) is Err
        },
{
}

/// The code changes only by the execution of an upgrade that was queued for that
/// code and whose time has come.
pub proof fn lemma_code_changes_by_upgrade(state: WalletView, operation: Operation)
    ensures
        state.step(operation) matches Ok(next) ==> (next.code_update != state.code_update ==> {
            &&& operation is Admin
            &&& operation->Admin_0 is ExecuteUpgrade
            &&& state.pending_upgrade matches Some(queued) && queued.ready_at <= state.sequence
                && next.code_update == Some(queued.wasm_hash)
        }),
{
    match operation {
        Operation::Admin(_) => reveal(WalletView::admin_step),
        Operation::Recovery(_) => reveal(WalletView::recovery_step),
        Operation::Assets(_) => reveal(WalletView::asset_step),
        Operation::Spends(_) => reveal(WalletView::spend_step),
        Operation::Payments(_) => reveal(WalletView::payment_step),
        Operation::Migration(_) => reveal(WalletView::migration_step),
    }
}

/// The calls that are made before a ledger.
pub open spec fn before_ledger(ledger: u32) -> spec_fn(WalletView, Call) -> bool {
    |state: WalletView, call: Call| call.sequence < ledger
}

/// An upgrade that is queued stays queued until its time: no call before that
/// withdraws it, puts another in its place or changes the code.
pub proof fn lemma_upgrade_stays_queued(state: WalletView, history: Seq<Call>)
    requires
        state.pending_upgrade matches Some(queued) && state.each_call(
            history,
            before_ledger(queued.ready_at),
        ),
    ensures
        state.after_all(history).pending_upgrade == state.pending_upgrade,
        state.after_all(history).code_update == state.code_update,
{
    let queued = state.pending_upgrade.unwrap();
    let calls = before_ledger(queued.ready_at);
    let kept = |s: WalletView|
        s.pending_upgrade == Some(queued) && s.code_update == state.code_update;
    assert forall|s: WalletView, c: Call| kept(s) && calls(s, c) implies kept(
        #[trigger] s.after(c),
    ) by {
        if s.grants(c) {
            lemma_step_keeps_the_upgrade(s.met_by(c), c.operation);
        }
    }
    lemma_kept_by_calls(state, history, calls, kept);
}

proof fn lemma_step_keeps_the_upgrade(state: WalletView, operation: Operation)
    requires
        state.pending_upgrade matches Some(queued) && state.sequence < queued.ready_at,
    ensures
        state.step(operation) matches Ok(next) ==> next.pending_upgrade == state.pending_upgrade
            && next.code_update == state.code_update,
{
    match operation {
        Operation::Admin(_) => reveal(WalletView::admin_step),
        Operation::Recovery(_) => reveal(WalletView::recovery_step),
        Operation::Assets(_) => reveal(WalletView::asset_step),
        Operation::Spends(_) => reveal(WalletView::spend_step),
        Operation::Payments(_) => reveal(WalletView::payment_step),
        Operation::Migration(_) => reveal(WalletView::migration_step),
    }
}

} // verus!
