//! Laws of what a call asks the ledger to do.

use vstd::prelude::*;

use crate::wallet::laws::operation::{
    AdminOperation, AssetOperation, MigrationOperation, Operation, PaymentOperation,
    RecoveryOperation, SpendOperation,
};
use crate::wallet::model::{WalletView, PERSISTENT_TTL_EXTEND_TO, PERSISTENT_TTL_THRESHOLD};
use crate::wallet::types::{LedgerEntry, TtlExtension};

verus! {

/// The request to keep the wallet's own entry alive.
pub open spec fn instance_extension() -> TtlExtension<Seq<u8>> {
    TtlExtension {
        entry: LedgerEntry::Instance,
        threshold: PERSISTENT_TTL_THRESHOLD,
        extend_to: PERSISTENT_TTL_EXTEND_TO,
    }
}

impl WalletView {
    /// A call that led from this state to another published what it did, and
    /// asked for the wallet's own entry to be kept alive, or did nothing.
    pub open spec fn accounts_for(self, next: Self) -> bool {
        &&& self.events.is_prefix_of(next.events)
        &&& self.ttl_extensions.is_prefix_of(next.ttl_extensions)
        &&& next.events == self.events ==> next == (WalletView {
            ttl_extensions: next.ttl_extensions,
            ..self
        })
        &&& next != self ==> exists|i: int|
            self.ttl_extensions.len() <= i < next.ttl_extensions.len()
                && #[trigger] next.ttl_extensions[i] == instance_extension()
    }
}

/// A state that has one more request for the wallet's own entry, possibly more
/// requests and one more event.
proof fn lemma_bumped(state: WalletView, next: WalletView)
    requires
        state.ttl_extensions.is_prefix_of(next.ttl_extensions),
        exists|i: int|
            state.ttl_extensions.len() <= i < next.ttl_extensions.len()
                && #[trigger] next.ttl_extensions[i] == instance_extension(),
        state.events.is_prefix_of(next.events),
        next.events.len() > state.events.len(),
    ensures
        state.accounts_for(next),
{
}

proof fn lemma_admin_accounts(state: WalletView, operation: AdminOperation)
    ensures
        state.admin_step(operation) matches Ok(next) ==> state.accounts_for(next),
{
    reveal(WalletView::admin_step);
    if let Ok(next) = state.admin_step(operation) {
        assert(next.ttl_extensions[state.ttl_extensions.len() as int] == instance_extension());
        lemma_bumped(state, next);
    }
}

proof fn lemma_recovery_accounts(state: WalletView, operation: RecoveryOperation)
    ensures
        state.recovery_step(operation) matches Ok(next) ==> state.accounts_for(next),
{
    reveal(WalletView::recovery_step);
    if let Ok(next) = state.recovery_step(operation) {
        assert(next.ttl_extensions[state.ttl_extensions.len() as int] == instance_extension());
        lemma_bumped(state, next);
    }
}

proof fn lemma_assets_account(state: WalletView, operation: AssetOperation)
    ensures
        state.asset_step(operation) matches Ok(next) ==> state.accounts_for(next),
{
    reveal(WalletView::asset_step);
    if let Ok(next) = state.asset_step(operation) {
        assert(next.ttl_extensions[state.ttl_extensions.len() as int] == instance_extension());
        lemma_bumped(state, next);
    }
}

proof fn lemma_spends_account(state: WalletView, operation: SpendOperation)
    ensures
        state.spend_step(operation) matches Ok(next) ==> state.accounts_for(next),
{
    reveal(WalletView::spend_step);
    if let Ok(next) = state.spend_step(operation) {
        assert(next.ttl_extensions[state.ttl_extensions.len() as int] == instance_extension());
        if next.events.len() > state.events.len() {
            lemma_bumped(state, next);
        }
    }
}

proof fn lemma_payments_account(state: WalletView, operation: PaymentOperation)
    ensures
        state.payment_step(operation) matches Ok(next) ==> state.accounts_for(next),
{
    reveal(WalletView::payment_step);
    if let Ok(next) = state.payment_step(operation) {
        let n = state.ttl_extensions.len() as int;
        assert(next.ttl_extensions[if operation is AddAllowedToken {
            n + 1
        } else {
            n
        }] == instance_extension());
        lemma_bumped(state, next);
    }
}

proof fn lemma_migrations_account(state: WalletView, operation: MigrationOperation)
    ensures
        state.migration_step(operation) matches Ok(next) ==> state.accounts_for(next),
{
    reveal(WalletView::migration_step);
    if let Ok(next) = state.migration_step(operation) {
        let n = state.ttl_extensions.len() as int;
        match operation {
            MigrationOperation::MigrateSpendLimits { user } => {
                let moved = state.migration_extensions(user, state.assets_of(user).len() as int);
                assert(next.ttl_extensions[n + moved.len()] == instance_extension());
                lemma_bumped(state, next);
            },
            MigrationOperation::MigrateUserAssets { admin, user } => {
                if next != state {
                    assert(next.ttl_extensions[n] == instance_extension());
                    lemma_bumped(state, next);
                }
            },
        }
    }
}

/// Whatever a call changes in the wallet's records it publishes, and every call
/// that succeeds keeps the wallet's own entry alive. One that changes nothing
/// but lifetimes, a spend without a limit, publishes nothing; a migration with
/// nothing to do does nothing at all.
pub proof fn lemma_changes_are_accounted_for(state: WalletView, operation: Operation)
    ensures
        state.step(operation) matches Ok(next) ==> state.accounts_for(next),
{
    match operation {
        Operation::Admin(o) => lemma_admin_accounts(state, o),
        Operation::Recovery(o) => lemma_recovery_accounts(state, o),
        Operation::Assets(o) => lemma_assets_account(state, o),
        Operation::Spends(o) => lemma_spends_account(state, o),
        Operation::Payments(o) => lemma_payments_account(state, o),
        Operation::Migration(o) => lemma_migrations_account(state, o),
    }
}

/// A `recovery_completed` event is published by the execution of a recovery and
/// by nothing else.
pub proof fn lemma_recovery_completed_means_recovery(
    state: WalletView,
    operation: Operation,
    i: int,
)
    requires
        state.step(operation) is Ok,
        state.events.len() <= i < state.step(operation).unwrap().events.len(),
    ensures
        state.step(operation).unwrap().events[i] is RecoveryCompleted ==> operation is Recovery
            && operation->Recovery_0 is ExecuteRecovery,
{
    match operation {
        Operation::Admin(_) => reveal(WalletView::admin_step),
        Operation::Recovery(_) => reveal(WalletView::recovery_step),
        Operation::Assets(_) => reveal(WalletView::asset_step),
        Operation::Spends(_) => reveal(WalletView::spend_step),
        Operation::Payments(_) => reveal(WalletView::payment_step),
        Operation::Migration(_) => reveal(WalletView::migration_step),
    }
}

} // verus!
