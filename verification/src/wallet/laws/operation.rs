//! Every operation of the wallet, as one step from state to state.

use vstd::prelude::*;

use crate::address::{Address, WasmHash};
use crate::wallet::error::WalletError;
use crate::wallet::model::{Asset, WalletView};

verus! {

/// An operation on the admin role or on the code, with its arguments.
pub enum AdminOperation {
    Initialize { admin: Address },
    ProposeAdmin { current: Address, candidate: Address },
    AcceptAdmin { candidate: Address },
    CancelAdminTransfer { current: Address },
    ProposeUpgrade { proposer: Address, wasm_hash: WasmHash, delay_in_ledgers: u32 },
    ExecuteUpgrade { executor: Address, wasm_hash: WasmHash },
}

/// An operation on guardians and recovery, with its arguments.
pub enum RecoveryOperation {
    AddGuardian { admin: Address, guardian: Address },
    RemoveGuardian { admin: Address, guardian: Address },
    SetRecoveryConfig { admin: Address, threshold: u32, delay_in_ledgers: u32 },
    InitiateRecovery { guardian: Address, new_admin: Address },
    ApproveRecovery { guardian: Address },
    RevokeRecoveryApproval { guardian: Address },
    ExecuteRecovery,
    CancelRecovery { admin: Address },
}

/// An operation on asset lists, with its arguments.
pub enum AssetOperation {
    AddAsset { user: Address, asset: Asset },
    RemoveAsset { user: Address, code: Seq<u8> },
}

/// An operation on limits and spend records, with its arguments.
pub enum SpendOperation {
    SetSpendLimit { user: Address, asset: Asset, limit: i128 },
    RecordSpend { user: Address, asset: Asset, amount: i128 },
    Send { user: Address, token_id: Address, asset: Asset, amount: i128 },
}

/// An operation on what payments may do, with its arguments.
pub enum PaymentOperation {
    SetTokenWrapper { admin: Address, token_wrapper_id: Address },
    AddAllowedToken { admin: Address, token_id: Address },
    RemoveAllowedToken { admin: Address, token_id: Address },
}

/// A migration, with its arguments.
pub enum MigrationOperation {
    MigrateSpendLimits { user: Address },
    MigrateUserAssets { admin: Address, user: Address },
}

/// An operation that can change the wallet.
pub enum Operation {
    Admin(AdminOperation),
    Recovery(RecoveryOperation),
    Assets(AssetOperation),
    Spends(SpendOperation),
    Payments(PaymentOperation),
    Migration(MigrationOperation),
}

impl WalletView {
    #[verifier::opaque]
    pub open spec fn admin_step(self, operation: AdminOperation) -> Result<Self, WalletError> {
        match operation {
            AdminOperation::Initialize { admin } => self.initialize(admin),
            AdminOperation::ProposeAdmin { current, candidate } => self.propose_admin(
                current,
                candidate,
            ),
            AdminOperation::AcceptAdmin { candidate } => self.accept_admin(candidate),
            AdminOperation::CancelAdminTransfer { current } => self.cancel_admin_transfer(current),
            AdminOperation::ProposeUpgrade { proposer, wasm_hash, delay_in_ledgers } =>
                self.propose_upgrade(proposer, wasm_hash, delay_in_ledgers),
            AdminOperation::ExecuteUpgrade { executor, wasm_hash } => self.execute_upgrade(
                executor,
                wasm_hash,
            ),
        }
    }

    #[verifier::opaque]
    pub open spec fn recovery_step(self, operation: RecoveryOperation) -> Result<
        Self,
        WalletError,
    > {
        match operation {
            RecoveryOperation::AddGuardian { admin, guardian } => self.add_guardian(
                admin,
                guardian,
            ),
            RecoveryOperation::RemoveGuardian { admin, guardian } => self.remove_guardian(
                admin,
                guardian,
            ),
            RecoveryOperation::SetRecoveryConfig { admin, threshold, delay_in_ledgers } =>
                self.set_recovery_config(admin, threshold, delay_in_ledgers),
            RecoveryOperation::InitiateRecovery { guardian, new_admin } => self.initiate_recovery(
                guardian,
                new_admin,
            ),
            RecoveryOperation::ApproveRecovery { guardian } => self.approve_recovery(guardian),
            RecoveryOperation::RevokeRecoveryApproval { guardian } =>
                self.revoke_recovery_approval(guardian),
            RecoveryOperation::ExecuteRecovery => self.execute_recovery(),
            RecoveryOperation::CancelRecovery { admin } => self.cancel_recovery(admin),
        }
    }

    #[verifier::opaque]
    pub open spec fn asset_step(self, operation: AssetOperation) -> Result<Self, WalletError> {
        match operation {
            AssetOperation::AddAsset { user, asset } => self.add_asset(user, asset),
            AssetOperation::RemoveAsset { user, code } => self.remove_asset(user, code),
        }
    }

    #[verifier::opaque]
    pub open spec fn spend_step(self, operation: SpendOperation) -> Result<Self, WalletError> {
        match operation {
            SpendOperation::SetSpendLimit { user, asset, limit } => self.set_spend_limit(
                user,
                asset,
                limit,
            ),
            SpendOperation::RecordSpend { user, asset, amount } => self.record_spend(
                user,
                asset,
                amount,
            ),
            SpendOperation::Send { user, token_id, asset, amount } => self.send(
                user,
                token_id,
                asset,
                amount,
            ),
        }
    }

    #[verifier::opaque]
    pub open spec fn payment_step(self, operation: PaymentOperation) -> Result<Self, WalletError> {
        match operation {
            PaymentOperation::SetTokenWrapper { admin, token_wrapper_id } =>
                self.set_token_wrapper(admin, token_wrapper_id),
            PaymentOperation::AddAllowedToken { admin, token_id } => self.add_allowed_token(
                admin,
                token_id,
            ),
            PaymentOperation::RemoveAllowedToken { admin, token_id } => self.remove_allowed_token(
                admin,
                token_id,
            ),
        }
    }

    #[verifier::opaque]
    pub open spec fn migration_step(self, operation: MigrationOperation) -> Result<
        Self,
        WalletError,
    > {
        match operation {
            MigrationOperation::MigrateSpendLimits { user } => Ok(self.migrate_spend_limits(user)),
            MigrationOperation::MigrateUserAssets { admin, user } => self.migrate_user_assets(
                admin,
                user,
            ),
        }
    }

    /// What an operation makes of the state.
    pub open spec fn step(self, operation: Operation) -> Result<WalletView, WalletError> {
        match operation {
            Operation::Admin(o) => self.admin_step(o),
            Operation::Recovery(o) => self.recovery_step(o),
            Operation::Assets(o) => self.asset_step(o),
            Operation::Spends(o) => self.spend_step(o),
            Operation::Payments(o) => self.payment_step(o),
            Operation::Migration(o) => self.migration_step(o),
        }
    }

    /// The same wallet at another ledger, for a call that others have authorized.
    pub open spec fn at(self, sequence: u32, timestamp: u64, signers: Seq<Address>) -> WalletView {
        WalletView { sequence, timestamp, signers, ..self }
    }

    /// Two states with the same guardians and the same recovery.
    pub open spec fn same_recovery(self, other: Self) -> bool {
        &&& self.guardians == other.guardians
        &&& self.guardian_index == other.guardian_index
        &&& self.recovery_config == other.recovery_config
        &&& self.recovery_proposal == other.recovery_proposal
    }

    /// Two states with the same limits and spend records.
    pub open spec fn same_spends(self, other: Self) -> bool {
        &&& self.spend_limits == other.spend_limits
        &&& self.daily_spent == other.daily_spent
        &&& self.legacy_spend_limits == other.legacy_spend_limits
        &&& self.legacy_daily_spent == other.legacy_daily_spent
    }

    /// Two states of one wallet in one call.
    pub open spec fn same_call(self, other: Self) -> bool {
        &&& self.contract == other.contract
        &&& self.sequence == other.sequence
        &&& self.timestamp == other.timestamp
        &&& self.signers == other.signers
    }
}

proof fn lemma_recovery_separate(state: WalletView, operation: RecoveryOperation)
    ensures
        state.recovery_step(operation) matches Ok(next) ==> next.same_call(state)
            && next.same_spends(state) && next.user_assets == state.user_assets,
{
    reveal(WalletView::recovery_step);
}

proof fn lemma_spends_separate(state: WalletView, operation: SpendOperation)
    ensures
        state.spend_step(operation) matches Ok(next) ==> next.same_call(state)
            && next.same_recovery(state) && next.user_assets == state.user_assets,
{
    reveal(WalletView::spend_step);
}

/// An operation changes only what it is on: guardians and recovery, asset
/// lists, or limits and spend records. None changes the ledger it runs at.
pub proof fn lemma_operations_are_separate(state: WalletView, operation: Operation)
    ensures
        state.step(operation) matches Ok(next) ==> {
            &&& next.same_call(state)
            &&& operation !is Recovery ==> next.same_recovery(state)
            &&& operation !is Assets && operation !is Migration ==> next.user_assets
                == state.user_assets
            &&& operation !is Spends && operation !is Migration ==> next.same_spends(state)
        },
{
    match operation {
        Operation::Admin(_) => reveal(WalletView::admin_step),
        Operation::Recovery(o) => lemma_recovery_separate(state, o),
        Operation::Assets(_) => reveal(WalletView::asset_step),
        Operation::Spends(o) => lemma_spends_separate(state, o),
        Operation::Payments(_) => reveal(WalletView::payment_step),
        Operation::Migration(_) => reveal(WalletView::migration_step),
    }
}

} // verus!
