//! The records that a wallet keeps and the events that it publishes.
//!
//! A type with a parameter `Code` or `List` holds bytes or addresses there: as
//! a collection in programs, as a `Seq` in contracts.

use vstd::prelude::*;

use crate::address::{Address, WasmHash};
use crate::asset::AssetInfo;
use crate::host::AddressList;
use crate::table::Stored;

verus! {

/// Names of the entries that a wallet keeps on the ledger.
#[derive(Clone, Debug, PartialEq, Eq)]
pub enum DataKey<Code = Vec<u8>> {
    Admin,
    /// The candidate that this admin has proposed.
    PendingAdmin(Address),
    PendingUpgrade,
    /// The assets that this user has registered.
    UserAssets(Address),
    /// The daily spend limit of a user for an asset.
    SpendLimit(Address, AssetInfo<Code>),
    /// What a user has spent of an asset on the day of the last spend.
    DailySpent(Address, AssetInfo<Code>),
    /// The guardians, in the order in which they were added.
    Guardians,
    RecoveryConfig,
    RecoveryProposal,
    /// The index of the guardians by address.
    GuardianMembership,
    /// The token wrapper through which payments are made.
    TokenWrapperId,
    /// Present exactly for a token that payments may move.
    AllowedToken(Address),
}

impl View for DataKey {
    type V = DataKey<Seq<u8>>;

    open spec fn view(&self) -> DataKey<Seq<u8>> {
        match self {
            DataKey::Admin => DataKey::Admin,
            DataKey::PendingAdmin(a) => DataKey::PendingAdmin(*a),
            DataKey::PendingUpgrade => DataKey::PendingUpgrade,
            DataKey::UserAssets(a) => DataKey::UserAssets(*a),
            DataKey::SpendLimit(a, i) => DataKey::SpendLimit(*a, i@),
            DataKey::DailySpent(a, i) => DataKey::DailySpent(*a, i@),
            DataKey::Guardians => DataKey::Guardians,
            DataKey::RecoveryConfig => DataKey::RecoveryConfig,
            DataKey::RecoveryProposal => DataKey::RecoveryProposal,
            DataKey::GuardianMembership => DataKey::GuardianMembership,
            DataKey::TokenWrapperId => DataKey::TokenWrapperId,
            DataKey::AllowedToken(a) => DataKey::AllowedToken(*a),
        }
    }
}

/// What was spent in a day window. `day` counts days since the epoch.
#[derive(Clone, Copy, Debug, PartialEq, Eq, Structural)]
pub struct SpendRecord {
    pub amount: i128,
    pub day: u64,
}

impl View for SpendRecord {
    type V = SpendRecord;

    open spec fn view(&self) -> SpendRecord {
        *self
    }
}

impl Stored for SpendRecord {
    fn duplicate(&self) -> (r: Self) {
        *self
    }
}

/// A queued code change, executable from the ledger `ready_at` on.
#[derive(Clone, Copy, Debug, PartialEq, Eq, Structural)]
pub struct UpgradeProposal {
    pub wasm_hash: WasmHash,
    pub proposed_by: Address,
    pub ready_at: u32,
}

/// How many guardians must approve a recovery, and how many ledgers pass
/// between quorum and the recovery becoming executable. The delay gives the
/// admin a window in which to notice and cancel.
#[derive(Clone, Copy, Debug, PartialEq, Eq, Structural)]
pub struct RecoveryConfig {
    pub threshold: u32,
    pub delay_in_ledgers: u32,
}

/// The recovery in flight. `ready_at` is set when quorum is reached and
/// cleared when approvals drop below the threshold again.
#[derive(Clone, Debug, PartialEq, Eq)]
pub struct RecoveryProposal<List = AddressList> {
    pub new_admin: Address,
    pub approvals: List,
    pub ready_at: Option<u32>,
}

impl View for RecoveryProposal {
    type V = RecoveryProposal<Seq<Address>>;

    open spec fn view(&self) -> RecoveryProposal<Seq<Address>> {
        RecoveryProposal {
            new_admin: self.new_admin,
            approvals: self.approvals@,
            ready_at: self.ready_at,
        }
    }
}

impl Stored for RecoveryProposal {
    fn duplicate(&self) -> (r: Self) {
        RecoveryProposal {
            new_admin: self.new_admin,
            approvals: self.approvals.clone(),
            ready_at: self.ready_at,
        }
    }
}

/// Told when guardians have taken over the admin role.
#[derive(Clone, Debug, PartialEq, Eq)]
pub struct RecoveryCompletedEvent<List = AddressList> {
    /// The admin just before the recovery.
    pub old_admin: Address,
    /// The admin that the guardians chose.
    pub new_admin: Address,
    /// Every guardian whose approval the proposal carried, not just enough of
    /// them for quorum.
    pub approving_guardians: List,
    /// The threshold that was in force.
    pub threshold: u32,
    /// The ledger from which the recovery was executable.
    pub ready_at: u32,
    /// The ledger at which it was executed.
    pub executed_at: u32,
}

impl View for RecoveryCompletedEvent {
    type V = RecoveryCompletedEvent<Seq<Address>>;

    open spec fn view(&self) -> RecoveryCompletedEvent<Seq<Address>> {
        RecoveryCompletedEvent {
            old_admin: self.old_admin,
            new_admin: self.new_admin,
            approving_guardians: self.approving_guardians@,
            threshold: self.threshold,
            ready_at: self.ready_at,
            executed_at: self.executed_at,
        }
    }
}

/// An event that the wallet publishes.
#[derive(Clone, Debug, PartialEq, Eq)]
pub enum Event<Code = Vec<u8>, List = AddressList> {
    Initialized { admin: Address },
    AdminProposed { current: Address, candidate: Address },
    AdminTransferred { old_admin: Address, new_admin: Address },
    AdminTransferCancelled { current: Address },
    UpgradeProposed { proposer: Address, wasm_hash: WasmHash, ready_at: u32 },
    UpgradeExecuted { executor: Address, wasm_hash: WasmHash },
    GuardianAdded { guardian: Address },
    GuardianRemoved { guardian: Address },
    RecoveryConfigSet { threshold: u32, delay_in_ledgers: u32 },
    RecoveryInitiated { guardian: Address, new_admin: Address },
    RecoveryQuorumReached { new_admin: Address, ready_at: u32 },
    RecoveryApproved { guardian: Address },
    RecoveryApprovalRevoked { guardian: Address },
    RecoveryApprovalInvalidated { guardian: Address },
    RecoveryCompleted(RecoveryCompletedEvent<List>),
    RecoveryCancelled { admin: Address },
    AssetAdded { user: Address, code: Code },
    AssetRemoved { user: Address, code: Code },
    SpendLimitSet { user: Address, code: Code, limit: i128 },
    SpendRecorded { user: Address, code: Code, amount: i128, spent_today: i128, limit: i128 },
    TokenWrapperSet { admin: Address, token_wrapper_id: Address },
    AllowedTokenAdded { admin: Address, token_id: Address },
    AllowedTokenRemoved { admin: Address, token_id: Address },
    SpendLimitsMigrated { user: Address, count: u32 },
    UserAssetsMigrated { user: Address, removed: u32 },
}

impl View for Event {
    type V = Event<Seq<u8>, Seq<Address>>;

    open spec fn view(&self) -> Event<Seq<u8>, Seq<Address>> {
        match *self {
            Event::Initialized { admin } => Event::Initialized { admin },
            Event::AdminProposed { current, candidate } => Event::AdminProposed {
                current,
                candidate,
            },
            Event::AdminTransferred { old_admin, new_admin } => Event::AdminTransferred {
                old_admin,
                new_admin,
            },
            Event::AdminTransferCancelled { current } => Event::AdminTransferCancelled { current },
            Event::UpgradeProposed { proposer, wasm_hash, ready_at } => Event::UpgradeProposed {
                proposer,
                wasm_hash,
                ready_at,
            },
            Event::UpgradeExecuted { executor, wasm_hash } => Event::UpgradeExecuted {
                executor,
                wasm_hash,
            },
            Event::GuardianAdded { guardian } => Event::GuardianAdded { guardian },
            Event::GuardianRemoved { guardian } => Event::GuardianRemoved { guardian },
            Event::RecoveryConfigSet { threshold, delay_in_ledgers } => Event::RecoveryConfigSet {
                threshold,
                delay_in_ledgers,
            },
            Event::RecoveryInitiated { guardian, new_admin } => Event::RecoveryInitiated {
                guardian,
                new_admin,
            },
            Event::RecoveryQuorumReached { new_admin, ready_at } => Event::RecoveryQuorumReached {
                new_admin,
                ready_at,
            },
            Event::RecoveryApproved { guardian } => Event::RecoveryApproved { guardian },
            Event::RecoveryApprovalRevoked { guardian } => Event::RecoveryApprovalRevoked {
                guardian,
            },
            Event::RecoveryApprovalInvalidated { guardian } => Event::RecoveryApprovalInvalidated {
                guardian,
            },
            Event::RecoveryCompleted(e) => Event::RecoveryCompleted(e@),
            Event::RecoveryCancelled { admin } => Event::RecoveryCancelled { admin },
            Event::AssetAdded { user, code } => Event::AssetAdded { user, code: code@ },
            Event::AssetRemoved { user, code } => Event::AssetRemoved { user, code: code@ },
            Event::SpendLimitSet { user, code, limit } => Event::SpendLimitSet {
                user,
                code: code@,
                limit,
            },
            Event::SpendRecorded { user, code, amount, spent_today, limit } =>
                Event::SpendRecorded { user, code: code@, amount, spent_today, limit },
            Event::TokenWrapperSet { admin, token_wrapper_id } => Event::TokenWrapperSet {
                admin,
                token_wrapper_id,
            },
            Event::AllowedTokenAdded { admin, token_id } => Event::AllowedTokenAdded {
                admin,
                token_id,
            },
            Event::AllowedTokenRemoved { admin, token_id } => Event::AllowedTokenRemoved {
                admin,
                token_id,
            },
            Event::SpendLimitsMigrated { user, count } => Event::SpendLimitsMigrated {
                user,
                count,
            },
            Event::UserAssetsMigrated { user, removed } => Event::UserAssetsMigrated {
                user,
                removed,
            },
        }
    }
}

impl Event<Seq<u8>, Seq<Address>> {
    /// The name under which an event is published.
    pub open spec fn name(self) -> Seq<char> {
        match self {
            Event::Initialized { .. } => "initialized"@,
            Event::AdminProposed { .. } => "admin_proposed"@,
            Event::AdminTransferred { .. } => "admin_transferred"@,
            Event::AdminTransferCancelled { .. } => "admin_transfer_cancelled"@,
            Event::UpgradeProposed { .. } => "upgrade_proposed"@,
            Event::UpgradeExecuted { .. } => "upgrade_executed"@,
            Event::GuardianAdded { .. } => "guardian_added"@,
            Event::GuardianRemoved { .. } => "guardian_removed"@,
            Event::RecoveryConfigSet { .. } => "recovery_config_set"@,
            Event::RecoveryInitiated { .. } => "recovery_initiated"@,
            Event::RecoveryQuorumReached { .. } => "recovery_quorum_reached"@,
            Event::RecoveryApproved { .. } => "recovery_approved"@,
            Event::RecoveryApprovalRevoked { .. } => "recovery_approval_revoked"@,
            Event::RecoveryApprovalInvalidated { .. } => "recovery_approval_invalidated"@,
            Event::RecoveryCompleted(_) => "recovery_completed"@,
            Event::RecoveryCancelled { .. } => "recovery_cancelled"@,
            Event::AssetAdded { .. } => "asset_added"@,
            Event::AssetRemoved { .. } => "asset_removed"@,
            Event::SpendLimitSet { .. } => "spend_limit_set"@,
            Event::SpendRecorded { .. } => "spend_recorded"@,
            Event::TokenWrapperSet { .. } => "token_wrapper_set"@,
            Event::AllowedTokenAdded { .. } => "allowed_token_added"@,
            Event::AllowedTokenRemoved { .. } => "allowed_token_removed"@,
            Event::SpendLimitsMigrated { .. } => "spend_limits_migrated"@,
            Event::UserAssetsMigrated { .. } => "user_assets_migrated"@,
        }
    }
}

impl Event {
    /// The name under which the event is published.
    pub fn topic(&self) -> (r: &'static str)
        ensures
            r@ == self@.name(),
    {
        match self {
            Event::Initialized { .. } => "initialized",
            Event::AdminProposed { .. } => "admin_proposed",
            Event::AdminTransferred { .. } => "admin_transferred",
            Event::AdminTransferCancelled { .. } => "admin_transfer_cancelled",
            Event::UpgradeProposed { .. } => "upgrade_proposed",
            Event::UpgradeExecuted { .. } => "upgrade_executed",
            Event::GuardianAdded { .. } => "guardian_added",
            Event::GuardianRemoved { .. } => "guardian_removed",
            Event::RecoveryConfigSet { .. } => "recovery_config_set",
            Event::RecoveryInitiated { .. } => "recovery_initiated",
            Event::RecoveryQuorumReached { .. } => "recovery_quorum_reached",
            Event::RecoveryApproved { .. } => "recovery_approved",
            Event::RecoveryApprovalRevoked { .. } => "recovery_approval_revoked",
            Event::RecoveryApprovalInvalidated { .. } => "recovery_approval_invalidated",
            Event::RecoveryCompleted(_) => "recovery_completed",
            Event::RecoveryCancelled { .. } => "recovery_cancelled",
            Event::AssetAdded { .. } => "asset_added",
            Event::AssetRemoved { .. } => "asset_removed",
            Event::SpendLimitSet { .. } => "spend_limit_set",
            Event::SpendRecorded { .. } => "spend_recorded",
            Event::TokenWrapperSet { .. } => "token_wrapper_set",
            Event::AllowedTokenAdded { .. } => "allowed_token_added",
            Event::AllowedTokenRemoved { .. } => "allowed_token_removed",
            Event::SpendLimitsMigrated { .. } => "spend_limits_migrated",
            Event::UserAssetsMigrated { .. } => "user_assets_migrated",
        }
    }
}

/// A storage entry whose lifetime can be extended.
#[derive(Clone, Debug, PartialEq, Eq)]
pub enum LedgerEntry<Code = Vec<u8>> {
    /// The wallet's own instance entry, which holds all that is not per user.
    Instance,
    /// A persistent entry under its key.
    Persistent(DataKey<Code>),
}

/// A request to keep an entry alive: where fewer than `threshold` ledgers of
/// its lifetime are left, extend it to `extend_to` ledgers from now.
#[derive(Clone, Debug, PartialEq, Eq)]
pub struct TtlExtension<Code = Vec<u8>> {
    pub entry: LedgerEntry<Code>,
    pub threshold: u32,
    pub extend_to: u32,
}

impl View for TtlExtension {
    type V = TtlExtension<Seq<u8>>;

    open spec fn view(&self) -> TtlExtension<Seq<u8>> {
        TtlExtension {
            entry: match self.entry {
                LedgerEntry::Instance => LedgerEntry::Instance,
                LedgerEntry::Persistent(key) => LedgerEntry::Persistent(key@),
            },
            threshold: self.threshold,
            extend_to: self.extend_to,
        }
    }
}

} // verus!
