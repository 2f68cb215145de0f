//! What a wallet call can be refused with.

use vstd::prelude::*;

verus! {

/// The reason for which a wallet call was refused.
///
/// Each has a numeric code of its own, see [`WalletError::code`].
#[derive(Clone, Copy, Debug, PartialEq, Eq, Structural)]
pub enum WalletError {
    AlreadyInitialized,
    NotInitialized,
    Unauthorized,
    AssetAlreadyAdded,
    AssetNotFound,
    InvalidSpendLimit,
    /// The payment would exceed the daily spend limit for this asset.
    SpendLimitExceeded,
    NoAssetsProvided,
    NoPendingAdmin,
    SpendOverflow,
    AssetLimitExceeded,
    MaxAssetsReached,
    UpgradeAlreadyPending,
    UpgradeNotPending,
    UpgradeHashMismatch,
    UpgradeNotReady,
    UpgradeFailed,
    /// The guardian is already registered.
    GuardianAlreadyAdded,
    /// The address is not a registered guardian.
    GuardianNotFound,
    /// One approval must never be enough.
    InvalidRecoveryThreshold,
    /// There would be fewer guardians than the threshold, or than the minimum.
    NotEnoughGuardians,
    /// No recovery threshold and delay are configured.
    RecoveryNotConfigured,
    /// A recovery proposal is in flight.
    RecoveryAlreadyPending,
    /// No recovery proposal is in flight.
    NoPendingRecovery,
    /// The guardian has already approved the proposal.
    AlreadyApproved,
    /// The guardian has not approved the proposal.
    ApprovalNotFound,
    /// The delay after quorum has not elapsed.
    RecoveryNotReady,
    /// The proposal does not have enough approvals.
    RecoveryNotQuorate,
    /// The code and the issuer of an asset contradict each other.
    InvalidAssetInfo,
    /// The proposed code was never uploaded.
    UpgradeWasmNotUploaded,
    /// The guardian set is full.
    GuardianLimitExceeded,
    /// The recovery would hand control to the address that has it already.
    RecoveryNewAdminUnchanged,
    /// The asset code is empty or too long.
    InvalidAssetCode,
    /// The token is not on the allowlist.
    TokenNotAllowed,
    /// No token wrapper is configured.
    TokenWrapperNotSet,
    /// The token wrapper did not complete the transfer.
    TokenTransferFailed,
    /// The delay of an upgrade is below the minimum.
    UpgradeDelayTooShort,
    /// The delay of a recovery is below the minimum.
    RecoveryDelayTooShort,
}

impl WalletError {
    /// The number under which the error is reported on the ledger.
    pub open spec fn number(self) -> u32 {
        match self {
            WalletError::AlreadyInitialized => 1001,
            WalletError::NotInitialized => 1002,
            WalletError::Unauthorized => 1003,
            WalletError::AssetAlreadyAdded => 1004,
            WalletError::AssetNotFound => 1005,
            WalletError::InvalidSpendLimit => 1006,
            WalletError::SpendLimitExceeded => 1007,
            WalletError::NoAssetsProvided => 1008,
            WalletError::NoPendingAdmin => 1009,
            WalletError::SpendOverflow => 1010,
            WalletError::AssetLimitExceeded => 1011,
            WalletError::MaxAssetsReached => 1012,
            WalletError::UpgradeAlreadyPending => 1013,
            WalletError::UpgradeNotPending => 1014,
            WalletError::UpgradeHashMismatch => 1015,
            WalletError::UpgradeNotReady => 1016,
            WalletError::UpgradeFailed => 1017,
            WalletError::GuardianAlreadyAdded => 1018,
            WalletError::GuardianNotFound => 1019,
            WalletError::InvalidRecoveryThreshold => 1020,
            WalletError::NotEnoughGuardians => 1021,
            WalletError::RecoveryNotConfigured => 1022,
            WalletError::RecoveryAlreadyPending => 1023,
            WalletError::NoPendingRecovery => 1024,
            WalletError::AlreadyApproved => 1025,
            WalletError::ApprovalNotFound => 1026,
            WalletError::RecoveryNotReady => 1027,
            WalletError::RecoveryNotQuorate => 1028,
            WalletError::InvalidAssetInfo => 1029,
            WalletError::UpgradeWasmNotUploaded => 1030,
            WalletError::GuardianLimitExceeded => 1031,
            WalletError::RecoveryNewAdminUnchanged => 1032,
            WalletError::InvalidAssetCode => 1033,
            WalletError::TokenNotAllowed => 1034,
            WalletError::TokenWrapperNotSet => 1035,
            WalletError::TokenTransferFailed => 1036,
            WalletError::UpgradeDelayTooShort => 1037,
            WalletError::RecoveryDelayTooShort => 1038,
        }
    }

    /// The number under which the error is reported on the ledger.
    pub fn code(self) -> (r: u32)
        ensures
            r == self.number(),
    {
        match self {
            WalletError::AlreadyInitialized => 1001,
            WalletError::NotInitialized => 1002,
            WalletError::Unauthorized => 1003,
            WalletError::AssetAlreadyAdded => 1004,
            WalletError::AssetNotFound => 1005,
            WalletError::InvalidSpendLimit => 1006,
            WalletError::SpendLimitExceeded => 1007,
            WalletError::NoAssetsProvided => 1008,
            WalletError::NoPendingAdmin => 1009,
            WalletError::SpendOverflow => 1010,
            WalletError::AssetLimitExceeded => 1011,
            WalletError::MaxAssetsReached => 1012,
            WalletError::UpgradeAlreadyPending => 1013,
            WalletError::UpgradeNotPending => 1014,
            WalletError::UpgradeHashMismatch => 1015,
            WalletError::UpgradeNotReady => 1016,
            WalletError::UpgradeFailed => 1017,
            WalletError::GuardianAlreadyAdded => 1018,
            WalletError::GuardianNotFound => 1019,
            WalletError::InvalidRecoveryThreshold => 1020,
            WalletError::NotEnoughGuardians => 1021,
            WalletError::RecoveryNotConfigured => 1022,
            WalletError::RecoveryAlreadyPending => 1023,
            WalletError::NoPendingRecovery => 1024,
            WalletError::AlreadyApproved => 1025,
            WalletError::ApprovalNotFound => 1026,
            WalletError::RecoveryNotReady => 1027,
            WalletError::RecoveryNotQuorate => 1028,
            WalletError::InvalidAssetInfo => 1029,
            WalletError::UpgradeWasmNotUploaded => 1030,
            WalletError::GuardianLimitExceeded => 1031,
            WalletError::RecoveryNewAdminUnchanged => 1032,
            WalletError::InvalidAssetCode => 1033,
            WalletError::TokenNotAllowed => 1034,
            WalletError::TokenWrapperNotSet => 1035,
            WalletError::TokenTransferFailed => 1036,
            WalletError::UpgradeDelayTooShort => 1037,
            WalletError::RecoveryDelayTooShort => 1038,
        }
    }
}

} // verus!
