//! Laws of the numbers and names by which a wallet is known on the ledger, of who
//! has authorized a call, and of a wallet that nothing has been done with.

use vstd::prelude::*;

use crate::address::Address;
use crate::wallet::env::WalletEnv;
use crate::wallet::error::WalletError;
use crate::wallet::model::WalletView;
use crate::wallet::types::Event;
use crate::wallet::GlobeWallet;

verus! {

/// The bounds that a wallet keeps to.
pub proof fn lemma_bounds()
    ensures
        GlobeWallet::MIN_GUARDIANS_FOR_RECOVERY == 3,
        GlobeWallet::MAX_GUARDIANS == 15,
        GlobeWallet::MIN_UPGRADE_DELAY_LEDGERS == 51_840,
        GlobeWallet::MIN_RECOVERY_DELAY_LEDGERS == 17_280,
        GlobeWallet::MAX_ASSETS == 50,
        GlobeWallet::MAX_ASSET_CODE_LEN == 12,
{
}

/// A new wallet has no admin, no guardians, no records, and has asked for
/// nothing.
pub proof fn lemma_new_wallet(host: soroban_sdk::Env, contract: Address, r: WalletEnv)
    requires
        call_ensures(WalletEnv::new, (host, contract), r),
    ensures
        r@.contract == contract,
        r@.sequence == 0,
        r@.timestamp == 0,
        r@.signers.len() == 0,
        r@.admin is None,
        r@.pending_admins == Map::<Address, Address>::empty(),
        r@.pending_upgrade is None,
        r@.guardians.len() == 0,
        r@.guardian_index is None,
        r@.recovery_config is None,
        r@.recovery_proposal is None,
        r@.token_wrapper is None,
        forall|user: Address| !#[trigger] r@.user_assets.contains_key(user),
        forall|key| !#[trigger] r@.spend_limits.contains_key(key),
        forall|key| !#[trigger] r@.daily_spent.contains_key(key),
        forall|key| !#[trigger] r@.legacy_spend_limits.contains_key(key),
        forall|key| !#[trigger] r@.legacy_daily_spent.contains_key(key),
        forall|token: Address| !#[trigger] r@.allowed_tokens.contains_key(token),
        r@.code_update is None,
        r@.ttl_extensions.len() == 0,
        r@.events.len() == 0,
{
}

/// The state of a wallet is what its environment holds.
pub proof fn lemma_state_of_a_wallet(env: &WalletEnv)
    ensures
        env@.contract == env.contract,
        env@.sequence == env.sequence,
        env@.timestamp == env.timestamp,
        env@.signers == env.signers@,
        env@.admin == env.admin,
        env@.pending_admins == env.pending_admins@,
        env@.pending_upgrade == env.pending_upgrade,
        env@.guardians == env.guardians@,
        env@.guardian_index is Some <==> env.guardian_index is Some,
        env.guardian_index matches Some(index) ==> env@.guardian_index == Some(index@),
        env@.recovery_config == env.recovery_config,
        env@.recovery_proposal is Some <==> env.recovery_proposal is Some,
        env.recovery_proposal matches Some(p) ==> (env@.recovery_proposal matches Some(v)
            && v.new_admin == p.new_admin && v.approvals == p.approvals@ && v.ready_at
            == p.ready_at),
        env@.token_wrapper == env.token_wrapper,
        env@.user_assets == env.user_assets@,
        env@.spend_limits == env.spend_limits@,
        env@.daily_spent == env.daily_spent@,
        env@.legacy_spend_limits == env.legacy_spend_limits@,
        env@.legacy_daily_spent == env.legacy_daily_spent@,
        env@.allowed_tokens == env.allowed_tokens@,
        env@.code_update == env.code_update,
        env@.ttl_extensions.len() == env.ttl_extensions@.len(),
        env@.events.len() == env.events@.len(),
{
}

/// A call is authorized by exactly those who have signed it.
pub proof fn lemma_who_has_authorized(state: WalletView, who: Address)
    ensures
        state.authorized(who) <==> exists|i: int|
            0 <= i < state.signers.len() && #[trigger] state.signers[i] == who,
{
}

/// Each error is reported under its number, and under no other.
pub proof fn lemma_error_codes(e: WalletError, number: u32)
    requires
        call_ensures(WalletError::code, (e,), number),
    ensures
        1001 <= number <= 1038,
        number == 1001 <==> e is AlreadyInitialized,
        number == 1002 <==> e is NotInitialized,
        number == 1003 <==> e is Unauthorized,
        number == 1004 <==> e is AssetAlreadyAdded,
        number == 1005 <==> e is AssetNotFound,
        number == 1006 <==> e is InvalidSpendLimit,
        number == 1007 <==> e is SpendLimitExceeded,
        number == 1008 <==> e is NoAssetsProvided,
        number == 1009 <==> e is NoPendingAdmin,
        number == 1010 <==> e is SpendOverflow,
        number == 1011 <==> e is AssetLimitExceeded,
        number == 1012 <==> e is MaxAssetsReached,
        number == 1013 <==> e is UpgradeAlreadyPending,
        number == 1014 <==> e is UpgradeNotPending,
        number == 1015 <==> e is UpgradeHashMismatch,
        number == 1016 <==> e is UpgradeNotReady,
        number == 1017 <==> e is UpgradeFailed,
        number == 1018 <==> e is GuardianAlreadyAdded,
        number == 1019 <==> e is GuardianNotFound,
        number == 1020 <==> e is InvalidRecoveryThreshold,
        number == 1021 <==> e is NotEnoughGuardians,
        number == 1022 <==> e is RecoveryNotConfigured,
        number == 1023 <==> e is RecoveryAlreadyPending,
        number == 1024 <==> e is NoPendingRecovery,
        number == 1025 <==> e is AlreadyApproved,
        number == 1026 <==> e is ApprovalNotFound,
        number == 1027 <==> e is RecoveryNotReady,
        number == 1028 <==> e is RecoveryNotQuorate,
        number == 1029 <==> e is InvalidAssetInfo,
        number == 1030 <==> e is UpgradeWasmNotUploaded,
        number == 1031 <==> e is GuardianLimitExceeded,
        number == 1032 <==> e is RecoveryNewAdminUnchanged,
        number == 1033 <==> e is InvalidAssetCode,
        number == 1034 <==> e is TokenNotAllowed,
        number == 1035 <==> e is TokenWrapperNotSet,
        number == 1036 <==> e is TokenTransferFailed,
        number == 1037 <==> e is UpgradeDelayTooShort,
        number == 1038 <==> e is RecoveryDelayTooShort,
{
}

/// Each event is published under its name.
pub proof fn lemma_event_names(event: &Event, name: &'static str)
    requires
        call_ensures(Event::topic, (event,), name),
    ensures
        *event is Initialized ==> name@ == "initialized"@,
        *event is AdminProposed ==> name@ == "admin_proposed"@,
        *event is AdminTransferred ==> name@ == "admin_transferred"@,
        *event is AdminTransferCancelled ==> name@ == "admin_transfer_cancelled"@,
        *event is UpgradeProposed ==> name@ == "upgrade_proposed"@,
        *event is UpgradeExecuted ==> name@ == "upgrade_executed"@,
        *event is GuardianAdded ==> name@ == "guardian_added"@,
        *event is GuardianRemoved ==> name@ == "guardian_removed"@,
        *event is RecoveryConfigSet ==> name@ == "recovery_config_set"@,
        *event is RecoveryInitiated ==> name@ == "recovery_initiated"@,
        *event is RecoveryQuorumReached ==> name@ == "recovery_quorum_reached"@,
        *event is RecoveryApproved ==> name@ == "recovery_approved"@,
        *event is RecoveryApprovalRevoked ==> name@ == "recovery_approval_revoked"@,
        *event is RecoveryApprovalInvalidated ==> name@ == "recovery_approval_invalidated"@,
        *event is RecoveryCompleted ==> name@ == "recovery_completed"@,
        *event is RecoveryCancelled ==> name@ == "recovery_cancelled"@,
        *event is AssetAdded ==> name@ == "asset_added"@,
        *event is AssetRemoved ==> name@ == "asset_removed"@,
        *event is SpendLimitSet ==> name@ == "spend_limit_set"@,
        *event is SpendRecorded ==> name@ == "spend_recorded"@,
        *event is TokenWrapperSet ==> name@ == "token_wrapper_set"@,
        *event is AllowedTokenAdded ==> name@ == "allowed_token_added"@,
        *event is AllowedTokenRemoved ==> name@ == "allowed_token_removed"@,
        *event is SpendLimitsMigrated ==> name@ == "spend_limits_migrated"@,
        *event is UserAssetsMigrated ==> name@ == "user_assets_migrated"@,
{
}

} // verus!
