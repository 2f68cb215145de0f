//! What each wallet operation does, stated over the wallet's state.
//!
//! An operation is a function from the state before it to either the state
//! after it or the error with which it is refused. A refused operation leaves
//! the state as it was.

use vstd::prelude::*;

use crate::address::{Address, WasmHash};
use crate::asset::{find_asset, AssetInfo, MAX_CODE_LEN};
use crate::host::{index_of, without};
use crate::wallet::error::WalletError;
use crate::wallet::types::{
    DataKey, Event, LedgerEntry, RecoveryCompletedEvent, RecoveryConfig, RecoveryProposal,
    SpendRecord, TtlExtension, UpgradeProposal,
};
use crate::wallet::GlobeWallet;

verus! {

/// Seconds in a day window.
pub const SECONDS_PER_DAY: u64 = 86_400;

/// Ledgers that close in a day, at five seconds each.
pub const LEDGERS_PER_DAY: u32 = 17_280;

/// A day's spend record is kept alive past the end of its day.
pub const DAILY_SPENT_TTL_THRESHOLD: u32 = LEDGERS_PER_DAY;

pub const DAILY_SPENT_TTL_EXTEND_TO: u32 = LEDGERS_PER_DAY * 2;

/// Entries without an expiry of their own are kept alive for thirty days.
pub const PERSISTENT_TTL_THRESHOLD: u32 = LEDGERS_PER_DAY * 7;

pub const PERSISTENT_TTL_EXTEND_TO: u32 = LEDGERS_PER_DAY * 30;

/// An asset, as contracts speak of it.
pub type Asset = AssetInfo<Seq<u8>>;

/// The state of a wallet and of the call that is being made on it.
#[verifier::ext_equal]
pub struct WalletView {
    /// The address of the wallet contract itself.
    pub contract: Address,
    /// The sequence number of the ledger that runs the call.
    pub sequence: u32,
    /// The closing time of that ledger, in seconds since the epoch.
    pub timestamp: u64,
    /// The addresses that have authorized the call.
    pub signers: Seq<Address>,
    pub admin: Option<Address>,
    /// The candidate that each admin has proposed.
    pub pending_admins: Map<Address, Address>,
    pub pending_upgrade: Option<UpgradeProposal>,
    pub guardians: Seq<Address>,
    /// The guardians by address, once the index has been built.
    pub guardian_index: Option<Map<Address, bool>>,
    pub recovery_config: Option<RecoveryConfig>,
    pub recovery_proposal: Option<RecoveryProposal<Seq<Address>>>,
    pub token_wrapper: Option<Address>,
    pub user_assets: Map<Address, Seq<Asset>>,
    pub spend_limits: Map<(Address, Asset), i128>,
    pub daily_spent: Map<(Address, Asset), SpendRecord>,
    /// Limits from before they were kept by issuer: by user and code alone.
    pub legacy_spend_limits: Map<(Address, Seq<u8>), i128>,
    /// Spend records from before they were kept by issuer.
    pub legacy_daily_spent: Map<(Address, Seq<u8>), SpendRecord>,
    pub allowed_tokens: Map<Address, ()>,
    /// The code that the call has put in place of the wallet's own.
    pub code_update: Option<WasmHash>,
    pub ttl_extensions: Seq<TtlExtension<Seq<u8>>>,
    pub events: Seq<Event<Seq<u8>, Seq<Address>>>,
}

impl WalletView {
    /// The address has authorized the call.
    pub open spec fn authorized(self, who: Address) -> bool {
        self.signers.contains(who)
    }

    /// The current day window.
    pub open spec fn day(self) -> u64 {
        self.timestamp / SECONDS_PER_DAY
    }

    /// The state with one more published event.
    pub open spec fn emit(self, event: Event<Seq<u8>, Seq<Address>>) -> Self {
        WalletView { events: self.events.push(event), ..self }
    }

    /// The state with one more request to keep a persistent entry alive.
    pub open spec fn extend_ttl(
        self,
        key: DataKey<Seq<u8>>,
        threshold: u32,
        extend_to: u32,
    ) -> Self {
        WalletView {
            ttl_extensions: self.ttl_extensions.push(
                TtlExtension { entry: LedgerEntry::Persistent(key), threshold, extend_to },
            ),
            ..self
        }
    }

    /// The state with one more request to keep the wallet's own entry alive.
    pub open spec fn bump_instance_ttl(self) -> Self {
        WalletView {
            ttl_extensions: self.ttl_extensions.push(
                TtlExtension {
                    entry: LedgerEntry::Instance,
                    threshold: PERSISTENT_TTL_THRESHOLD,
                    extend_to: PERSISTENT_TTL_EXTEND_TO,
                },
            ),
            ..self
        }
    }

    // Admin role.

    /// Why a caller may not act as admin, if so.
    pub open spec fn admin_failure(self, caller: Address) -> Option<WalletError> {
        match self.admin {
            None => Some(WalletError::NotInitialized),
            Some(admin) => if admin == caller {
                None
            } else {
                Some(WalletError::Unauthorized)
            },
        }
    }

    pub open spec fn initialize(self, admin: Address) -> Result<Self, WalletError> {
        if self.admin is Some {
            Err(WalletError::AlreadyInitialized)
        } else {
            Ok(
                WalletView { admin: Some(admin), ..self }.bump_instance_ttl().emit(
                    Event::Initialized { admin },
                ),
            )
        }
    }

    pub open spec fn propose_admin(
        self,
        current: Address,
        candidate: Address,
    ) -> Result<Self, WalletError> {
        match self.admin_failure(current) {
            Some(e) => Err(e),
            None => Ok(
                WalletView {
                    pending_admins: self.pending_admins.insert(current, candidate),
                    ..self
                }.bump_instance_ttl().emit(Event::AdminProposed { current, candidate }),
            ),
        }
    }

    pub open spec fn accept_admin(self, candidate: Address) -> Result<Self, WalletError> {
        match self.admin {
            None => Err(WalletError::NotInitialized),
            Some(admin) => if !self.pending_admins.contains_key(admin) {
                Err(WalletError::NoPendingAdmin)
            } else if self.pending_admins[admin] != candidate {
                Err(WalletError::Unauthorized)
            } else {
                Ok(
                    WalletView {
                        admin: Some(candidate),
                        pending_admins: self.pending_admins.remove(admin),
                        ..self
                    }.bump_instance_ttl().emit(
                        Event::AdminTransferred { old_admin: admin, new_admin: candidate },
                    ),
                )
            },
        }
    }

    pub open spec fn cancel_admin_transfer(self, current: Address) -> Result<Self, WalletError> {
        match self.admin_failure(current) {
            Some(e) => Err(e),
            None => Ok(
                WalletView {
                    pending_admins: self.pending_admins.remove(current),
                    ..self
                }.bump_instance_ttl().emit(Event::AdminTransferCancelled { current }),
            ),
        }
    }

    // Code upgrades.

    pub open spec fn propose_upgrade(
        self,
        proposer: Address,
        wasm_hash: WasmHash,
        delay_in_ledgers: u32,
    ) -> Result<Self, WalletError> {
        let ready_at = self.sequence.saturating_add(delay_in_ledgers);
        match self.admin_failure(proposer) {
            Some(e) => Err(e),
            None => if self.pending_upgrade is Some {
                Err(WalletError::UpgradeAlreadyPending)
            } else if delay_in_ledgers < GlobeWallet::MIN_UPGRADE_DELAY_LEDGERS {
                Err(WalletError::UpgradeDelayTooShort)
            } else {
                Ok(
                    WalletView {
                        pending_upgrade: Some(
                            UpgradeProposal { wasm_hash, proposed_by: proposer, ready_at },
                        ),
                        ..self
                    }.bump_instance_ttl().emit(
                        Event::UpgradeProposed { proposer, wasm_hash, ready_at },
                    ),
                )
            },
        }
    }

    pub open spec fn execute_upgrade(
        self,
        executor: Address,
        wasm_hash: WasmHash,
    ) -> Result<Self, WalletError> {
        match self.admin_failure(executor) {
            Some(e) => Err(e),
            None => match self.pending_upgrade {
                None => Err(WalletError::UpgradeNotPending),
                Some(proposal) => if proposal.wasm_hash != wasm_hash {
                    Err(WalletError::UpgradeHashMismatch)
                } else if self.sequence < proposal.ready_at {
                    Err(WalletError::UpgradeNotReady)
                } else {
                    Ok(
                        WalletView {
                            code_update: Some(wasm_hash),
                            pending_upgrade: None,
                            ..self
                        }.bump_instance_ttl().emit(Event::UpgradeExecuted { executor, wasm_hash }),
                    )
                },
            },
        }
    }

    // Guardians and recovery.

    /// The guardians by address: the index, or what it is built from.
    pub open spec fn index(self) -> Map<Address, bool> {
        match self.guardian_index {
            Some(index) => index,
            None => index_of(self.guardians),
        }
    }

    pub open spec fn is_guardian(self, who: Address) -> bool {
        self.index().contains_key(who) && self.index()[who]
    }

    /// Fewer than this many approvals are not a quorum.
    pub open spec fn below_threshold(self, count: nat) -> bool {
        self.recovery_config matches Some(config) && count < config.threshold
    }

    pub open spec fn add_guardian(
        self,
        admin: Address,
        guardian: Address,
    ) -> Result<Self, WalletError> {
        match self.admin_failure(admin) {
            Some(e) => Err(e),
            None => if self.is_guardian(guardian) {
                Err(WalletError::GuardianAlreadyAdded)
            } else if self.guardians.len() >= GlobeWallet::MAX_GUARDIANS {
                Err(WalletError::GuardianLimitExceeded)
            } else {
                Ok(
                    WalletView {
                        guardians: self.guardians.push(guardian),
                        guardian_index: Some(self.index().insert(guardian, true)),
                        ..self
                    }.bump_instance_ttl().emit(Event::GuardianAdded { guardian }),
                )
            },
        }
    }

    /// The state with a guardian's approval struck from the recovery in flight,
    /// and its countdown stopped where the approvals left are too few.
    pub open spec fn strike_approval(self, guardian: Address) -> Self {
        match self.recovery_proposal {
            Some(proposal) if proposal.approvals.contains(guardian) => {
                let approvals = without(proposal.approvals, guardian);
                WalletView {
                    recovery_proposal: Some(
                        RecoveryProposal {
                            approvals,
                            ready_at: if self.below_threshold(approvals.len()) {
                                None
                            } else {
                                proposal.ready_at
                            },
                            ..proposal
                        },
                    ),
                    ..self
                }
            },
            _ => self,
        }
    }

    pub open spec fn remove_guardian(
        self,
        admin: Address,
        guardian: Address,
    ) -> Result<Self, WalletError> {
        let guardians = without(self.guardians, guardian);
        match self.admin_failure(admin) {
            Some(e) => Err(e),
            None => if !self.guardians.contains(guardian) {
                Err(WalletError::GuardianNotFound)
            } else if self.below_threshold(guardians.len()) {
                Err(WalletError::NotEnoughGuardians)
            } else {
                let struck = WalletView {
                    guardians,
                    guardian_index: Some(self.index().remove(guardian)),
                    ..self
                }.strike_approval(guardian).bump_instance_ttl();
                let told = if self.has_approved(guardian) {
                    struck.emit(Event::RecoveryApprovalInvalidated { guardian })
                } else {
                    struck
                };
                Ok(told.emit(Event::GuardianRemoved { guardian }))
            },
        }
    }

    /// The guardian's approval is on the recovery in flight.
    pub open spec fn has_approved(self, guardian: Address) -> bool {
        self.recovery_proposal matches Some(proposal) && proposal.approvals.contains(guardian)
    }

    pub open spec fn set_recovery_config(
        self,
        admin: Address,
        threshold: u32,
        delay_in_ledgers: u32,
    ) -> Result<Self, WalletError> {
        match self.admin_failure(admin) {
            Some(e) => Err(e),
            None => if self.recovery_proposal is Some {
                Err(WalletError::RecoveryAlreadyPending)
            } else if threshold <= 1 {
                Err(WalletError::InvalidRecoveryThreshold)
            } else if self.guardians.len() < GlobeWallet::MIN_GUARDIANS_FOR_RECOVERY || threshold
                > self.guardians.len() {
                Err(WalletError::NotEnoughGuardians)
            } else if delay_in_ledgers < GlobeWallet::MIN_RECOVERY_DELAY_LEDGERS {
                Err(WalletError::RecoveryDelayTooShort)
            } else {
                Ok(
                    WalletView {
                        recovery_config: Some(RecoveryConfig { threshold, delay_in_ledgers }),
                        ..self
                    }.bump_instance_ttl().emit(
                        Event::RecoveryConfigSet { threshold, delay_in_ledgers },
                    ),
                )
            },
        }
    }

    pub open spec fn initiate_recovery(
        self,
        guardian: Address,
        new_admin: Address,
    ) -> Result<Self, WalletError> {
        if !self.is_guardian(guardian) {
            Err(WalletError::Unauthorized)
        } else if self.recovery_config is None {
            Err(WalletError::RecoveryNotConfigured)
        } else if self.recovery_proposal is Some {
            Err(WalletError::RecoveryAlreadyPending)
        } else {
            Ok(
                WalletView {
                    guardian_index: Some(self.index()),
                    recovery_proposal: Some(
                        RecoveryProposal { new_admin, approvals: seq![guardian], ready_at: None },
                    ),
                    ..self
                }.bump_instance_ttl().emit(Event::RecoveryInitiated { guardian, new_admin }),
            )
        }
    }

    pub open spec fn approve_recovery(self, guardian: Address) -> Result<Self, WalletError> {
        if !self.is_guardian(guardian) {
            Err(WalletError::Unauthorized)
        } else {
            match (self.recovery_config, self.recovery_proposal) {
                (None, _) => Err(WalletError::RecoveryNotConfigured),
                (_, None) => Err(WalletError::NoPendingRecovery),
                (Some(config), Some(proposal)) => if proposal.approvals.contains(guardian) {
                    Err(WalletError::AlreadyApproved)
                } else {
                    let approvals = proposal.approvals.push(guardian);
                    let arms = approvals.len() >= config.threshold && proposal.ready_at is None;
                    let ready_at = self.sequence.saturating_add(config.delay_in_ledgers);
                    let approved = WalletView {
                        guardian_index: Some(self.index()),
                        recovery_proposal: Some(
                            RecoveryProposal {
                                approvals,
                                ready_at: if arms {
                                    Some(ready_at)
                                } else {
                                    proposal.ready_at
                                },
                                ..proposal
                            },
                        ),
                        ..self
                    }.bump_instance_ttl();
                    let told = if arms {
                        approved.emit(
                            Event::RecoveryQuorumReached {
                                new_admin: proposal.new_admin,
                                ready_at,
                            },
                        )
                    } else {
                        approved
                    };
                    Ok(told.emit(Event::RecoveryApproved { guardian }))
                },
            }
        }
    }

    pub open spec fn revoke_recovery_approval(self, guardian: Address) -> Result<
        Self,
        WalletError,
    > {
        if !self.is_guardian(guardian) {
            Err(WalletError::Unauthorized)
        } else if self.recovery_config is None {
            Err(WalletError::RecoveryNotConfigured)
        } else if self.recovery_proposal is None {
            Err(WalletError::NoPendingRecovery)
        } else if !self.has_approved(guardian) {
            Err(WalletError::ApprovalNotFound)
        } else {
            Ok(
                WalletView {
                    guardian_index: Some(self.index()),
                    ..self
                }.strike_approval(guardian).bump_instance_ttl().emit(
                    Event::RecoveryApprovalRevoked { guardian },
                ),
            )
        }
    }

    pub open spec fn execute_recovery(self) -> Result<Self, WalletError> {
        match (self.recovery_config, self.recovery_proposal) {
            (None, _) => Err(WalletError::RecoveryNotConfigured),
            (_, None) => Err(WalletError::NoPendingRecovery),
            (Some(config), Some(proposal)) => match proposal.ready_at {
                Some(ready_at) if proposal.approvals.len() >= config.threshold => if self.sequence
                    < ready_at {
                    Err(WalletError::RecoveryNotReady)
                } else {
                    match self.admin {
                        None => Err(WalletError::NotInitialized),
                        Some(old_admin) => if proposal.new_admin == old_admin {
                            Err(WalletError::RecoveryNewAdminUnchanged)
                        } else {
                            Ok(
                                WalletView {
                                    admin: Some(proposal.new_admin),
                                    pending_admins: self.pending_admins.remove(old_admin),
                                    recovery_proposal: None,
                                    ..self
                                }.bump_instance_ttl().emit(
                                    Event::AdminTransferred {
                                        old_admin,
                                        new_admin: proposal.new_admin,
                                    },
                                ).emit(
                                    Event::RecoveryCompleted(
                                        RecoveryCompletedEvent {
                                            old_admin,
                                            new_admin: proposal.new_admin,
                                            approving_guardians: proposal.approvals,
                                            threshold: config.threshold,
                                            ready_at,
                                            executed_at: self.sequence,
                                        },
                                    ),
                                ),
                            )
                        },
                    }
                },
                _ => Err(WalletError::RecoveryNotQuorate),
            },
        }
    }

    pub open spec fn cancel_recovery(self, admin: Address) -> Result<Self, WalletError> {
        match self.admin_failure(admin) {
            Some(e) => Err(e),
            None => if self.recovery_proposal is None {
                Err(WalletError::NoPendingRecovery)
            } else {
                Ok(
                    WalletView { recovery_proposal: None, ..self }.bump_instance_ttl().emit(
                        Event::RecoveryCancelled { admin },
                    ),
                )
            },
        }
    }

    // Assets.

    /// The assets that a user has registered.
    pub open spec fn assets_of(self, user: Address) -> Seq<Asset> {
        if self.user_assets.contains_key(user) {
            self.user_assets[user]
        } else {
            Seq::empty()
        }
    }

    /// The registered form of an asset of a user.
    pub open spec fn registered(self, user: Address, asset: Asset) -> Option<Asset> {
        find_asset(self.assets_of(user), asset)
    }

    /// The state with a user's asset list replaced.
    pub open spec fn with_assets(self, user: Address, assets: Seq<Asset>) -> Self {
        WalletView { user_assets: self.user_assets.insert(user, assets), ..self }.extend_ttl(
            DataKey::UserAssets(user),
            PERSISTENT_TTL_THRESHOLD,
            PERSISTENT_TTL_EXTEND_TO,
        )
    }

    pub open spec fn add_asset(self, user: Address, asset: Asset) -> Result<Self, WalletError> {
        if asset.code.len() == 0 || asset.code.len() > MAX_CODE_LEN {
            Err(WalletError::InvalidAssetCode)
        } else if asset.is_native() != (asset.issuer is None) {
            Err(WalletError::InvalidAssetInfo)
        } else if self.assets_of(user).len() >= GlobeWallet::MAX_ASSETS {
            Err(WalletError::AssetLimitExceeded)
        } else if self.registered(user, asset) is Some {
            Err(WalletError::AssetAlreadyAdded)
        } else {
            Ok(
                self.bump_instance_ttl().with_assets(
                    user,
                    self.assets_of(user).push(asset),
                ).emit(Event::AssetAdded { user, code: asset.code }),
            )
        }
    }

    pub open spec fn remove_asset(self, user: Address, code: Seq<u8>) -> Result<
        Self,
        WalletError,
    > {
        if !has_code(self.assets_of(user), code) {
            Err(WalletError::AssetNotFound)
        } else {
            Ok(
                self.bump_instance_ttl().with_assets(
                    user,
                    without_code(self.assets_of(user), code),
                ).emit(Event::AssetRemoved { user, code }),
            )
        }
    }

    // Spend limits.

    /// The limit kept for a registered asset, 0 where there is none. A limit
    /// kept by code alone counts until one is kept for the asset itself.
    pub open spec fn limit_kept(self, user: Address, asset: Asset) -> i128 {
        if self.spend_limits.contains_key((user, asset)) {
            self.spend_limits[(user, asset)]
        } else if self.legacy_spend_limits.contains_key((user, asset.code)) {
            self.legacy_spend_limits[(user, asset.code)]
        } else {
            0
        }
    }

    /// The daily limit of a user for an asset; 0 means no limit.
    pub open spec fn spend_limit(self, user: Address, asset: Asset) -> i128 {
        match self.registered(user, asset) {
            Some(kept) => self.limit_kept(user, kept),
            None => 0,
        }
    }

    /// What a user has spent of a registered asset in the current day window.
    pub open spec fn spent_today(self, user: Address, asset: Asset) -> i128 {
        let record = if self.daily_spent.contains_key((user, asset)) {
            self.daily_spent[(user, asset)]
        } else if self.legacy_daily_spent.contains_key((user, asset.code)) {
            self.legacy_daily_spent[(user, asset.code)]
        } else {
            SpendRecord { amount: 0, day: self.day() }
        };
        if record.day == self.day() {
            record.amount
        } else {
            0
        }
    }

    pub open spec fn set_spend_limit(self, user: Address, asset: Asset, limit: i128) -> Result<
        Self,
        WalletError,
    > {
        if limit < 0 {
            Err(WalletError::InvalidSpendLimit)
        } else {
            match self.registered(user, asset) {
                None => Err(WalletError::AssetNotFound),
                Some(kept) => if limit != 0 && self.spent_today(user, kept) > limit {
                    Err(WalletError::SpendLimitExceeded)
                } else {
                    Ok(
                        WalletView {
                            spend_limits: self.spend_limits.insert((user, kept), limit),
                            legacy_spend_limits: self.legacy_spend_limits.remove(
                                (user, kept.code),
                            ),
                            ..self
                        }.bump_instance_ttl().extend_ttl(
                            DataKey::SpendLimit(user, kept),
                            PERSISTENT_TTL_THRESHOLD,
                            PERSISTENT_TTL_EXTEND_TO,
                        ).emit(Event::SpendLimitSet { user, code: kept.code, limit }),
                    )
                },
            }
        }
    }

    pub open spec fn record_spend(self, user: Address, asset: Asset, amount: i128) -> Result<
        Self,
        WalletError,
    > {
        if amount <= 0 {
            Err(WalletError::InvalidSpendLimit)
        } else {
            match self.registered(user, asset) {
                None => Err(WalletError::AssetNotFound),
                Some(kept) => {
                    let limit = self.limit_kept(user, kept);
                    let total = self.spent_today(user, kept) + amount;
                    if limit == 0 {
                        Ok(self.bump_instance_ttl())
                    } else if total > i128::MAX {
                        Err(WalletError::SpendOverflow)
                    } else if total > limit {
                        Err(WalletError::SpendLimitExceeded)
                    } else {
                        Ok(
                            WalletView {
                                daily_spent: self.daily_spent.insert(
                                    (user, kept),
                                    SpendRecord { amount: total as i128, day: self.day() },
                                ),
                                legacy_daily_spent: self.legacy_daily_spent.remove(
                                    (user, kept.code),
                                ),
                                ..self
                            }.bump_instance_ttl().extend_ttl(
                                DataKey::DailySpent(user, kept),
                                DAILY_SPENT_TTL_THRESHOLD,
                                DAILY_SPENT_TTL_EXTEND_TO,
                            ).emit(
                                Event::SpendRecorded {
                                    user,
                                    code: kept.code,
                                    amount,
                                    spent_today: total as i128,
                                    limit,
                                },
                            ),
                        )
                    }
                },
            }
        }
    }

    // Payments.

    pub open spec fn set_token_wrapper(
        self,
        admin: Address,
        token_wrapper_id: Address,
    ) -> Result<Self, WalletError> {
        match self.admin_failure(admin) {
            Some(e) => Err(e),
            None => Ok(
                WalletView {
                    token_wrapper: Some(token_wrapper_id),
                    ..self
                }.bump_instance_ttl().emit(Event::TokenWrapperSet { admin, token_wrapper_id }),
            ),
        }
    }

    /// Payments may move the token.
    pub open spec fn token_allowed(self, token_id: Address) -> bool {
        self.allowed_tokens.contains_key(token_id)
    }

    pub open spec fn add_allowed_token(
        self,
        admin: Address,
        token_id: Address,
    ) -> Result<Self, WalletError> {
        match self.admin_failure(admin) {
            Some(e) => Err(e),
            None => Ok(
                WalletView {
                    allowed_tokens: self.allowed_tokens.insert(token_id, ()),
                    ..self
                }.extend_ttl(
                    DataKey::AllowedToken(token_id),
                    PERSISTENT_TTL_THRESHOLD,
                    PERSISTENT_TTL_EXTEND_TO,
                ).bump_instance_ttl().emit(Event::AllowedTokenAdded { admin, token_id }),
            ),
        }
    }

    pub open spec fn remove_allowed_token(
        self,
        admin: Address,
        token_id: Address,
    ) -> Result<Self, WalletError> {
        match self.admin_failure(admin) {
            Some(e) => Err(e),
            None => Ok(
                WalletView {
                    allowed_tokens: self.allowed_tokens.remove(token_id),
                    ..self
                }.bump_instance_ttl().emit(Event::AllowedTokenRemoved { admin, token_id }),
            ),
        }
    }

    /// The wallet's own part of a payment: every check, and every change to
    /// its own state, before the token wrapper is called.
    pub open spec fn send(
        self,
        user: Address,
        token_id: Address,
        asset: Asset,
        amount: i128,
    ) -> Result<Self, WalletError> {
        if !self.token_allowed(token_id) {
            Err(WalletError::TokenNotAllowed)
        } else {
            match self.record_spend(user, asset, amount) {
                Err(e) => Err(e),
                Ok(recorded) => if self.token_wrapper is None {
                    Err(WalletError::TokenWrapperNotSet)
                } else {
                    Ok(recorded)
                },
            }
        }
    }

    // Migration.

    /// The codes of a list for which a user has a limit kept by code alone.
    pub open spec fn legacy_limit_codes(self, user: Address, assets: Seq<Asset>) -> Set<Seq<u8>> {
        Set::new(
            |code: Seq<u8>|
                has_code(assets, code) && self.legacy_spend_limits.contains_key((user, code)),
        )
    }

    /// How many limits kept by code alone a user has for registered assets.
    pub open spec fn legacy_limit_count(self, user: Address) -> nat {
        self.legacy_limit_codes(user, self.assets_of(user)).len()
    }

    /// The limits after a migration to a list of assets: each limit kept by code
    /// alone goes to the first asset with that code, unless that asset has its
    /// own.
    pub open spec fn migrated_limits(self, user: Address, assets: Seq<Asset>) -> Map<
        (Address, Asset),
        i128,
    > {
        Map::new(
            |k: (Address, Asset)|
                self.spend_limits.contains_key(k) || (k.0 == user && heads_code(assets, k.1)
                    && self.legacy_spend_limits.contains_key((user, k.1.code))),
            |k: (Address, Asset)|
                if self.spend_limits.contains_key(k) {
                    self.spend_limits[k]
                } else {
                    self.legacy_spend_limits[(user, k.1.code)]
                },
        )
    }

    /// The spend records after a migration: as with limits, where the record
    /// is of the current day window.
    pub open spec fn migrated_spends(self, user: Address, assets: Seq<Asset>) -> Map<
        (Address, Asset),
        SpendRecord,
    > {
        Map::new(
            |k: (Address, Asset)|
                self.daily_spent.contains_key(k) || (k.0 == user && heads_code(assets, k.1)
                    && self.legacy_daily_spent.contains_key((user, k.1.code))
                    && self.legacy_daily_spent[(user, k.1.code)].day == self.day()),
            |k: (Address, Asset)|
                if self.daily_spent.contains_key(k) {
                    self.daily_spent[k]
                } else {
                    self.legacy_daily_spent[(user, k.1.code)]
                },
        )
    }

    /// The migration moves a limit to the i-th asset of the user.
    pub open spec fn limit_moves_to(self, user: Address, i: int) -> bool {
        let assets = self.assets_of(user);
        &&& !has_code(assets.take(i), assets[i].code)
        &&& self.legacy_spend_limits.contains_key((user, assets[i].code))
        &&& !self.spend_limits.contains_key((user, assets[i]))
    }

    /// The migration moves a spend record to the i-th asset of the user.
    pub open spec fn spend_moves_to(self, user: Address, i: int) -> bool {
        let assets = self.assets_of(user);
        &&& !has_code(assets.take(i), assets[i].code)
        &&& self.legacy_daily_spent.contains_key((user, assets[i].code))
        &&& self.legacy_daily_spent[(user, assets[i].code)].day == self.day()
        &&& !self.daily_spent.contains_key((user, assets[i]))
    }

    /// What the migration of the first n assets of a user keeps alive: each
    /// entry that it moves something to.
    pub open spec fn migration_extensions(self, user: Address, n: int) -> Seq<
        TtlExtension<Seq<u8>>,
    >
        decreases n,
    {
        if n <= 0 {
            Seq::empty()
        } else {
            let asset = self.assets_of(user)[n - 1];
            let before = self.migration_extensions(user, n - 1);
            let limits = if self.limit_moves_to(user, n - 1) {
                before.push(
                    TtlExtension {
                        entry: LedgerEntry::Persistent(DataKey::SpendLimit(user, asset)),
                        threshold: PERSISTENT_TTL_THRESHOLD,
                        extend_to: PERSISTENT_TTL_EXTEND_TO,
                    },
                )
            } else {
                before
            };
            if self.spend_moves_to(user, n - 1) {
                limits.push(
                    TtlExtension {
                        entry: LedgerEntry::Persistent(DataKey::DailySpent(user, asset)),
                        threshold: DAILY_SPENT_TTL_THRESHOLD,
                        extend_to: DAILY_SPENT_TTL_EXTEND_TO,
                    },
                )
            } else {
                limits
            }
        }
    }

    /// The state after a user's limits and spend records that are kept by code
    /// alone have moved to the user's registered assets.
    pub open spec fn migrate_spend_limits(self, user: Address) -> Self {
        let assets = self.assets_of(user);
        WalletView {
            spend_limits: self.migrated_limits(user, assets),
            daily_spent: self.migrated_spends(user, assets),
            legacy_spend_limits: self.legacy_spend_limits.remove_keys(code_keys(user, assets)),
            legacy_daily_spent: self.legacy_daily_spent.remove_keys(code_keys(user, assets)),
            ttl_extensions: self.ttl_extensions + self.migration_extensions(
                user,
                assets.len() as int,
            ),
            ..self
        }.bump_instance_ttl().emit(
            Event::SpendLimitsMigrated { user, count: self.legacy_limit_count(user) as u32 },
        )
    }

    /// The state after a user's asset list has been cut to the cap. All that is
    /// kept for an asset beyond the cap goes with it.
    pub open spec fn migrate_user_assets(self, admin: Address, user: Address) -> Result<
        Self,
        WalletError,
    > {
        let assets = self.assets_of(user);
        let dropped = assets.skip(GlobeWallet::MAX_ASSETS as int);
        match self.admin_failure(admin) {
            Some(e) => Err(e),
            None => if assets.len() <= GlobeWallet::MAX_ASSETS {
                Ok(self)
            } else {
                Ok(
                    WalletView {
                        spend_limits: self.spend_limits.remove_keys(asset_keys(user, dropped)),
                        daily_spent: self.daily_spent.remove_keys(asset_keys(user, dropped)),
                        legacy_spend_limits: self.legacy_spend_limits.remove_keys(
                            code_keys(user, dropped),
                        ),
                        legacy_daily_spent: self.legacy_daily_spent.remove_keys(
                            code_keys(user, dropped),
                        ),
                        ..self
                    }.bump_instance_ttl().with_assets(
                        user,
                        assets.take(GlobeWallet::MAX_ASSETS as int),
                    ).emit(
                        Event::UserAssetsMigrated {
                            user,
                            removed: (assets.len() - GlobeWallet::MAX_ASSETS) as u32,
                        },
                    ),
                )
            },
        }
    }
}

/// The keys of what is kept for the assets of a list.
pub open spec fn asset_keys(user: Address, list: Seq<Asset>) -> Set<(Address, Asset)> {
    Set::new(|k: (Address, Asset)| k.0 == user && list.contains(k.1))
}

/// The keys of what is kept by code alone for the assets of a list.
pub open spec fn code_keys(user: Address, list: Seq<Asset>) -> Set<(Address, Seq<u8>)> {
    Set::new(|k: (Address, Seq<u8>)| k.0 == user && has_code(list, k.1))
}

/// Some asset of a list has exactly this code.
pub open spec fn has_code(list: Seq<Asset>, code: Seq<u8>) -> bool {
    exists|i: int| 0 <= i < list.len() && (#[trigger] list[i]).code == code
}

/// A list without the assets that have exactly this code.
pub open spec fn without_code(list: Seq<Asset>, code: Seq<u8>) -> Seq<Asset> {
    list.filter(|a: Asset| a.code != code)
}

/// The asset is the first of a list that has its code.
pub open spec fn heads_code(list: Seq<Asset>, asset: Asset) -> bool {
    exists|i: int|
        0 <= i < list.len() && #[trigger] list[i] == asset && !has_code(list.take(i), asset.code)
}

} // verus!
