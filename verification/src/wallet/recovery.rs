//! Recovery of the admin role by the guardians.
//!
//! A recovery is gated by a quorum of guardians and by a delay that starts when
//! quorum is reached. It never asks for the admin's signature, because it
//! exists for the case in which there is none to be had. As long as the admin
//! can sign, the admin can cancel it.

use vstd::prelude::*;

use crate::address::Address;
use crate::host::AddressList;
use crate::table::Stored;
use crate::wallet::admin::require_admin;
use crate::wallet::env::WalletEnv;
use crate::wallet::error::WalletError;
use crate::wallet::guardians::{ensure_index, is_guardian, strike_approval};
use crate::wallet::types::{
    Event, RecoveryCompletedEvent, RecoveryConfig, RecoveryProposal,
};
use crate::wallet::{follows, GlobeWallet};

verus! {

impl GlobeWallet {
    /// The admin sets the number of approvals that a recovery needs and its
    /// delay. Not while a recovery is in flight.
    pub fn set_recovery_config(
        env: &mut WalletEnv,
        admin: Address,
        threshold: u32,
        delay_in_ledgers: u32,
    ) -> (r: Result<(), WalletError>)
        requires
            old(env)@.authorized(admin),
        ensures
            follows(
                old(env)@.set_recovery_config(admin, threshold, delay_in_ledgers),
                old(env)@,
                r,
                final(env)@,
            ),
    {
        match require_admin(env, admin) {
            Err(e) => return Err(e),
            Ok(()) => {},
        }
        if env.recovery_proposal.is_some() {
            return Err(WalletError::RecoveryAlreadyPending);
        }
        if threshold <= 1 {
            return Err(WalletError::InvalidRecoveryThreshold);
        }
        let count: u32 = env.guardians.len();
        if count < GlobeWallet::MIN_GUARDIANS_FOR_RECOVERY || threshold > count {
            return Err(WalletError::NotEnoughGuardians);
        }
        if delay_in_ledgers < GlobeWallet::MIN_RECOVERY_DELAY_LEDGERS {
            return Err(WalletError::RecoveryDelayTooShort);
        }
        env.recovery_config = Some(RecoveryConfig { threshold, delay_in_ledgers });
        env.bump_instance_ttl();
        env.emit(Event::RecoveryConfigSet { threshold, delay_in_ledgers });
        Ok(())
    }

    /// The recovery configuration, if there is one.
    pub fn recovery_config(env: &WalletEnv) -> (r: Option<RecoveryConfig>)
        ensures
            r == env@.recovery_config,
    {
        env.recovery_config
    }

    /// A guardian starts a recovery to a new admin. It counts as the guardian's
    /// own approval.
    pub fn initiate_recovery(
        env: &mut WalletEnv,
        guardian: Address,
        new_admin: Address,
    ) -> (r: Result<(), WalletError>)
        requires
            old(env)@.authorized(guardian),
        ensures
            follows(
                old(env)@.initiate_recovery(guardian, new_admin),
                old(env)@,
                r,
                final(env)@,
            ),
    {
        if !is_guardian(env, guardian) {
            return Err(WalletError::Unauthorized);
        }
        if env.recovery_config.is_none() {
            return Err(WalletError::RecoveryNotConfigured);
        }
        if env.recovery_proposal.is_some() {
            return Err(WalletError::RecoveryAlreadyPending);
        }
        ensure_index(env);
        let mut approvals = AddressList::new(&env.host);
        approvals.push_back(guardian);
        assert(approvals@ =~= seq![guardian]);
        env.recovery_proposal = Some(RecoveryProposal { new_admin, approvals, ready_at: None });
        env.bump_instance_ttl();
        env.emit(Event::RecoveryInitiated { guardian, new_admin });
        Ok(())
    }

    /// A guardian approves the recovery in flight. The approval with which
    /// quorum is reached starts the delay.
    pub fn approve_recovery(env: &mut WalletEnv, guardian: Address) -> (r: Result<(), WalletError>)
        requires
            old(env)@.authorized(guardian),
            old(env)@.recovery_proposal matches Some(proposal) ==> proposal.approvals.len()
                < u32::MAX,
        ensures
            follows(old(env)@.approve_recovery(guardian), old(env)@, r, final(env)@),
    {
        if !is_guardian(env, guardian) {
            return Err(WalletError::Unauthorized);
        }
        let config = match env.recovery_config {
            None => return Err(WalletError::RecoveryNotConfigured),
            Some(config) => config,
        };
        let proposal = match &env.recovery_proposal {
            None => return Err(WalletError::NoPendingRecovery),
            Some(proposal) => proposal,
        };
        if proposal.approvals.contains(guardian) {
            return Err(WalletError::AlreadyApproved);
        }
        let new_admin = proposal.new_admin;
        let mut approvals = proposal.approvals.clone();
        approvals.push_back(guardian);
        let arms = approvals.len() >= config.threshold && proposal.ready_at.is_none();
        let armed_at: u32 = env.sequence.saturating_add(config.delay_in_ledgers);
        let ready_at = if arms {
            Some(armed_at)
        } else {
            proposal.ready_at
        };
        ensure_index(env);
        env.recovery_proposal = Some(RecoveryProposal { new_admin, approvals, ready_at });
        env.bump_instance_ttl();
        if arms {
            env.emit(Event::RecoveryQuorumReached { new_admin, ready_at: armed_at });
        }
        env.emit(Event::RecoveryApproved { guardian });
        Ok(())
    }

    /// A guardian takes back an approval of the recovery in flight. Where too
    /// few approvals are left, the delay starts over with the next quorum.
    pub fn revoke_recovery_approval(env: &mut WalletEnv, guardian: Address) -> (r: Result<
        (),
        WalletError,
    >)
        requires
            old(env)@.authorized(guardian),
        ensures
            follows(old(env)@.revoke_recovery_approval(guardian), old(env)@, r, final(env)@),
    {
        if !is_guardian(env, guardian) {
            return Err(WalletError::Unauthorized);
        }
        if env.recovery_config.is_none() {
            return Err(WalletError::RecoveryNotConfigured);
        }
        match &env.recovery_proposal {
            None => return Err(WalletError::NoPendingRecovery),
            Some(proposal) => {
                if !proposal.approvals.contains(guardian) {
                    return Err(WalletError::ApprovalNotFound);
                }
            },
        }
        ensure_index(env);
        strike_approval(env, guardian);
        env.bump_instance_ttl();
        env.emit(Event::RecoveryApprovalRevoked { guardian });
        Ok(())
    }

    /// Hands the admin role over, once quorum stands and the delay has passed.
    /// Anyone can call it: the approvals are the authorization. A normal
    /// hand-over that the old admin had begun is cancelled.
    pub fn execute_recovery(env: &mut WalletEnv) -> (r: Result<(), WalletError>)
        ensures
            follows(old(env)@.execute_recovery(), old(env)@, r, final(env)@),
    {
        let config = match env.recovery_config {
            None => return Err(WalletError::RecoveryNotConfigured),
            Some(config) => config,
        };
        let proposal = match &env.recovery_proposal {
            None => return Err(WalletError::NoPendingRecovery),
            Some(proposal) => proposal,
        };
        if proposal.approvals.len() < config.threshold {
            return Err(WalletError::RecoveryNotQuorate);
        }
        let ready_at: u32 = match proposal.ready_at {
            None => return Err(WalletError::RecoveryNotQuorate),
            Some(ready_at) => ready_at,
        };
        if env.sequence < ready_at {
            return Err(WalletError::RecoveryNotReady);
        }
        let old_admin = match env.admin {
            None => return Err(WalletError::NotInitialized),
            Some(admin) => admin,
        };
        let new_admin = proposal.new_admin;
        if new_admin == old_admin {
            return Err(WalletError::RecoveryNewAdminUnchanged);
        }
        let approving_guardians = proposal.approvals.clone();
        env.admin = Some(new_admin);
        env.pending_admins.remove(&old_admin);
        env.recovery_proposal = None;
        env.bump_instance_ttl();
        let executed_at: u32 = env.sequence;
        env.emit(Event::AdminTransferred { old_admin, new_admin });
        env.emit(
            Event::RecoveryCompleted(
                RecoveryCompletedEvent {
                    old_admin,
                    new_admin,
                    approving_guardians,
                    threshold: config.threshold,
                    ready_at,
                    executed_at,
                },
            ),
        );
        Ok(())
    }

    /// The admin cancels the recovery in flight, whatever stage it has reached.
    pub fn cancel_recovery(env: &mut WalletEnv, admin: Address) -> (r: Result<(), WalletError>)
        requires
            old(env)@.authorized(admin),
        ensures
            follows(old(env)@.cancel_recovery(admin), old(env)@, r, final(env)@),
    {
        match require_admin(env, admin) {
            Err(e) => return Err(e),
            Ok(()) => {},
        }
        if env.recovery_proposal.is_none() {
            return Err(WalletError::NoPendingRecovery);
        }
        env.recovery_proposal = None;
        env.bump_instance_ttl();
        env.emit(Event::RecoveryCancelled { admin });
        Ok(())
    }

    /// The recovery in flight, if there is one.
    pub fn recovery_proposal(env: &WalletEnv) -> (r: Option<RecoveryProposal>)
        ensures
            match r {
                Some(proposal) => env@.recovery_proposal == Some(proposal@),
                None => env@.recovery_proposal is None,
            },
    {
        match &env.recovery_proposal {
            Some(proposal) => Some(proposal.duplicate()),
            None => None,
        }
    }
}

} // verus!
