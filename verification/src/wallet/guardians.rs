//! The guardians: who may co-sign a recovery of the admin role.

use vstd::prelude::*;

use crate::address::Address;
use crate::host::{AddressIndex, AddressList};
use crate::wallet::admin::require_admin;
use crate::wallet::env::WalletEnv;
use crate::wallet::error::WalletError;
use crate::wallet::model::WalletView;
use crate::wallet::types::{Event, RecoveryConfig, RecoveryProposal};
use crate::wallet::{follows, GlobeWallet};

verus! {

/// Whether an address is a guardian, by the index where there is one.
pub(crate) fn is_guardian(env: &WalletEnv, who: Address) -> (r: bool)
    ensures
        r == env@.is_guardian(who),
{
    match &env.guardian_index {
        Some(index) => match index.get(who) {
            Some(member) => member,
            None => false,
        },
        None => env.guardians.contains(who),
    }
}

/// Builds the index of the guardians where there is none. A wallet from before
/// the index has only the list.
pub(crate) fn ensure_index(env: &mut WalletEnv)
    ensures
        final(env)@ == (WalletView { guardian_index: Some(old(env)@.index()), ..old(env)@ }),
{
    if env.guardian_index.is_none() {
        let index = AddressIndex::build(&env.host, &env.guardians);
        env.guardian_index = Some(index);
    }
}

/// Whether a number of approvals, or of guardians, is below the threshold.
pub(crate) fn below_threshold(config: &Option<RecoveryConfig>, count: u32) -> (r: bool)
    ensures
        r == (config matches Some(c) && count < c.threshold),
{
    match config {
        Some(c) => count < c.threshold,
        None => false,
    }
}

/// Strikes a guardian's approval from the recovery in flight. Where too few
/// are left, the countdown stops: quorum has to be reached anew. Says whether
/// there was an approval to strike.
pub(crate) fn strike_approval(env: &mut WalletEnv, guardian: Address) -> (r: bool)
    ensures
        final(env)@ == old(env)@.strike_approval(guardian),
        r == old(env)@.has_approved(guardian),
{
    let proposal = match &env.recovery_proposal {
        Some(proposal) => proposal,
        None => return false,
    };
    if !proposal.approvals.contains(guardian) {
        return false;
    }
    let approvals = proposal.approvals.without(&env.host, guardian);
    let ready_at = if below_threshold(&env.recovery_config, approvals.len()) {
        None
    } else {
        proposal.ready_at
    };
    let new_admin = proposal.new_admin;
    env.recovery_proposal = Some(RecoveryProposal { new_admin, approvals, ready_at });
    true
}

impl GlobeWallet {
    /// The admin registers a guardian.
    pub fn add_guardian(env: &mut WalletEnv, admin: Address, guardian: Address) -> (r: Result<
        (),
        WalletError,
    >)
        requires
            old(env)@.authorized(admin),
        ensures
            follows(old(env)@.add_guardian(admin, guardian), old(env)@, r, final(env)@),
    {
        match require_admin(env, admin) {
            Err(e) => return Err(e),
            Ok(()) => {},
        }
        if is_guardian(env, guardian) {
            return Err(WalletError::GuardianAlreadyAdded);
        }
        if env.guardians.len() >= GlobeWallet::MAX_GUARDIANS {
            return Err(WalletError::GuardianLimitExceeded);
        }
        ensure_index(env);
        let mut index = match env.guardian_index.take() {
            Some(index) => index,
            None => AddressIndex::new(&env.host),
        };
        index.set(guardian, true);
        env.guardian_index = Some(index);
        env.guardians.push_back(guardian);
        env.bump_instance_ttl();
        env.emit(Event::GuardianAdded { guardian });
        Ok(())
    }

    /// The admin removes a guardian. An approval that the guardian has given to
    /// the recovery in flight goes with the guardian.
    pub fn remove_guardian(env: &mut WalletEnv, admin: Address, guardian: Address) -> (r: Result<
        (),
        WalletError,
    >)
        requires
            old(env)@.authorized(admin),
        ensures
            follows(old(env)@.remove_guardian(admin, guardian), old(env)@, r, final(env)@),
    {
        match require_admin(env, admin) {
            Err(e) => return Err(e),
            Ok(()) => {},
        }
        if !env.guardians.contains(guardian) {
            return Err(WalletError::GuardianNotFound);
        }
        let guardians = env.guardians.without(&env.host, guardian);
        if below_threshold(&env.recovery_config, guardians.len()) {
            return Err(WalletError::NotEnoughGuardians);
        }
        ensure_index(env);
        let mut index = match env.guardian_index.take() {
            Some(index) => index,
            None => AddressIndex::new(&env.host),
        };
        index.remove(guardian);
        env.guardian_index = Some(index);
        env.guardians = guardians;
        let struck = strike_approval(env, guardian);
        env.bump_instance_ttl();
        if struck {
            env.emit(Event::RecoveryApprovalInvalidated { guardian });
        }
        env.emit(Event::GuardianRemoved { guardian });
        Ok(())
    }

    /// The guardians, in the order in which they were added.
    pub fn guardians(env: &WalletEnv) -> (r: AddressList)
        ensures
            r@ == env@.guardians,
    {
        env.guardians.clone()
    }
}

} // verus!
