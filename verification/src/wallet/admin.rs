//! The admin role: set once, then handed over in two steps.

use vstd::prelude::*;

use crate::address::{Address, WasmHash};
use crate::wallet::env::WalletEnv;
use crate::wallet::error::WalletError;
use crate::wallet::types::{Event, UpgradeProposal};
use crate::wallet::{follows, GlobeWallet};

verus! {

/// Refuses a caller that is not the admin.
pub(crate) fn require_admin(env: &WalletEnv, caller: Address) -> (r: Result<(), WalletError>)
    ensures
        r == match env@.admin_failure(caller) {
            None => Ok::<(), WalletError>(()),
            Some(e) => Err(e),
        },
{
    match env.admin {
        None => Err(WalletError::NotInitialized),
        Some(admin) => if admin == caller {
            Ok(())
        } else {
            Err(WalletError::Unauthorized)
        },
    }
}

impl GlobeWallet {
    /// Sets the first admin.
    pub fn initialize(env: &mut WalletEnv, admin: Address) -> (r: Result<(), WalletError>)
        ensures
            follows(old(env)@.initialize(admin), old(env)@, r, final(env)@),
    {
        if env.admin.is_some() {
            return Err(WalletError::AlreadyInitialized);
        }
        env.admin = Some(admin);
        env.bump_instance_ttl();
        env.emit(Event::Initialized { admin });
        Ok(())
    }

    /// The current admin of an initialized wallet.
    pub fn admin(env: &WalletEnv) -> (r: Address)
        requires
            env@.admin is Some,
        ensures
            env@.admin == Some(r),
    {
        env.admin.unwrap()
    }

    /// An older name of [`GlobeWallet::propose_admin`]: the admin changes only
    /// when the candidate accepts.
    pub fn transfer_admin(env: &mut WalletEnv, current: Address, new_admin: Address) -> (r: Result<
        (),
        WalletError,
    >)
        requires
            old(env)@.authorized(current),
        ensures
            follows(old(env)@.propose_admin(current, new_admin), old(env)@, r, final(env)@),
    {
        Self::propose_admin(env, current, new_admin)
    }

    /// The admin proposes a successor. The admin stays in control until the
    /// candidate accepts.
    pub fn propose_admin(env: &mut WalletEnv, current: Address, candidate: Address) -> (r: Result<
        (),
        WalletError,
    >)
        requires
            old(env)@.authorized(current),
        ensures
            follows(old(env)@.propose_admin(current, candidate), old(env)@, r, final(env)@),
    {
        match require_admin(env, current) {
            Err(e) => Err(e),
            Ok(()) => {
                env.pending_admins.set(current, candidate);
                env.bump_instance_ttl();
                env.emit(Event::AdminProposed { current, candidate });
                Ok(())
            },
        }
    }

    /// The candidate that the current admin has proposed becomes the admin.
    pub fn accept_admin(env: &mut WalletEnv, candidate: Address) -> (r: Result<(), WalletError>)
        requires
            old(env)@.authorized(candidate),
        ensures
            follows(old(env)@.accept_admin(candidate), old(env)@, r, final(env)@),
    {
        let admin = match env.admin {
            None => return Err(WalletError::NotInitialized),
            Some(admin) => admin,
        };
        let pending = match env.pending_admins.get(&admin) {
            None => return Err(WalletError::NoPendingAdmin),
            Some(pending) => *pending,
        };
        if pending != candidate {
            return Err(WalletError::Unauthorized);
        }
        env.admin = Some(candidate);
        env.pending_admins.remove(&admin);
        env.bump_instance_ttl();
        env.emit(Event::AdminTransferred { old_admin: admin, new_admin: candidate });
        Ok(())
    }

    /// The admin withdraws the proposal of a successor.
    pub fn cancel_admin_transfer(
        env: &mut WalletEnv,
        current: Address,
    ) -> (r: Result<(), WalletError>)
        requires
            old(env)@.authorized(current),
        ensures
            follows(old(env)@.cancel_admin_transfer(current), old(env)@, r, final(env)@),
    {
        match require_admin(env, current) {
            Err(e) => Err(e),
            Ok(()) => {
                env.pending_admins.remove(&current);
                env.bump_instance_ttl();
                env.emit(Event::AdminTransferCancelled { current });
                Ok(())
            },
        }
    }

    /// The admin queues a code change, executable once the delay has passed.
    /// The hash is taken as it is.
    pub fn propose_upgrade(
        env: &mut WalletEnv,
        proposer: Address,
        wasm_hash: WasmHash,
        delay_in_ledgers: u32,
    ) -> (r: Result<(), WalletError>)
        requires
            old(env)@.authorized(proposer),
        ensures
            follows(
                old(env)@.propose_upgrade(proposer, wasm_hash, delay_in_ledgers),
                old(env)@,
                r,
                final(env)@,
            ),
    {
        match require_admin(env, proposer) {
            Err(e) => return Err(e),
            Ok(()) => {},
        }
        if env.pending_upgrade.is_some() {
            return Err(WalletError::UpgradeAlreadyPending);
        }
        if delay_in_ledgers < GlobeWallet::MIN_UPGRADE_DELAY_LEDGERS {
            return Err(WalletError::UpgradeDelayTooShort);
        }
        let ready_at: u32 = env.sequence.saturating_add(delay_in_ledgers);
        env.pending_upgrade =
        Some(UpgradeProposal { wasm_hash, proposed_by: proposer, ready_at });
        env.bump_instance_ttl();
        env.emit(Event::UpgradeProposed { proposer, wasm_hash, ready_at });
        Ok(())
    }

    /// The admin executes the queued code change once its delay has passed.
    /// The hash must be the queued one. The ledger puts the code in place, and
    /// aborts the call where that code was never uploaded.
    pub fn execute_upgrade(
        env: &mut WalletEnv,
        executor: Address,
        wasm_hash: WasmHash,
    ) -> (r: Result<(), WalletError>)
        requires
            old(env)@.authorized(executor),
        ensures
            follows(
                old(env)@.execute_upgrade(executor, wasm_hash),
                old(env)@,
                r,
                final(env)@,
            ),
    {
        match require_admin(env, executor) {
            Err(e) => return Err(e),
            Ok(()) => {},
        }
        let proposal = match env.pending_upgrade {
            None => return Err(WalletError::UpgradeNotPending),
            Some(proposal) => proposal,
        };
        if proposal.wasm_hash != wasm_hash {
            return Err(WalletError::UpgradeHashMismatch);
        }
        if env.sequence < proposal.ready_at {
            return Err(WalletError::UpgradeNotReady);
        }
        env.code_update = Some(wasm_hash);
        env.pending_upgrade = None;
        env.bump_instance_ttl();
        env.emit(Event::UpgradeExecuted { executor, wasm_hash });
        Ok(())
    }
}

} // verus!
