//! Laws of the calls on the admin role and on code upgrades.

use vstd::prelude::*;

use crate::address::{Address, WasmHash};
use crate::wallet::env::WalletEnv;
use crate::wallet::error::WalletError;
use crate::wallet::laws::calls::terms::{ledgers_ahead, wallet_alive};
use crate::wallet::model::WalletView;
use crate::wallet::types::Event;
use crate::wallet::GlobeWallet;

verus! {

/// Anybody can make a wallet without an admin have one, and nobody another.
pub proof fn lemma_initialize(env: &mut WalletEnv, admin: Address, r: Result<(), WalletError>)
    requires
        call_ensures(GlobeWallet::initialize, (env, admin), r),
    ensures
        r is Ok <==> old(env)@.admin is None,
        r is Err ==> r == Err::<(), WalletError>(WalletError::AlreadyInitialized) && final(env)@
            == old(env)@,
        r is Ok ==> {
            let (s, n) = (old(env)@, final(env)@);
            &&& n.admin == Some(admin)
            &&& n.events == s.events.push(Event::Initialized { admin })
            &&& n.ttl_extensions == s.ttl_extensions.push(wallet_alive())
            &&& n == (WalletView {
                admin: n.admin,
                events: n.events,
                ttl_extensions: n.ttl_extensions,
                ..s
            })
        },
{
}

/// The admin that is read is the one that is kept.
pub proof fn lemma_admin(env: &WalletEnv, r: Address)
    requires
        call_ensures(GlobeWallet::admin, (env,), r),
    ensures
        env@.admin == Some(r),
{
}

/// What a proposal of a successor gives and changes, under both of its names:
/// the admin, and nobody else, can propose anybody, at any time and as often as
/// wanted.
pub open spec fn proposal_made(
    s: WalletView,
    n: WalletView,
    current: Address,
    candidate: Address,
    r: Result<(), WalletError>,
) -> bool {
    &&& r is Ok <==> s.admin == Some(current)
    &&& r == Err::<(), WalletError>(WalletError::NotInitialized) <==> s.admin is None
    &&& r == Err::<(), WalletError>(WalletError::Unauthorized) <==> s.admin is Some && s.admin
        != Some(current)
    &&& r is Err ==> n == s
    &&& r is Ok ==> {
        &&& n.pending_admins == s.pending_admins.insert(current, candidate)
        &&& n.events == s.events.push(Event::AdminProposed { current, candidate })
        &&& n.ttl_extensions == s.ttl_extensions.push(wallet_alive())
        &&& n == (WalletView {
            pending_admins: n.pending_admins,
            events: n.events,
            ttl_extensions: n.ttl_extensions,
            ..s
        })
    }
}

/// A proposal of a successor does what it is for.
pub proof fn lemma_propose_admin(
    env: &mut WalletEnv,
    current: Address,
    candidate: Address,
    r: Result<(), WalletError>,
)
    requires
        call_ensures(GlobeWallet::propose_admin, (env, current, candidate), r),
    ensures
        proposal_made(old(env)@, final(env)@, current, candidate, r),
{
}

/// Under its older name too.
pub proof fn lemma_transfer_admin(
    env: &mut WalletEnv,
    current: Address,
    candidate: Address,
    r: Result<(), WalletError>,
)
    requires
        call_ensures(GlobeWallet::transfer_admin, (env, current, candidate), r),
    ensures
        proposal_made(old(env)@, final(env)@, current, candidate, r),
{
}

/// The candidate that the admin in office has proposed, and nobody else, becomes
/// the admin by accepting, and the proposal is used up.
pub proof fn lemma_accept_admin(
    env: &mut WalletEnv,
    candidate: Address,
    r: Result<(), WalletError>,
)
    requires
        call_ensures(GlobeWallet::accept_admin, (env, candidate), r),
    ensures
        r is Ok <==> (old(env)@.admin matches Some(a) && old(env)@.pending_admins.contains_key(a)
            && old(env)@.pending_admins[a] == candidate),
        r == Err::<(), WalletError>(WalletError::NotInitialized) <==> old(env)@.admin is None,
        r == Err::<(), WalletError>(WalletError::NoPendingAdmin) <==> (old(
            env,
        )@.admin matches Some(a) && !old(env)@.pending_admins.contains_key(a)),
        r == Err::<(), WalletError>(WalletError::Unauthorized) <==> (old(env)@.admin matches Some(a)
            && old(env)@.pending_admins.contains_key(a) && old(env)@.pending_admins[a]
            != candidate),
        r is Err ==> final(env)@ == old(env)@,
        r is Ok ==> {
            let (s, n) = (old(env)@, final(env)@);
            let old_admin = s.admin.unwrap();
            &&& n.admin == Some(candidate)
            &&& n.pending_admins == s.pending_admins.remove(old_admin)
            &&& n.events == s.events.push(
                Event::AdminTransferred { old_admin, new_admin: candidate },
            )
            &&& n.ttl_extensions == s.ttl_extensions.push(wallet_alive())
            &&& n == (WalletView {
                admin: n.admin,
                pending_admins: n.pending_admins,
                events: n.events,
                ttl_extensions: n.ttl_extensions,
                ..s
            })
        },
{
}

/// The admin, and nobody else, can withdraw a proposal, made or not.
pub proof fn lemma_cancel_admin_transfer(
    env: &mut WalletEnv,
    current: Address,
    r: Result<(), WalletError>,
)
    requires
        call_ensures(GlobeWallet::cancel_admin_transfer, (env, current), r),
    ensures
        r is Ok <==> old(env)@.admin == Some(current),
        r == Err::<(), WalletError>(WalletError::NotInitialized) <==> old(env)@.admin is None,
        r == Err::<(), WalletError>(WalletError::Unauthorized) <==> old(env)@.admin is Some && old(
            env,
        )@.admin != Some(current),
        r is Err ==> final(env)@ == old(env)@,
        r is Ok ==> {
            let (s, n) = (old(env)@, final(env)@);
            &&& n.pending_admins == s.pending_admins.remove(current)
            &&& n.events == s.events.push(Event::AdminTransferCancelled { current })
            &&& n.ttl_extensions == s.ttl_extensions.push(wallet_alive())
            &&& n == (WalletView {
                pending_admins: n.pending_admins,
                events: n.events,
                ttl_extensions: n.ttl_extensions,
                ..s
            })
        },
{
}

/// The admin can queue an upgrade to any code, where none is queued, with any
/// delay of at least 3 days of 17,280 ledgers. It is queued for the end of just
/// that delay.
pub proof fn lemma_propose_upgrade(
    env: &mut WalletEnv,
    proposer: Address,
    wasm_hash: WasmHash,
    delay_in_ledgers: u32,
    r: Result<(), WalletError>,
)
    requires
        call_ensures(
            GlobeWallet::propose_upgrade,
            (env, proposer, wasm_hash, delay_in_ledgers),
            r,
        ),
    ensures
        r is Ok <==> old(env)@.admin == Some(proposer) && old(env)@.pending_upgrade is None
            && delay_in_ledgers >= 51_840,
        r == Err::<(), WalletError>(WalletError::NotInitialized) <==> old(env)@.admin is None,
        r == Err::<(), WalletError>(WalletError::Unauthorized) <==> old(env)@.admin is Some && old(
            env,
        )@.admin != Some(proposer),
        r == Err::<(), WalletError>(WalletError::UpgradeAlreadyPending) <==> old(env)@.admin
            == Some(proposer) && old(env)@.pending_upgrade is Some,
        r == Err::<(), WalletError>(WalletError::UpgradeDelayTooShort) <==> old(env)@.admin == Some(
            proposer,
        ) && old(env)@.pending_upgrade is None && delay_in_ledgers < 51_840,
        r is Err ==> final(env)@ == old(env)@,
        r is Ok ==> {
            let (s, n) = (old(env)@, final(env)@);
            let queued = n.pending_upgrade.unwrap();
            &&& n.pending_upgrade is Some
            &&& queued.wasm_hash == wasm_hash
            &&& queued.proposed_by == proposer
            &&& queued.ready_at == ledgers_ahead(s, delay_in_ledgers)
            &&& n.events == s.events.push(
                Event::UpgradeProposed { proposer, wasm_hash, ready_at: queued.ready_at },
            )
            &&& n.ttl_extensions == s.ttl_extensions.push(wallet_alive())
            &&& n == (WalletView {
                pending_upgrade: n.pending_upgrade,
                events: n.events,
                ttl_extensions: n.ttl_extensions,
                ..s
            })
        },
{
}

/// The admin can execute the upgrade that is queued, and no other, at every
/// ledger from its time on. It is then no longer queued.
pub proof fn lemma_execute_upgrade(
    env: &mut WalletEnv,
    executor: Address,
    wasm_hash: WasmHash,
    r: Result<(), WalletError>,
)
    requires
        call_ensures(GlobeWallet::execute_upgrade, (env, executor, wasm_hash), r),
    ensures
        r is Ok <==> old(env)@.admin == Some(executor) && (old(
            env,
        )@.pending_upgrade matches Some(queued) && queued.wasm_hash == wasm_hash && queued.ready_at
            <= old(env)@.sequence),
        r == Err::<(), WalletError>(WalletError::NotInitialized) <==> old(env)@.admin is None,
        r == Err::<(), WalletError>(WalletError::Unauthorized) <==> old(env)@.admin is Some && old(
            env,
        )@.admin != Some(executor),
        r == Err::<(), WalletError>(WalletError::UpgradeNotPending) <==> old(env)@.admin == Some(
            executor,
        ) && old(env)@.pending_upgrade is None,
        r == Err::<(), WalletError>(WalletError::UpgradeHashMismatch) <==> old(env)@.admin == Some(
            executor,
        ) && (old(env)@.pending_upgrade matches Some(queued) && queued.wasm_hash != wasm_hash),
        r == Err::<(), WalletError>(WalletError::UpgradeNotReady) <==> old(env)@.admin == Some(
            executor,
        ) && (old(env)@.pending_upgrade matches Some(queued) && queued.wasm_hash == wasm_hash
            && queued.ready_at > old(env)@.sequence),
        r is Err ==> final(env)@ == old(env)@,
        r is Ok ==> {
            let (s, n) = (old(env)@, final(env)@);
            &&& n.code_update == Some(wasm_hash)
            &&& n.pending_upgrade is None
            &&& n.events == s.events.push(Event::UpgradeExecuted { executor, wasm_hash })
            &&& n.ttl_extensions == s.ttl_extensions.push(wallet_alive())
            &&& n == (WalletView {
                code_update: n.code_update,
                pending_upgrade: n.pending_upgrade,
                events: n.events,
                ttl_extensions: n.ttl_extensions,
                ..s
            })
        },
{
}

/// Who has authorized a call can make it: nothing else is asked of a caller, but
/// that there is an admin to read.
pub proof fn lemma_admin_calls_are_open(
    env: &mut WalletEnv,
    reader: &WalletEnv,
    who: Address,
    other: Address,
    wasm_hash: WasmHash,
    delay_in_ledgers: u32,
)
    ensures
        call_requires(GlobeWallet::initialize, (env, who)),
        reader@.admin is Some ==> call_requires(GlobeWallet::admin, (reader,)),
        old(env)@.signers.contains(who) ==> {
            &&& call_requires(GlobeWallet::propose_admin, (env, who, other))
            &&& call_requires(GlobeWallet::transfer_admin, (env, who, other))
            &&& call_requires(GlobeWallet::accept_admin, (env, who))
            &&& call_requires(GlobeWallet::cancel_admin_transfer, (env, who))
            &&& call_requires(
                GlobeWallet::propose_upgrade,
                (env, who, wasm_hash, delay_in_ledgers),
            )
            &&& call_requires(GlobeWallet::execute_upgrade, (env, who, wasm_hash))
        },
{
}

} // verus!
