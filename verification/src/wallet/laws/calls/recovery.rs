//! Laws of the calls on guardians and recovery.

use vstd::prelude::*;

use crate::address::Address;
use crate::host::{without, AddressList};
use crate::wallet::env::WalletEnv;
use crate::wallet::error::WalletError;
use crate::wallet::laws::calls::terms::{guards, ledgers_ahead, wallet_alive};
use crate::wallet::laws::recovery::lemma_nothing_without;
use crate::wallet::laws::soundness::lemma_without;
use crate::wallet::model::WalletView;
use crate::wallet::types::{Event, RecoveryCompletedEvent, RecoveryConfig, RecoveryProposal};
use crate::wallet::GlobeWallet;

verus! {

/// The index of a state holds, as members, those who were guardians before and
/// perhaps one more, and an index that was there keeps its other entries.
pub open spec fn index_extended(s: WalletView, n: WalletView, added: Option<Address>) -> bool {
    n.guardian_index matches Some(index) && (match s.guardian_index {
        Some(before) => match added {
            Some(who) => index == before.insert(who, true),
            None => index == before,
        },
        None => forall|a: Address|
            {
                &&& #[trigger] index.contains_key(a) <==> s.guardians.contains(a) || added
                    == Some(a)
                &&& index.contains_key(a) ==> index[a]
            },
    })
}

/// The admin can add anybody who is no guardian, up to 15. The new guardian comes
/// last.
pub proof fn lemma_add_guardian(
    env: &mut WalletEnv,
    admin: Address,
    guardian: Address,
    r: Result<(), WalletError>,
)
    requires
        call_ensures(GlobeWallet::add_guardian, (env, admin, guardian), r),
    ensures
        r is Ok <==> old(env)@.admin == Some(admin) && !guards(old(env)@, guardian) && old(
            env,
        )@.guardians.len() < 15,
        r == Err::<(), WalletError>(WalletError::NotInitialized) <==> old(env)@.admin is None,
        r == Err::<(), WalletError>(WalletError::Unauthorized) <==> old(env)@.admin is Some && old(
            env,
        )@.admin != Some(admin),
        r == Err::<(), WalletError>(WalletError::GuardianAlreadyAdded) <==> old(env)@.admin == Some(
            admin,
        ) && guards(old(env)@, guardian),
        r == Err::<(), WalletError>(WalletError::GuardianLimitExceeded) <==> old(env)@.admin
            == Some(admin) && !guards(old(env)@, guardian) && old(env)@.guardians.len() >= 15,
        r is Err ==> final(env)@ == old(env)@,
        r is Ok ==> {
            let (s, n) = (old(env)@, final(env)@);
            &&& n.guardians == s.guardians.push(guardian)
            &&& index_extended(s, n, Some(guardian))
            &&& n.events == s.events.push(Event::GuardianAdded { guardian })
            &&& n.ttl_extensions == s.ttl_extensions.push(wallet_alive())
            &&& n == (WalletView {
                guardians: n.guardians,
                guardian_index: n.guardian_index,
                events: n.events,
                ttl_extensions: n.ttl_extensions,
                ..s
            })
        },
{
}

/// A recovery from which one approval has been struck: that approval is gone and
/// no other, the others keep their order, and the countdown stops exactly where
/// fewer approvals are left than the threshold asks for.
pub open spec fn approval_struck(
    s: WalletView,
    before: RecoveryProposal<Seq<Address>>,
    after: RecoveryProposal<Seq<Address>>,
    guardian: Address,
) -> bool {
    &&& after.new_admin == before.new_admin
    &&& forall|a: Address| #[trigger]
        after.approvals.contains(a) <==> before.approvals.contains(a) && a != guardian
    &&& forall|i: int|
        0 <= i < before.approvals.len() && #[trigger] before.approvals[i] == guardian
            ==> after.approvals == before.approvals.remove(i)
    &&& after.ready_at == (if s.recovery_config matches Some(config) && before.approvals.len() - 1
        < config.threshold {
        None
    } else {
        before.ready_at
    })
}

/// Leaving out an address that stands once is removing it from its place.
proof fn lemma_one_place(list: Seq<Address>, who: Address, i: int)
    requires
        list.no_duplicates(),
        0 <= i < list.len(),
        list[i] == who,
    ensures
        without(list, who) == list.remove(i),
    decreases list.len(),
{
    reveal(Seq::filter);
    let front = list.drop_last();
    assert(front.no_duplicates()) by {
        assert forall|a: int, b: int|
            0 <= a < front.len() && 0 <= b < front.len() && a != b implies front[a] != front[b] by {
            assert(list[a] != list[b]);
        }
    }
    if i == list.len() - 1 {
        assert(!front.contains(who)) by {
            if front.contains(who) {
                let k = choose|k: int| 0 <= k < front.len() && front[k] == who;
                assert(list[k] != list[i]);
            }
        }
        lemma_nothing_without(front, who);
        assert(list.remove(i) =~= front);
    } else {
        assert(list[list.len() - 1] != list[i]);
        lemma_one_place(front, who, i);
        assert(list.remove(i) =~= front.remove(i).push(list.last()));
    }
}

/// Leaving out an address from a list without duplicates.
proof fn lemma_left_out(list: Seq<Address>, who: Address)
    requires
        list.no_duplicates(),
    ensures
        forall|a: Address| #[trigger]
            without(list, who).contains(a) <==> list.contains(a) && a != who,
        forall|i: int|
            0 <= i < list.len() && #[trigger] list[i] == who ==> without(list, who) == list.remove(
                i,
            ),
        list.contains(who) ==> without(list, who).len() == list.len() - 1,
{
    lemma_without(list, who);
    assert forall|i: int| 0 <= i < list.len() && #[trigger] list[i] == who implies without(
        list,
        who,
    ) == list.remove(i) by {
        lemma_one_place(list, who, i);
    }
}

/// The admin can remove any guardian, as long as the others are as many as the
/// threshold asks for. The guardian's approval goes too, and no other.
pub proof fn lemma_remove_guardian(
    env: &mut WalletEnv,
    admin: Address,
    guardian: Address,
    r: Result<(), WalletError>,
)
    requires
        call_ensures(GlobeWallet::remove_guardian, (env, admin, guardian), r),
        old(env)@.guardians.no_duplicates(),
        old(env)@.recovery_proposal matches Some(p) ==> p.approvals.no_duplicates(),
    ensures
        ({
            let (s, n) = (old(env)@, final(env)@);
            let here = s.guardians.contains(guardian);
            let too_few = s.recovery_config matches Some(config) && s.guardians.len() - 1
                < config.threshold;
            &&& r is Ok <==> s.admin == Some(admin) && here && !too_few
            &&& r == Err::<(), WalletError>(WalletError::NotInitialized) <==> s.admin is None
            &&& r == Err::<(), WalletError>(WalletError::Unauthorized) <==> s.admin is Some
                && s.admin != Some(admin)
            &&& r == Err::<(), WalletError>(WalletError::GuardianNotFound) <==> s.admin == Some(
                admin,
            ) && !here
            &&& r == Err::<(), WalletError>(WalletError::NotEnoughGuardians) <==> s.admin == Some(
                admin,
            ) && here && too_few
            &&& r is Err ==> n == s
        }),
        r is Ok ==> {
            let (s, n) = (old(env)@, final(env)@);
            let approved = s.recovery_proposal matches Some(p) && p.approvals.contains(guardian);
            &&& forall|a: Address| #[trigger]
                n.guardians.contains(a) <==> s.guardians.contains(a) && a != guardian
            &&& forall|i: int|
                0 <= i < s.guardians.len() && #[trigger] s.guardians[i] == guardian ==> n.guardians
                    == s.guardians.remove(i)
            &&& forall|a: Address| #[trigger] guards(n, a) <==> guards(s, a) && a != guardian
            &&& n.guardian_index is Some
            &&& s.guardian_index matches Some(index) ==> n.guardian_index == Some(
                index.remove(guardian),
            )
            &&& approved ==> n.recovery_proposal is Some && approval_struck(
                s,
                s.recovery_proposal.unwrap(),
                n.recovery_proposal.unwrap(),
                guardian,
            )
            &&& !approved ==> n.recovery_proposal == s.recovery_proposal
            &&& n.events == (if approved {
                s.events.push(Event::RecoveryApprovalInvalidated { guardian })
            } else {
                s.events
            }).push(Event::GuardianRemoved { guardian })
            &&& n.ttl_extensions == s.ttl_extensions.push(wallet_alive())
            &&& n == (WalletView {
                guardians: n.guardians,
                guardian_index: n.guardian_index,
                recovery_proposal: n.recovery_proposal,
                events: n.events,
                ttl_extensions: n.ttl_extensions,
                ..s
            })
        },
{
    let s = old(env)@;
    lemma_left_out(s.guardians, guardian);
    if let Some(p) = s.recovery_proposal {
        lemma_left_out(p.approvals, guardian);
    }
}

/// With no recovery in flight, the admin can set any threshold from 2 up to the
/// number of guardians, of whom there must be 3, and any delay of at least a day
/// of 17,280 ledgers.
pub proof fn lemma_set_recovery_config(
    env: &mut WalletEnv,
    admin: Address,
    threshold: u32,
    delay_in_ledgers: u32,
    r: Result<(), WalletError>,
)
    requires
        call_ensures(
            GlobeWallet::set_recovery_config,
            (env, admin, threshold, delay_in_ledgers),
            r,
        ),
    ensures
        ({
            let (s, n) = (old(env)@, final(env)@);
            let count = s.guardians.len();
            let free = s.admin == Some(admin) && s.recovery_proposal is None;
            let enough = count >= 3 && threshold <= count;
            &&& r is Ok <==> free && threshold >= 2 && enough && delay_in_ledgers >= 17_280
            &&& r == Err::<(), WalletError>(WalletError::NotInitialized) <==> s.admin is None
            &&& r == Err::<(), WalletError>(WalletError::Unauthorized) <==> s.admin is Some
                && s.admin != Some(admin)
            &&& r == Err::<(), WalletError>(WalletError::RecoveryAlreadyPending) <==> s.admin
                == Some(admin) && s.recovery_proposal is Some
            &&& r == Err::<(), WalletError>(WalletError::InvalidRecoveryThreshold) <==> free
                && threshold < 2
            &&& r == Err::<(), WalletError>(WalletError::NotEnoughGuardians) <==> free && threshold
                >= 2 && !enough
            &&& r == Err::<(), WalletError>(WalletError::RecoveryDelayTooShort) <==> free
                && threshold >= 2 && enough && delay_in_ledgers < 17_280
            &&& r is Err ==> n == s
            &&& r is Ok ==> {
                &&& n.recovery_config == Some(RecoveryConfig { threshold, delay_in_ledgers })
                &&& n.events == s.events.push(
                    Event::RecoveryConfigSet { threshold, delay_in_ledgers },
                )
                &&& n.ttl_extensions == s.ttl_extensions.push(wallet_alive())
                &&& n == (WalletView {
                    recovery_config: n.recovery_config,
                    events: n.events,
                    ttl_extensions: n.ttl_extensions,
                    ..s
                })
            }
        }),
{
}

/// Every guardian can start a recovery to anybody, where recovery is configured
/// and none is in flight. It has that guardian's approval and no countdown.
pub proof fn lemma_initiate_recovery(
    env: &mut WalletEnv,
    guardian: Address,
    new_admin: Address,
    r: Result<(), WalletError>,
)
    requires
        call_ensures(GlobeWallet::initiate_recovery, (env, guardian, new_admin), r),
    ensures
        ({
            let (s, n) = (old(env)@, final(env)@);
            let started = n.recovery_proposal.unwrap();
            &&& r is Ok <==> guards(s, guardian) && s.recovery_config is Some
                && s.recovery_proposal is None
            &&& r == Err::<(), WalletError>(WalletError::Unauthorized) <==> !guards(s, guardian)
            &&& r == Err::<(), WalletError>(WalletError::RecoveryNotConfigured) <==> guards(
                s,
                guardian,
            ) && s.recovery_config is None
            &&& r == Err::<(), WalletError>(WalletError::RecoveryAlreadyPending) <==> guards(
                s,
                guardian,
            ) && s.recovery_config is Some && s.recovery_proposal is Some
            &&& r is Err ==> n == s
            &&& r is Ok ==> {
                &&& n.recovery_proposal is Some
                &&& started.new_admin == new_admin
                &&& started.approvals == seq![guardian]
                &&& started.ready_at is None
                &&& index_extended(s, n, None)
                &&& n.events == s.events.push(Event::RecoveryInitiated { guardian, new_admin })
                &&& n.ttl_extensions == s.ttl_extensions.push(wallet_alive())
                &&& n == (WalletView {
                    recovery_proposal: n.recovery_proposal,
                    guardian_index: n.guardian_index,
                    events: n.events,
                    ttl_extensions: n.ttl_extensions,
                    ..s
                })
            }
        }),
{
}

/// Every guardian can approve the recovery in flight once. The approval comes
/// last. Where it makes the quorum, a countdown of the configured delay starts;
/// where a countdown runs, it goes on.
pub proof fn lemma_approve_recovery(
    env: &mut WalletEnv,
    guardian: Address,
    r: Result<(), WalletError>,
)
    requires
        call_ensures(GlobeWallet::approve_recovery, (env, guardian), r),
    ensures
        ({
            let (s, n) = (old(env)@, final(env)@);
            let set_up = s.recovery_config is Some;
            let p = s.recovery_proposal.unwrap();
            let given = p.approvals.contains(guardian);
            &&& r is Ok <==> guards(s, guardian) && set_up && s.recovery_proposal is Some && !given
            &&& r == Err::<(), WalletError>(WalletError::Unauthorized) <==> !guards(s, guardian)
            &&& r == Err::<(), WalletError>(WalletError::RecoveryNotConfigured) <==> guards(
                s,
                guardian,
            ) && !set_up
            &&& r == Err::<(), WalletError>(WalletError::NoPendingRecovery) <==> guards(s, guardian)
                && set_up && s.recovery_proposal is None
            &&& r == Err::<(), WalletError>(WalletError::AlreadyApproved) <==> guards(s, guardian)
                && set_up && s.recovery_proposal is Some && given
            &&& r is Err ==> n == s
        }),
        r is Ok ==> {
            let (s, n) = (old(env)@, final(env)@);
            let config = s.recovery_config.unwrap();
            let p = s.recovery_proposal.unwrap();
            let q = n.recovery_proposal.unwrap();
            let starts = p.ready_at is None && p.approvals.len() + 1 >= config.threshold;
            &&& n.recovery_proposal is Some
            &&& q.new_admin == p.new_admin
            &&& q.approvals == p.approvals.push(guardian)
            &&& starts ==> (q.ready_at matches Some(t) && t == ledgers_ahead(
                s,
                config.delay_in_ledgers,
            ))
            &&& !starts ==> q.ready_at == p.ready_at
            &&& index_extended(s, n, None)
            &&& n.events == (if starts {
                s.events.push(
                    Event::RecoveryQuorumReached {
                        new_admin: p.new_admin,
                        ready_at: q.ready_at.unwrap(),
                    },
                )
            } else {
                s.events
            }).push(Event::RecoveryApproved { guardian })
            &&& n.ttl_extensions == s.ttl_extensions.push(wallet_alive())
            &&& n == (WalletView {
                recovery_proposal: n.recovery_proposal,
                guardian_index: n.guardian_index,
                events: n.events,
                ttl_extensions: n.ttl_extensions,
                ..s
            })
        },
{
}

/// Every guardian can take back the own approval, wherever in the list it stands
/// and whether or not there is a quorum. It takes back no other.
pub proof fn lemma_revoke_recovery_approval(
    env: &mut WalletEnv,
    guardian: Address,
    r: Result<(), WalletError>,
)
    requires
        call_ensures(GlobeWallet::revoke_recovery_approval, (env, guardian), r),
        old(env)@.recovery_proposal matches Some(p) ==> p.approvals.no_duplicates(),
    ensures
        ({
            let (s, n) = (old(env)@, final(env)@);
            let set_up = s.recovery_config is Some;
            let given = s.recovery_proposal.unwrap().approvals.contains(guardian);
            &&& r is Ok <==> guards(s, guardian) && set_up && s.recovery_proposal is Some && given
            &&& r == Err::<(), WalletError>(WalletError::Unauthorized) <==> !guards(s, guardian)
            &&& r == Err::<(), WalletError>(WalletError::RecoveryNotConfigured) <==> guards(
                s,
                guardian,
            ) && !set_up
            &&& r == Err::<(), WalletError>(WalletError::NoPendingRecovery) <==> guards(s, guardian)
                && set_up && s.recovery_proposal is None
            &&& r == Err::<(), WalletError>(WalletError::ApprovalNotFound) <==> guards(s, guardian)
                && set_up && s.recovery_proposal is Some && !given
            &&& r is Err ==> n == s
            &&& r is Ok ==> {
                &&& n.recovery_proposal is Some
                &&& approval_struck(
                    s,
                    s.recovery_proposal.unwrap(),
                    n.recovery_proposal.unwrap(),
                    guardian,
                )
                &&& index_extended(s, n, None)
                &&& n.events == s.events.push(Event::RecoveryApprovalRevoked { guardian })
                &&& n.ttl_extensions == s.ttl_extensions.push(wallet_alive())
                &&& n == (WalletView {
                    recovery_proposal: n.recovery_proposal,
                    guardian_index: n.guardian_index,
                    events: n.events,
                    ttl_extensions: n.ttl_extensions,
                    ..s
                })
            }
        }),
{
    if let Some(p) = old(env)@.recovery_proposal {
        lemma_left_out(p.approvals, guardian);
    }
}

/// A recovery with as many approvals as the threshold asks for can be executed,
/// by anybody, at every ledger from the end of its countdown on, and at none
/// before. The proposed admin then has the role, and neither the recovery nor a
/// proposal of the old admin is left.
pub proof fn lemma_execute_recovery(env: &mut WalletEnv, r: Result<(), WalletError>)
    requires
        call_ensures(GlobeWallet::execute_recovery, (env,), r),
    ensures
        ({
            let (s, n) = (old(env)@, final(env)@);
            let set_up = s.recovery_config is Some;
            let in_flight = set_up && s.recovery_proposal is Some;
            let p = s.recovery_proposal.unwrap();
            let quorate = in_flight && p.approvals.len() >= s.recovery_config.unwrap().threshold
                && p.ready_at is Some;
            let due = quorate && p.ready_at.unwrap() <= s.sequence;
            &&& r is Ok <==> due && s.admin is Some && s.admin != Some(p.new_admin)
            &&& r == Err::<(), WalletError>(WalletError::RecoveryNotConfigured) <==> !set_up
            &&& r == Err::<(), WalletError>(WalletError::NoPendingRecovery) <==> set_up
                && !in_flight
            &&& r == Err::<(), WalletError>(WalletError::RecoveryNotQuorate) <==> in_flight
                && !quorate
            &&& r == Err::<(), WalletError>(WalletError::RecoveryNotReady) <==> quorate && !due
            &&& r == Err::<(), WalletError>(WalletError::NotInitialized) <==> due && s.admin is None
            &&& r == Err::<(), WalletError>(WalletError::RecoveryNewAdminUnchanged) <==> due
                && s.admin == Some(p.new_admin)
            &&& r is Err ==> n == s
        }),
        r is Ok ==> {
            let (s, n) = (old(env)@, final(env)@);
            let p = s.recovery_proposal.unwrap();
            let old_admin = s.admin.unwrap();
            let completed = RecoveryCompletedEvent {
                old_admin,
                new_admin: p.new_admin,
                approving_guardians: p.approvals,
                threshold: s.recovery_config.unwrap().threshold,
                ready_at: p.ready_at.unwrap(),
                executed_at: s.sequence,
            };
            &&& n.admin == Some(p.new_admin)
            &&& n.recovery_proposal is None
            &&& n.pending_admins == s.pending_admins.remove(old_admin)
            &&& n.events == s.events.push(
                Event::AdminTransferred { old_admin, new_admin: p.new_admin },
            ).push(Event::RecoveryCompleted(completed))
            &&& n.ttl_extensions == s.ttl_extensions.push(wallet_alive())
            &&& n == (WalletView {
                admin: n.admin,
                recovery_proposal: n.recovery_proposal,
                pending_admins: n.pending_admins,
                events: n.events,
                ttl_extensions: n.ttl_extensions,
                ..s
            })
        },
{
}

/// The admin can stop every recovery in flight.
pub proof fn lemma_cancel_recovery(
    env: &mut WalletEnv,
    admin: Address,
    r: Result<(), WalletError>,
)
    requires
        call_ensures(GlobeWallet::cancel_recovery, (env, admin), r),
    ensures
        ({
            let (s, n) = (old(env)@, final(env)@);
            &&& r is Ok <==> s.admin == Some(admin) && s.recovery_proposal is Some
            &&& r == Err::<(), WalletError>(WalletError::NotInitialized) <==> s.admin is None
            &&& r == Err::<(), WalletError>(WalletError::Unauthorized) <==> s.admin is Some
                && s.admin != Some(admin)
            &&& r == Err::<(), WalletError>(WalletError::NoPendingRecovery) <==> s.admin == Some(
                admin,
            ) && s.recovery_proposal is None
            &&& r is Err ==> n == s
            &&& r is Ok ==> {
                &&& n.recovery_proposal is None
                &&& n.events == s.events.push(Event::RecoveryCancelled { admin })
                &&& n.ttl_extensions == s.ttl_extensions.push(wallet_alive())
                &&& n == (WalletView {
                    recovery_proposal: n.recovery_proposal,
                    events: n.events,
                    ttl_extensions: n.ttl_extensions,
                    ..s
                })
            }
        }),
{
}

/// The guardians, the configuration and the recovery that are read are those
/// that are kept.
pub proof fn lemma_recovery_is_read(
    env: &WalletEnv,
    guardians: AddressList,
    config: Option<RecoveryConfig>,
    proposal: Option<RecoveryProposal>,
)
    ensures
        call_ensures(GlobeWallet::guardians, (env,), guardians) ==> guardians@ == env@.guardians,
        call_ensures(GlobeWallet::recovery_config, (env,), config) ==> config
            == env@.recovery_config,
        call_ensures(GlobeWallet::recovery_proposal, (env,), proposal) ==> (match proposal {
            Some(p) => env@.recovery_proposal matches Some(kept) && p.new_admin == kept.new_admin
                && p.approvals@ == kept.approvals && p.ready_at == kept.ready_at,
            None => env@.recovery_proposal is None,
        }),
{
}

/// Who has authorized a call can make it: nothing else is asked of a caller, but
/// that a proposal has room for one more approval.
pub proof fn lemma_recovery_calls_are_open(
    env: &mut WalletEnv,
    who: Address,
    other: Address,
    threshold: u32,
    delay_in_ledgers: u32,
)
    ensures
        call_requires(GlobeWallet::execute_recovery, (env,)),
        old(env)@.signers.contains(who) ==> {
            &&& call_requires(GlobeWallet::add_guardian, (env, who, other))
            &&& call_requires(GlobeWallet::remove_guardian, (env, who, other))
            &&& call_requires(
                GlobeWallet::set_recovery_config,
                (env, who, threshold, delay_in_ledgers),
            )
            &&& call_requires(GlobeWallet::initiate_recovery, (env, who, other))
            &&& (old(env)@.recovery_proposal matches Some(p) ==> p.approvals.len() < 4_294_967_295)
                ==> call_requires(GlobeWallet::approve_recovery, (env, who))
            &&& call_requires(GlobeWallet::revoke_recovery_approval, (env, who))
            &&& call_requires(GlobeWallet::cancel_recovery, (env, who))
        },
{
}

} // verus!
