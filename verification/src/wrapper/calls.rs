//! What each call on the token wrapper gives and changes, in terms of what it is
//! given and of the allowances that are kept.

use vstd::prelude::*;

use crate::address::Address;
use crate::wrapper::allowances::PendingTransfer;
use crate::wrapper::env::WrapperEnv;
use crate::wrapper::model::WrapperView;
use crate::wrapper::types::{
    Allowance, DataKey, TokenTransfer, WrapperError, WrapperEvent,
};
use crate::wrapper::TokenWrapper;

verus! {

/// What a spender may move of an owner's token; nothing, and at no ledger, where
/// no allowance is kept.
pub open spec fn left_to(s: WrapperView, owner: Address, spender: Address, token: Address) -> int {
    let key = DataKey::Allowance(owner, spender, token);
    if s.allowances.contains_key(key) {
        s.allowances[key].amount as int
    } else {
        0
    }
}

/// The last ledger at which a spender may move it.
pub open spec fn left_until(
    s: WrapperView,
    owner: Address,
    spender: Address,
    token: Address,
) -> int {
    let key = DataKey::Allowance(owner, spender, token);
    if s.allowances.contains_key(key) {
        s.allowances[key].expiry_ledger as int
    } else {
        0
    }
}

/// An allowance and nothing else was set, and its entry is kept alive up to its
/// expiry.
pub open spec fn only_allowance_set(
    s: WrapperView,
    n: WrapperView,
    owner: Address,
    spender: Address,
    token: Address,
    amount: int,
    expiry: int,
) -> bool {
    let key = DataKey::Allowance(owner, spender, token);
    let set = n.allowances[key];
    let request = n.ttl_extensions.last();
    &&& set.amount == amount
    &&& set.expiry_ledger == expiry
    &&& n.allowances == s.allowances.insert(key, set)
    &&& n.ttl_extensions.len() == s.ttl_extensions.len() + 1
    &&& n.ttl_extensions.drop_last() == s.ttl_extensions
    &&& request.key == key
    &&& request.threshold == expiry - s.sequence
    &&& request.extend_to == expiry - s.sequence
    &&& n == (WrapperView {
        allowances: n.allowances,
        ttl_extensions: n.ttl_extensions,
        events: n.events,
        ..s
    })
}

/// A new token wrapper has no allowances and has asked for nothing.
pub proof fn lemma_new_wrapper(r: WrapperEnv)
    requires
        call_ensures(WrapperEnv::new, (), r),
    ensures
        r@.sequence == 0,
        r@.signers.len() == 0,
        forall|key: DataKey| !#[trigger] r@.allowances.contains_key(key),
        r@.ttl_extensions.len() == 0,
        r@.events.len() == 0,
{
}

/// A call is authorized by exactly those who have signed it.
pub proof fn lemma_who_has_authorized(state: WrapperView, who: Address)
    ensures
        state.authorized(who) <==> exists|i: int|
            0 <= i < state.signers.len() && #[trigger] state.signers[i] == who,
{
}

/// The state of a wrapper is what its environment holds.
pub proof fn lemma_state_of_a_wrapper(env: &WrapperEnv)
    ensures
        env@.sequence == env.sequence,
        env@.signers == env.signers@,
        env@.allowances == env.allowances@,
        env@.ttl_extensions == env.ttl_extensions@,
        env@.events == env.events@,
{
}

/// An owner can grant any amount of 0 or more, until any ledger after the one of
/// the call, in place of what was granted before.
pub proof fn lemma_approve(
    env: &mut WrapperEnv,
    owner: Address,
    spender: Address,
    token_id: Address,
    amount: i128,
    expiry_ledger: u32,
    r: Result<(), WrapperError>,
)
    requires
        call_ensures(
            TokenWrapper::approve,
            (env, owner, spender, token_id, amount, expiry_ledger),
            r,
        ),
    ensures
        ({
            let (s, n) = (old(env)@, final(env)@);
            &&& r is Ok <==> amount >= 0 && expiry_ledger > s.sequence
            &&& r == Err::<(), WrapperError>(WrapperError::InvalidAmount) <==> amount < 0
            &&& r == Err::<(), WrapperError>(WrapperError::InvalidExpiry) <==> amount >= 0
                && expiry_ledger <= s.sequence
            &&& r is Err ==> n == s
            &&& r is Ok ==> {
                &&& only_allowance_set(
                    s,
                    n,
                    owner,
                    spender,
                    token_id,
                    amount as int,
                    expiry_ledger as int,
                )
                &&& n.events == s.events.push(
                    WrapperEvent::Approved { owner, spender, token_id, amount, expiry_ledger },
                )
            }
        }),
{
    if r is Ok {
        assert(final(env)@.ttl_extensions.drop_last() =~= old(env)@.ttl_extensions);
    }
}

/// The allowance that is read is the one that is kept.
pub proof fn lemma_allowance(
    env: &WrapperEnv,
    owner: Address,
    spender: Address,
    token_id: Address,
    r: Allowance,
)
    requires
        call_ensures(TokenWrapper::allowance, (env, owner, spender, token_id), r),
    ensures
        r.amount == left_to(env@, owner, spender, token_id),
        r.expiry_ledger == left_until(env@, owner, spender, token_id),
        call_requires(TokenWrapper::allowance, (env, owner, spender, token_id)),
{
}

/// A spender can move any positive amount that the allowance covers, to anybody,
/// up to and at its expiry ledger. The amount comes off the allowance, the expiry
/// stays, and the transfer that the token contract is to make is just that one.
pub proof fn lemma_transfer_from(
    env: &mut WrapperEnv,
    spender: Address,
    token_id: Address,
    from: Address,
    to: Address,
    amount: i128,
    r: Result<PendingTransfer, WrapperError>,
)
    requires
        call_ensures(TokenWrapper::transfer_from, (env, spender, token_id, from, to, amount), r),
    ensures
        ({
            let (s, n) = (old(env)@, final(env)@);
            let left = left_to(s, from, spender, token_id);
            let until = left_until(s, from, spender, token_id);
            &&& r is Ok <==> amount > 0 && s.sequence <= until && amount <= left
            &&& r == Err::<PendingTransfer, WrapperError>(WrapperError::InvalidAmount) <==> amount
                <= 0
            &&& r == Err::<PendingTransfer, WrapperError>(WrapperError::AllowanceExpired)
                <==> amount > 0 && s.sequence > until
            &&& r == Err::<PendingTransfer, WrapperError>(WrapperError::InsufficientAllowance)
                <==> amount > 0 && s.sequence <= until && amount > left
            &&& r is Err ==> n == s
            &&& r matches Ok(pending) ==> {
                &&& only_allowance_set(s, n, from, spender, token_id, left - amount, until)
                &&& n.events == s.events
                &&& pending.token_transfer() == (TokenTransfer { token_id, from, to, amount })
                &&& pending.spent_by() == spender
                &&& pending.initial_state() == s
                &&& pending.debited_state() == Ok::<WrapperView, WrapperError>(n)
            }
        }),
{
    if r is Ok {
        assert(final(env)@.ttl_extensions.drop_last() =~= old(env)@.ttl_extensions);
    }
}

/// The transfer that is handed out is the one that was asked for.
pub proof fn lemma_requested(pending: &PendingTransfer, r: TokenTransfer)
    requires
        call_ensures(PendingTransfer::request, (pending,), r),
    ensures
        r == pending.token_transfer(),
{
}

/// A transfer that the token contract has made stays off the allowance, and is
/// published.
pub proof fn lemma_complete_transfer(env: &mut WrapperEnv, pending: PendingTransfer)
    requires
        call_ensures(TokenWrapper::complete_transfer, (env, pending), ()),
    ensures
        ({
            let (s, n) = (pending.initial_state(), final(env)@);
            let t = pending.token_transfer();
            let by = pending.spent_by();
            &&& only_allowance_set(
                s,
                n,
                t.from,
                by,
                t.token_id,
                left_to(s, t.from, by, t.token_id) - t.amount,
                left_until(s, t.from, by, t.token_id),
            )
            &&& n.events == s.events.push(
                WrapperEvent::TransferFrom {
                    spender: by,
                    from: t.from,
                    to: t.to,
                    amount: t.amount,
                },
            )
        }),
{
    let s = pending.initial_state();
    assert(final(env)@.ttl_extensions.drop_last() =~= s.ttl_extensions);
}

/// Of a transfer that the token contract has not made, nothing stays.
pub proof fn lemma_abort_transfer(env: &mut WrapperEnv, pending: PendingTransfer)
    requires
        call_ensures(TokenWrapper::abort_transfer, (env, pending), ()),
    ensures
        final(env)@ == pending.initial_state(),
{
}

/// Who has authorized a call can make it, and every transfer can be settled in
/// the state in which it was debited.
pub proof fn lemma_calls_are_open(
    env: &mut WrapperEnv,
    who: Address,
    other: Address,
    token_id: Address,
    to: Address,
    amount: i128,
    expiry_ledger: u32,
    pending: PendingTransfer,
)
    ensures
        old(env)@.signers.contains(who) ==> {
            &&& call_requires(
                TokenWrapper::approve,
                (env, who, other, token_id, amount, expiry_ledger),
            )
            &&& call_requires(
                TokenWrapper::transfer_from,
                (env, who, token_id, other, to, amount),
            )
        },
        pending.debited_state() == Ok::<WrapperView, WrapperError>(old(env)@) ==> {
            &&& call_requires(TokenWrapper::complete_transfer, (env, pending))
            &&& call_requires(TokenWrapper::abort_transfer, (env, pending))
        },
{
}

/// The number of an error and the name of an event are those by which they are
/// known on the ledger.
pub proof fn lemma_published(e: WrapperError, number: u32, event: &WrapperEvent, name: &'static str)
    requires
        call_ensures(WrapperError::code, (e,), number),
        call_ensures(WrapperEvent::topic, (event,), name),
    ensures
        number == 2001 <==> e is AllowanceExpired,
        number == 2002 <==> e is InsufficientAllowance,
        number == 2003 <==> e is InvalidAmount,
        number == 2004 <==> e is InvalidExpiry,
        *event is Approved ==> name@ == "approved"@,
        *event is TransferFrom ==> name@ == "transfer_from"@,
{
}

} // verus!
