//! What holds of the token wrapper as a whole.

use vstd::prelude::*;

use crate::address::Address;
use crate::wrapper::model::WrapperView;
use crate::wrapper::types::{Allowance, DataKey, WrapperError};

verus! {

impl WrapperView {
    /// The same wrapper at another ledger, for a call that others have authorized.
    pub open spec fn at(self, sequence: u32, signers: Seq<Address>) -> WrapperView {
        WrapperView { sequence, signers, ..self }
    }

    /// No allowance is negative.
    pub open spec fn sound(self) -> bool {
        forall|key: DataKey| #[trigger]
            self.allowances.contains_key(key) ==> self.allowances[key].amount >= 0
    }
}

/// No allowance is ever negative.
pub proof fn lemma_allowances_stay_sound(
    state: WrapperView,
    owner: Address,
    spender: Address,
    token_id: Address,
    to: Address,
    amount: i128,
    expiry_ledger: u32,
)
    requires
        state.sound(),
    ensures
        WrapperView::fresh().sound(),
        state.approve(owner, spender, token_id, amount, expiry_ledger) matches Ok(next)
            ==> next.sound(),
        state.transfer_from(spender, token_id, owner, to, amount) matches Ok(next) ==> next.sound(),
{
}

/// An allowance that was granted is the allowance that is read. It stands in
/// place of any earlier one: nothing is added to it.
pub proof fn lemma_grant_replaces(
    state: WrapperView,
    owner: Address,
    spender: Address,
    token_id: Address,
    amount: i128,
    expiry_ledger: u32,
)
    ensures
        state.approve(owner, spender, token_id, amount, expiry_ledger) matches Ok(next)
            ==> next.allowance(owner, spender, token_id) == (Allowance { amount, expiry_ledger }),
{
}

/// Allowances of different owners, spenders or tokens are kept apart: neither a
/// grant nor a transfer touches any but its own.
pub proof fn lemma_allowances_are_separate(
    state: WrapperView,
    owner: Address,
    spender: Address,
    token_id: Address,
    to: Address,
    amount: i128,
    expiry_ledger: u32,
    other_owner: Address,
    other_spender: Address,
    other_token: Address,
)
    requires
        owner != other_owner || spender != other_spender || token_id != other_token,
    ensures
        state.approve(owner, spender, token_id, amount, expiry_ledger) matches Ok(next)
            ==> next.allowance(other_owner, other_spender, other_token) == state.allowance(
            other_owner,
            other_spender,
            other_token,
        ),
        state.transfer_from(spender, token_id, owner, to, amount) matches Ok(next)
            ==> next.allowance(other_owner, other_spender, other_token) == state.allowance(
            other_owner,
            other_spender,
            other_token,
        ),
{
}

/// A granted allowance can be used up to and at its expiry ledger, for any
/// positive amount that it covers, and at no later ledger.
pub proof fn lemma_when_a_grant_is_usable(
    state: WrapperView,
    owner: Address,
    spender: Address,
    token_id: Address,
    granted: i128,
    expiry_ledger: u32,
    sequence: u32,
    signers: Seq<Address>,
    to: Address,
    amount: i128,
)
    requires
        amount > 0,
        state.approve(owner, spender, token_id, granted, expiry_ledger) is Ok,
    ensures
        ({
            let later = state.approve(
                owner,
                spender,
                token_id,
                granted,
                expiry_ledger,
            ).unwrap().at(sequence, signers);
            let moved = later.transfer_from(spender, token_id, owner, to, amount);
            &&& moved is Ok <==> sequence <= expiry_ledger && amount <= granted
            &&& sequence > expiry_ledger ==> moved == Err::<WrapperView, WrapperError>(
                WrapperError::AllowanceExpired,
            )
            &&& sequence <= expiry_ledger && amount > granted ==> moved == Err::<
                WrapperView,
                WrapperError,
            >(WrapperError::InsufficientAllowance)
        }),
{
}

/// A transfer takes exactly its amount off the allowance, and leaves its expiry.
pub proof fn lemma_transfer_takes_its_amount(
    state: WrapperView,
    owner: Address,
    spender: Address,
    token_id: Address,
    to: Address,
    amount: i128,
)
    ensures
        state.transfer_from(spender, token_id, owner, to, amount) matches Ok(next) ==> {
            let before = state.allowance(owner, spender, token_id);
            let after = next.allowance(owner, spender, token_id);
            &&& after.amount == before.amount - amount
            &&& after.expiry_ledger == before.expiry_ledger
        },
{
}

/// Two transfers out of one allowance succeed together exactly where it covers
/// both.
pub proof fn lemma_two_transfers(
    state: WrapperView,
    owner: Address,
    spender: Address,
    token_id: Address,
    to: Address,
    first: i128,
    second: i128,
)
    requires
        first > 0,
        second > 0,
        state.allowance(owner, spender, token_id).expiry_ledger >= state.sequence,
    ensures
        (state.transfer_from(spender, token_id, owner, to, first) matches Ok(once)
            && once.transfer_from(spender, token_id, owner, to, second) is Ok) <==> first + second
            <= state.allowance(owner, spender, token_id).amount,
{
}

/// Without a grant there is nothing to transfer.
pub proof fn lemma_nothing_without_a_grant(
    state: WrapperView,
    owner: Address,
    spender: Address,
    token_id: Address,
    to: Address,
    amount: i128,
)
    requires
        !state.allowances.contains_key(DataKey::Allowance(owner, spender, token_id)),
    ensures
        state.transfer_from(spender, token_id, owner, to, amount) is Err,
{
}

/// The entry of an allowance is kept alive until the ledger at which the
/// allowance expires, so it never lapses before.
pub proof fn lemma_entry_outlives_the_allowance(
    state: WrapperView,
    owner: Address,
    spender: Address,
    token_id: Address,
    amount: i128,
    expiry_ledger: u32,
)
    ensures
        state.approve(owner, spender, token_id, amount, expiry_ledger) matches Ok(next) ==> {
            let request = next.ttl_extensions.last();
            &&& next.ttl_extensions.len() == state.ttl_extensions.len() + 1
            &&& request.key == DataKey::Allowance(owner, spender, token_id)
            &&& request.threshold == request.extend_to
            &&& state.sequence + request.extend_to == expiry_ledger
        },
        state.debit(spender, token_id, owner, amount) matches Ok(next) ==> {
            let request = next.ttl_extensions.last();
            &&& next.ttl_extensions.len() == state.ttl_extensions.len() + 1
            &&& request.key == DataKey::Allowance(owner, spender, token_id)
            &&& request.threshold == request.extend_to
            &&& state.sequence + request.extend_to == state.allowance(
                owner,
                spender,
                token_id,
            ).expiry_ledger
        },
{
}

/// An operation that can change the token wrapper, with its arguments.
pub enum WrapperOperation {
    Approve {
        owner: Address,
        spender: Address,
        token_id: Address,
        amount: i128,
        expiry_ledger: u32,
    },
    TransferFrom { spender: Address, token_id: Address, from: Address, to: Address, amount: i128 },
}

impl WrapperOperation {
    /// A grant of an allowance by an owner to a spender for a token.
    pub open spec fn is_grant(self, owner: Address, spender: Address, token_id: Address) -> bool {
        self matches WrapperOperation::Approve { owner: o, spender: s, token_id: t, .. } && o
            == owner && s == spender && t == token_id
    }

    /// What an operation moves out of the allowance of an owner to a spender for
    /// a token.
    pub open spec fn moves(self, owner: Address, spender: Address, token_id: Address) -> int {
        match self {
            WrapperOperation::TransferFrom { spender: s, token_id: t, from, amount, .. } => if from
                == owner && s == spender && t == token_id {
                amount as int
            } else {
                0
            },
            _ => 0,
        }
    }
}

/// A call in the history of a token wrapper: the ledger that ran it, who had
/// authorized it, and the operation.
pub struct WrapperCall {
    pub sequence: u32,
    pub signers: Seq<Address>,
    pub operation: WrapperOperation,
}

impl WrapperView {
    /// What an operation makes of the state.
    pub open spec fn step(self, operation: WrapperOperation) -> Result<WrapperView, WrapperError> {
        match operation {
            WrapperOperation::Approve { owner, spender, token_id, amount, expiry_ledger } =>
                self.approve(owner, spender, token_id, amount, expiry_ledger),
            WrapperOperation::TransferFrom { spender, token_id, from, to, amount } =>
                self.transfer_from(spender, token_id, from, to, amount),
        }
    }

    /// What a call makes of the state.
    pub open spec fn called(self, call: WrapperCall) -> Result<WrapperView, WrapperError> {
        self.at(call.sequence, call.signers).step(call.operation)
    }

    /// The state after a history of calls. A refused call leaves it as it was.
    pub open spec fn after_all(self, history: Seq<WrapperCall>) -> WrapperView
        decreases history.len(),
    {
        if history.len() == 0 {
            self
        } else {
            let before = self.after_all(history.drop_last());
            let call = history.last();
            match before.called(call) {
                Ok(next) => next,
                Err(_) => before.at(call.sequence, call.signers),
            }
        }
    }

    /// No call of a history grants an owner's allowance anew.
    pub open spec fn no_grant_in(
        self,
        history: Seq<WrapperCall>,
        owner: Address,
        spender: Address,
        token_id: Address,
    ) -> bool
        decreases history.len(),
    {
        history.len() == 0 || {
            let call = history.last();
            &&& self.no_grant_in(history.drop_last(), owner, spender, token_id)
            &&& call.operation.is_grant(owner, spender, token_id) ==> self.after_all(
                history.drop_last(),
            ).called(call) is Err
        }
    }

    /// All that the calls of a history move out of an owner's allowance. A
    /// refused call moves nothing.
    pub open spec fn moved_in(
        self,
        history: Seq<WrapperCall>,
        owner: Address,
        spender: Address,
        token_id: Address,
    ) -> int
        decreases history.len(),
    {
        if history.len() == 0 {
            0
        } else {
            let front = history.drop_last();
            let call = history.last();
            self.moved_in(front, owner, spender, token_id) + match self.after_all(front).called(
                call,
            ) {
                Ok(_) => call.operation.moves(owner, spender, token_id),
                Err(_) => 0,
            }
        }
    }
}

/// Whatever calls are made on a token wrapper, no allowance is ever negative.
pub proof fn lemma_reached_states_are_sound(state: WrapperView, history: Seq<WrapperCall>)
    requires
        state.sound(),
    ensures
        state.after_all(history).sound(),
    decreases history.len(),
{
    if history.len() > 0 {
        lemma_reached_states_are_sound(state, history.drop_last());
    }
}

/// Until an allowance is granted anew, all that its spender moves comes off it,
/// and no more moves than it covered, whatever calls are made, by whom and at
/// which ledgers. Its expiry stays.
///
/// A transfer that the token contract did not carry out leaves no trace, and is
/// no call of the history.
pub proof fn lemma_transfers_stay_within_the_grant(
    state: WrapperView,
    history: Seq<WrapperCall>,
    owner: Address,
    spender: Address,
    token_id: Address,
)
    requires
        state.sound(),
        state.no_grant_in(history, owner, spender, token_id),
    ensures
        ({
            let granted = state.allowance(owner, spender, token_id);
            let left = state.after_all(history).allowance(owner, spender, token_id);
            let moved = state.moved_in(history, owner, spender, token_id);
            &&& left.amount == granted.amount - moved
            &&& left.expiry_ledger == granted.expiry_ledger
            &&& 0 <= moved <= granted.amount
        }),
    decreases history.len(),
{
    lemma_reached_states_are_sound(state, history);
    if history.len() > 0 {
        lemma_transfers_stay_within_the_grant(
            state,
            history.drop_last(),
            owner,
            spender,
            token_id,
        );
    }
}

} // verus!
