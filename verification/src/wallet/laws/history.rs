//! Histories of calls on a wallet.

use vstd::prelude::*;

use crate::address::Address;
use crate::wallet::laws::operation::Operation;
use crate::wallet::model::WalletView;

verus! {

/// A call in the history of a wallet: the ledger that ran it, who had authorized
/// it, and the operation.
pub struct Call {
    pub sequence: u32,
    pub timestamp: u64,
    pub signers: Seq<Address>,
    pub operation: Operation,
}

impl WalletView {
    /// The state in which a call finds the wallet.
    pub open spec fn met_by(self, call: Call) -> WalletView {
        self.at(call.sequence, call.timestamp, call.signers)
    }

    /// The call succeeds.
    pub open spec fn grants(self, call: Call) -> bool {
        self.met_by(call).step(call.operation) is Ok
    }

    /// The state after a call. A refused call leaves it as it was.
    pub open spec fn after(self, call: Call) -> WalletView {
        match self.met_by(call).step(call.operation) {
            Ok(next) => next,
            Err(_) => self.met_by(call),
        }
    }

    /// The state after a history of calls.
    pub open spec fn after_all(self, history: Seq<Call>) -> WalletView
        decreases history.len(),
    {
        if history.len() == 0 {
            self
        } else {
            self.after_all(history.drop_last()).after(history.last())
        }
    }

    /// Every call of a history, with the state before it, is as a predicate says.
    pub open spec fn each_call(
        self,
        history: Seq<Call>,
        p: spec_fn(WalletView, Call) -> bool,
    ) -> bool
        decreases history.len(),
    {
        history.len() == 0 || (self.each_call(history.drop_last(), p) && p(
            self.after_all(history.drop_last()),
            history.last(),
        ))
    }

    /// No operation of a kind succeeds in a history.
    pub open spec fn none_succeeds(
        self,
        history: Seq<Call>,
        kind: spec_fn(Operation) -> bool,
    ) -> bool {
        self.each_call(history, refused(kind))
    }
}

/// The calls that succeed are not of a kind.
pub open spec fn refused(kind: spec_fn(Operation) -> bool) -> spec_fn(WalletView, Call) -> bool {
    |state: WalletView, call: Call| kind(call.operation) ==> !state.grants(call)
}

/// The calls of a history are in the order of time, none before a given time.
pub open spec fn in_order(history: Seq<Call>, start: u64) -> bool {
    &&& forall|i: int| 0 <= i < history.len() ==> start <= (#[trigger] history[i]).timestamp
    &&& forall|i: int, j: int|
        0 <= i <= j < history.len() ==> (#[trigger] history[i]).timestamp <= (
        #[trigger] history[j]).timestamp
}

/// A history without its last call is in order as well.
pub proof fn lemma_front_in_order(history: Seq<Call>, start: u64)
    requires
        in_order(history, start),
        history.len() > 0,
    ensures
        in_order(history.drop_last(), start),
        history.last().timestamp >= (if history.len() == 1 {
            start
        } else {
            history.drop_last().last().timestamp
        }),
{
    let front = history.drop_last();
    assert forall|i: int| 0 <= i < front.len() implies start <= (#[trigger] front[i]).timestamp by {
        assert(front[i] == history[i]);
    }
    assert forall|i: int, j: int| 0 <= i <= j < front.len() implies (#[trigger] front[i]).timestamp
        <= (#[trigger] front[j]).timestamp by {
        assert(front[i] == history[i] && front[j] == history[j]);
    }
    assert(history[history.len() - 1] == history.last());
    if history.len() > 1 {
        assert(history[history.len() - 2] == front.last());
    }
}

/// What holds at first, and is kept by every call of the kind that a history is
/// made of, holds after the history.
pub proof fn lemma_kept_by_calls(
    state: WalletView,
    history: Seq<Call>,
    calls: spec_fn(WalletView, Call) -> bool,
    kept: spec_fn(WalletView) -> bool,
)
    requires
        kept(state),
        state.each_call(history, calls),
        forall|s: WalletView, c: Call|
            kept(s) && calls(s, c) ==> kept(#[trigger] s.after(c)),
    ensures
        kept(state.after_all(history)),
    decreases history.len(),
{
    if history.len() > 0 {
        lemma_kept_by_calls(state, history.drop_last(), calls, kept);
    }
}

} // verus!
