//! The state that a token wrapper call reads and changes.

use vstd::prelude::*;

use crate::address::Address;
use crate::table::Table;
use crate::wrapper::model::WrapperView;
use crate::wrapper::types::{Allowance, AllowanceExtension, DataKey, WrapperEvent};

verus! {

/// The environment of a token wrapper call: the ledger that runs it, who has
/// authorized it, the allowances, and what the call asks the ledger to do.
#[derive(Debug)]
pub struct WrapperEnv {
    /// The sequence number of the ledger that runs the call.
    pub sequence: u32,
    /// The addresses that have authorized the call.
    pub signers: Vec<Address>,
    pub allowances: Table<DataKey, Allowance>,
    /// The entries to keep alive.
    pub ttl_extensions: Vec<AllowanceExtension>,
    /// The events to publish.
    pub events: Vec<WrapperEvent>,
}

impl View for WrapperEnv {
    type V = WrapperView;

    open spec fn view(&self) -> WrapperView {
        WrapperView {
            sequence: self.sequence,
            signers: self.signers@,
            allowances: self.allowances@,
            ttl_extensions: self.ttl_extensions@,
            events: self.events@,
        }
    }
}

impl WrapperEnv {
    /// The environment of a token wrapper that nothing has been done with.
    pub fn new() -> (r: Self)
        ensures
            r@ == WrapperView::fresh(),
    {
        WrapperEnv {
            sequence: 0,
            signers: Vec::new(),
            allowances: Table::new(),
            ttl_extensions: Vec::new(),
            events: Vec::new(),
        }
    }

    /// Sets an allowance. The entry must not lapse before the allowance does,
    /// so it is kept alive until then.
    pub(crate) fn set_allowance(&mut self, key: DataKey, allowance: Allowance)
        ensures
            final(self)@ == old(self)@.with_allowance(key, allowance),
    {
        let ledgers: u32 = allowance.expiry_ledger.saturating_sub(self.sequence);
        self.allowances.set(key, allowance);
        self.ttl_extensions.push(
            AllowanceExtension { key, threshold: ledgers, extend_to: ledgers },
        );
    }
}

} // verus!
