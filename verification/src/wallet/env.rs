//! The state that a wallet call reads and changes.

use vstd::prelude::*;

use crate::address::{Address, WasmHash};
use crate::asset::{AssetInfo, AssetList};
use crate::host::{AddressIndex, AddressList};
use crate::table::Table;
use crate::wallet::model::{WalletView, PERSISTENT_TTL_EXTEND_TO, PERSISTENT_TTL_THRESHOLD};
use crate::wallet::types::{
    DataKey, Event, LedgerEntry, RecoveryConfig, RecoveryProposal, SpendRecord, TtlExtension,
    UpgradeProposal,
};

verus! {

/// The environment of a wallet call: the ledger that runs it, who has
/// authorized it, the entries that the wallet keeps, and what the call asks
/// the ledger to do.
pub struct WalletEnv {
    /// The host that holds the lists of addresses.
    pub host: soroban_sdk::Env,
    /// The address of the wallet contract itself.
    pub contract: Address,
    /// The sequence number of the ledger that runs the call.
    pub sequence: u32,
    /// The closing time of that ledger, in seconds since the epoch.
    pub timestamp: u64,
    /// The addresses that have authorized the call.
    pub signers: Vec<Address>,
    pub admin: Option<Address>,
    /// The candidate that each admin has proposed.
    pub pending_admins: Table<Address, Address>,
    pub pending_upgrade: Option<UpgradeProposal>,
    /// The guardians, in the order in which they were added.
    pub guardians: AddressList,
    /// The guardians by address. A wallet from before the index has none.
    pub guardian_index: Option<AddressIndex>,
    pub recovery_config: Option<RecoveryConfig>,
    pub recovery_proposal: Option<RecoveryProposal>,
    pub token_wrapper: Option<Address>,
    pub user_assets: Table<Address, AssetList>,
    pub spend_limits: Table<(Address, AssetInfo), i128>,
    pub daily_spent: Table<(Address, AssetInfo), SpendRecord>,
    /// Limits from before they were kept by issuer.
    pub legacy_spend_limits: Table<(Address, Vec<u8>), i128>,
    /// Spend records from before they were kept by issuer.
    pub legacy_daily_spent: Table<(Address, Vec<u8>), SpendRecord>,
    pub allowed_tokens: Table<Address, ()>,
    /// The code to put in place of the wallet's own, if the call asks for it.
    pub code_update: Option<WasmHash>,
    /// The entries to keep alive.
    pub ttl_extensions: Vec<TtlExtension>,
    /// The events to publish.
    pub events: Vec<Event>,
}

/// The events of a list, as contracts speak of them.
pub open spec fn event_views(events: Seq<Event>) -> Seq<Event<Seq<u8>, Seq<Address>>> {
    events.map_values(|e: Event| e@)
}

/// The requests of a list, as contracts speak of them.
pub open spec fn ttl_views(requests: Seq<TtlExtension>) -> Seq<TtlExtension<Seq<u8>>> {
    requests.map_values(|t: TtlExtension| t@)
}

impl View for WalletEnv {
    type V = WalletView;

    open spec fn view(&self) -> WalletView {
        WalletView {
            contract: self.contract,
            sequence: self.sequence,
            timestamp: self.timestamp,
            signers: self.signers@,
            admin: self.admin,
            pending_admins: self.pending_admins@,
            pending_upgrade: self.pending_upgrade,
            guardians: self.guardians@,
            guardian_index: match self.guardian_index {
                Some(index) => Some(index@),
                None => None,
            },
            recovery_config: self.recovery_config,
            recovery_proposal: match self.recovery_proposal {
                Some(proposal) => Some(proposal@),
                None => None,
            },
            token_wrapper: self.token_wrapper,
            user_assets: self.user_assets@,
            spend_limits: self.spend_limits@,
            daily_spent: self.daily_spent@,
            legacy_spend_limits: self.legacy_spend_limits@,
            legacy_daily_spent: self.legacy_daily_spent@,
            allowed_tokens: self.allowed_tokens@,
            code_update: self.code_update,
            ttl_extensions: ttl_views(self.ttl_extensions@),
            events: event_views(self.events@),
        }
    }
}

impl WalletView {
    /// A wallet that nothing has been done with, at ledger 0 and time 0.
    pub open spec fn fresh(contract: Address) -> WalletView {
        WalletView {
            contract,
            sequence: 0,
            timestamp: 0,
            signers: Seq::empty(),
            admin: None,
            pending_admins: Map::empty(),
            pending_upgrade: None,
            guardians: Seq::empty(),
            guardian_index: None,
            recovery_config: None,
            recovery_proposal: None,
            token_wrapper: None,
            user_assets: Map::empty(),
            spend_limits: Map::empty(),
            daily_spent: Map::empty(),
            legacy_spend_limits: Map::empty(),
            legacy_daily_spent: Map::empty(),
            allowed_tokens: Map::empty(),
            code_update: None,
            ttl_extensions: Seq::empty(),
            events: Seq::empty(),
        }
    }
}

impl WalletEnv {
    /// The environment of a wallet that nothing has been done with.
    pub fn new(host: soroban_sdk::Env, contract: Address) -> (r: Self)
        ensures
            r@ == WalletView::fresh(contract),
    {
        let guardians = AddressList::new(&host);
        let r = WalletEnv {
            host,
            contract,
            sequence: 0,
            timestamp: 0,
            signers: Vec::new(),
            admin: None,
            pending_admins: Table::new(),
            pending_upgrade: None,
            guardians,
            guardian_index: None,
            recovery_config: None,
            recovery_proposal: None,
            token_wrapper: None,
            user_assets: Table::new(),
            spend_limits: Table::new(),
            daily_spent: Table::new(),
            legacy_spend_limits: Table::new(),
            legacy_daily_spent: Table::new(),
            allowed_tokens: Table::new(),
            code_update: None,
            ttl_extensions: Vec::new(),
            events: Vec::new(),
        };
        assert(r@ =~= WalletView::fresh(contract));
        r
    }

    /// Publishes an event.
    pub(crate) fn emit(&mut self, event: Event)
        ensures
            final(self)@ == old(self)@.emit(event@),
    {
        let ghost before = self.events@;
        self.events.push(event);
        assert(event_views(self.events@) =~= event_views(before).push(event@));
    }

    /// Asks for a persistent entry to be kept alive.
    pub(crate) fn extend_ttl(&mut self, key: DataKey, threshold: u32, extend_to: u32)
        ensures
            final(self)@ == old(self)@.extend_ttl(key@, threshold, extend_to),
    {
        let ghost before = self.ttl_extensions@;
        let request = TtlExtension { entry: LedgerEntry::Persistent(key), threshold, extend_to };
        self.ttl_extensions.push(request);
        assert(ttl_views(self.ttl_extensions@) =~= ttl_views(before).push(request@));
    }

    /// Asks for the wallet's own entry to be kept alive. Every call that
    /// changes the wallet does so.
    pub(crate) fn bump_instance_ttl(&mut self)
        ensures
            final(self)@ == old(self)@.bump_instance_ttl(),
    {
        let ghost before = self.ttl_extensions@;
        let request = TtlExtension {
            entry: LedgerEntry::Instance,
            threshold: PERSISTENT_TTL_THRESHOLD,
            extend_to: PERSISTENT_TTL_EXTEND_TO,
        };
        self.ttl_extensions.push(request);
        assert(ttl_views(self.ttl_extensions@) =~= ttl_views(before).push(request@));
    }
}

} // verus!
