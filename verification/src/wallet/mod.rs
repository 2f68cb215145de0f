//! The wallet contract: an admin with guardian recovery, per-user asset lists,
//! daily spend limits, and payments through a token wrapper.

pub mod admin;
pub mod assets;
pub mod env;
pub mod error;
pub mod guardians;
pub mod laws;
pub mod migration;
pub mod model;
pub mod payments;
pub mod recovery;
pub mod spending;
pub mod types;

use vstd::prelude::*;

use crate::asset::MAX_CODE_LEN;
use crate::wallet::error::WalletError;
use crate::wallet::model::{WalletView, LEDGERS_PER_DAY};

verus! {

/// The wallet contract. Its operations take the environment of the call.
pub struct GlobeWallet;

impl GlobeWallet {
    /// Fewest guardians with which recovery can be configured.
    pub const MIN_GUARDIANS_FOR_RECOVERY: u32 = 3;

    /// Most guardians that a wallet can have.
    pub const MAX_GUARDIANS: u32 = 15;

    /// Shortest delay of an upgrade, in ledgers: three days.
    pub const MIN_UPGRADE_DELAY_LEDGERS: u32 = LEDGERS_PER_DAY * 3;

    /// Shortest delay of a recovery, in ledgers: one day.
    pub const MIN_RECOVERY_DELAY_LEDGERS: u32 = LEDGERS_PER_DAY;

    /// Most assets that a user can register.
    pub const MAX_ASSETS: u32 = 50;

    /// Longest asset code, in bytes.
    pub const MAX_ASSET_CODE_LEN: u32 = MAX_CODE_LEN;
}

/// A call did what its operation says: it succeeded with the operation's new
/// state, or was refused with its error and changed nothing.
pub open spec fn follows<T>(
    step: Result<WalletView, WalletError>,
    before: WalletView,
    result: Result<T, WalletError>,
    after: WalletView,
) -> bool {
    match step {
        Ok(next) => result is Ok && after == next,
        Err(e) => result == Err::<T, WalletError>(e) && after == before,
    }
}

} // verus!
