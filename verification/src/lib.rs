//! A smart wallet and its token wrapper, as two ledger contracts.
//!
//! The wallet has an admin whose role guardians can recover, a list of assets
//! for each user, daily spend limits, and payments. The token wrapper moves
//! tokens by allowances. Each contract has a model, which says what every
//! operation does to its state, operations that are proved to do just that, and
//! laws that are proved of the model and of the calls themselves.

pub mod address;
pub mod asset;
pub mod host;
mod lists;
pub mod table;
pub mod wallet;
pub mod wrapper;
