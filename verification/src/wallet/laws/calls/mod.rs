//! What each call on the wallet gives and changes, in terms of what it is given
//! and of the entries that the wallet keeps.

pub mod admin;
pub mod assets;
pub mod migration;
pub mod names;
pub mod payments;
pub mod recovery;
pub mod spending;
pub mod terms;
