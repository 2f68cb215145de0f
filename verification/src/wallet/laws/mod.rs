//! What holds of the wallet as a whole.

pub mod admin;
pub mod assets;
pub mod calls;
pub mod effects;
pub mod history;
pub mod migration;
pub mod operation;
pub mod payments;
pub mod recovery;
pub mod soundness;
pub mod spending;
