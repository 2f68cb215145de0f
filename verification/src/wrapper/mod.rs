//! The token wrapper contract: transfers out of an owner's balance, gated by an
//! allowance that the owner has granted to the spender for one token.

pub mod allowances;
pub mod calls;
pub mod env;
pub mod laws;
pub mod model;
pub mod types;

use vstd::prelude::*;

use crate::wrapper::model::WrapperView;
use crate::wrapper::types::WrapperError;

verus! {

/// The token wrapper contract. Its operations take the environment of the call.
pub struct TokenWrapper;

/// A call did what its operation says: it succeeded with the operation's new
/// state, or was refused with its error and changed nothing.
pub open spec fn follows<T>(
    step: Result<WrapperView, WrapperError>,
    before: WrapperView,
    result: Result<T, WrapperError>,
    after: WrapperView,
) -> bool {
    match step {
        Ok(next) => result is Ok && after == next,
        Err(e) => result == Err::<T, WrapperError>(e) && after == before,
    }
}

} // verus!
