//! The messages that carry no amounts.

use vstd::prelude::*;

verus! {

/// The message of a migration, which takes no arguments.
#[derive(Clone, Copy, Debug, PartialEq, Eq, Structural)]
pub struct MigrateMsg {}

/// What a pair tells itself to do once another step has run.
#[derive(Clone, Copy, Debug, PartialEq, Eq, Structural)]
pub enum CallbackMsg {
    UpdateStateOnLiquidityAdditionToPool {},
}

} // verus!
