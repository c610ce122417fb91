use vstd::prelude::*;

verus! {

/// Failures that a pool operation reports to its caller. Every one of them
/// ends the operation with no state changed.
#[derive(Clone, Copy, Debug, PartialEq, Eq, Structural)]
pub enum Error {
    AlreadyInitialized,
    NotInitialized,
    NotOwner,
    /// Reserved for a lock-up period; no operation returns it.
    WithdrawalBeforeLockup,
    InvalidAmount,
    NotEnoughFunds,
    ThereIsNoRewardToClaim,
}

} // verus!
