use vstd::prelude::*;

verus! {

/// Why a ledger operation aborted.
///
/// Every variant reports a precondition violated before any state was
/// written: an aborted operation leaves the ledger exactly as it found it.
#[derive(Clone, Copy, Debug, PartialEq, Eq, Structural)]
pub enum TokenError {
    /// The debited account holds less than the requested amount.
    InsufficientBalance,
    /// The spender's remaining allowance from the owner is less than the
    /// requested amount.
    InsufficientAllowance,
    /// The addition would exceed the amount type's range.
    Overflow,
    /// A burn of zero tokens was requested.
    ZeroAmount,
}

} // verus!
