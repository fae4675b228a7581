//! Accounting core of a fungible-token ledger: account balances, a
//! delegated-spending (allowance) table, and the operations that move value
//! between accounts while conserving the total supply.
//!
//! Every mutating operation is all-or-nothing: it validates its preconditions
//! first and either applies all of its writes or returns a [`TokenError`]
//! having written nothing. The well-formedness predicate of [`ERC20`] carries
//! the conservation invariant: the sum of all balances equals the recorded
//! total supply, and only `mint` and `burn` may change that supply.

mod account;
mod allowances;
mod balances;
mod errors;
mod laws;
mod ledger;

pub use account::AccountId;
pub use errors::TokenError;
pub use laws::conserving_step;
pub use laws::lemma_allowance_decrement;
pub use laws::lemma_approve_overwrite;
pub use laws::lemma_conservation_over_trace;
pub use laws::lemma_step_conserves_supply;
pub use ledger::allowances_unchanged;
pub use ledger::approve_applied;
pub use ledger::balances_shifted;
pub use ledger::balances_unchanged;
pub use ledger::burn_applied;
pub use ledger::mint_applied;
pub use ledger::same_metadata;
pub use ledger::transfer_applied;
pub use ledger::transfer_from_applied;
pub use ledger::StorageKey;
pub use ledger::ERC20;
