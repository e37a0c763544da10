//! Accounting core of a multi-token ledger.
//!
//! For every (token identifier, owner) pair the ledger tracks a non-negative
//! 256-bit balance, addressed in a keyed store through a deterministic,
//! length-bounded key derivation.  Single and batch transfers are atomic:
//! both arithmetic checks pass before any write, so a failed transfer leaves
//! every balance exactly as it was.

pub mod address;
pub mod balance;
pub mod error;
pub mod keys;
pub mod ledger;
