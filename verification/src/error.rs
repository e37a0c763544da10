use vstd::prelude::*;

verus! {

/// The two recoverable outcomes of a failed transfer.  Both are ordinary
/// user-visible results, not defects: no state is mutated when either is
/// returned.
#[derive(Clone, Copy, Debug, PartialEq, Eq, Structural)]
pub enum Error {
    /// The sender's balance for the token is less than the requested amount.
    InsufficientBalance,
    /// The recipient's balance would exceed the maximum representable value.
    Overflow,
}

} // verus!
