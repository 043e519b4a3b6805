use vstd::prelude::*;

verus! {

/// The failures an operation of the ledger can end in.
#[derive(Clone, Copy, Debug, PartialEq, Eq, Structural)]
pub enum LumiFiError {
    /// The caller cannot prove control of the required account.
    Unauthorized,
    /// A withdrawal or swap would exceed the available balance or reserve.
    InsufficientFunds,
    /// A contribution came after the sale's deadline.
    ICOExpired,
    /// Reserved for a duplicate token creation; no operation raises it.
    AlreadyInitialized,
    /// A quantity is non-positive where positivity is required.
    InvalidAmount,
    /// No token (or pool) is recorded under the given key.
    TokenNotFound,
    /// No sale is recorded under the given identifier.
    ICONotFound,
}

} // verus!
