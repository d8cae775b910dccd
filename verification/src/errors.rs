use vstd::prelude::*;

verus! {

/// The error taxonomy of the ledger.  Every failing operation reports one of
/// these kinds and leaves no partial side effect behind: validation happens
/// before any mutation begins.
#[derive(Clone, Copy, Debug, PartialEq, Eq, Structural)]
pub enum LedgerError {
    /// Malformed or out-of-range input: an empty name, a zero rate, a zero
    /// or over-cap discount percentage, or a reference to an unknown
    /// business.
    InvalidParameter,
    /// The caller is not the controlling owner of the business.
    Unauthorized,
    /// The owner already controls a business.
    AlreadyRegistered,
    /// The target business has been deactivated.
    BusinessInactive,
    /// A burn asks for more tokens than the balance holds.
    InsufficientBalance,
    /// An amount computation would overflow the token type.
    ArithmeticOverflow,
}

} // verus!
