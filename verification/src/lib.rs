//! A verified loyalty-token ledger.
//!
//! Businesses register with reward parameters, customers earn tokens on
//! purchases and burn them for discounts, and every successful mutation is
//! mirrored by an immutable entry in an append-only transaction log.  The
//! central invariant, proved here, is conservation: for every customer and
//! business, the balance held in the token ledger equals the net of all
//! earn and redeem records in the log, and that net never dips below zero
//! at any point of the history.

pub mod balances;
pub mod errors;
pub mod registry;
pub mod system;
pub mod txlog;
