//! The failures that queries and updates report.

use vstd::prelude::*;

verus! {

/// Why an operation produced no result.
#[derive(Clone, Copy, Debug, PartialEq, Eq, Structural)]
pub enum Error {
    /// The requested bid, bid pool, collateral or configuration record does
    /// not exist.
    NotFound,
    /// A subtraction went below zero, a division had a zero divisor, or a
    /// fixed-point result did not fit in 256 bits.
    ArithmeticDomain,
    /// A change was attempted by someone other than the owner.
    Unauthorized,
    /// The request itself is malformed.
    InvalidInput,
}

} // verus!
