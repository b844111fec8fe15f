//! Failures of the standard-library kind that several contracts share: checked
//! arithmetic that left its range and malformed outside data.
use vstd::prelude::*;

verus! {

#[derive(Clone, Copy, Debug, PartialEq, Eq, Structural)]
pub enum StdFault {
    /// A checked addition, subtraction or multiplication left its range.
    Overflow,
    /// A ratio with a zero denominator.
    DivideByZero,
    /// A deviation was asked against an empty (zero) reference.
    EmptyReference,
    /// The pair's cumulative-price history is empty or not increasing.
    EmptyTwapHistory,
    /// The averaged price rounds to zero.
    EmptyTwapPrice,
    /// The pair's code id differs from the pinned one.
    PairCodeMismatch,
    /// A stored record was not found.
    NotFound,
    /// A version text that is not a semantic version.
    InvalidVersion,
    /// The stored contract name is another contract's.
    WrongContract,
    /// The stored version is newer than the code being migrated to.
    NewerVersion,
    /// A read of another contract failed.
    QueryFailed,
    /// A message sent to another contract failed, with no fallback.
    SubmessageFailed,
}

} // verus!
