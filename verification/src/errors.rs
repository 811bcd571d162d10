//! Typed failures of the update operations.
//!
//! All failures are local, synchronous and recoverable by the caller; no
//! operation partially mutates state on failure.

use vstd::prelude::*;

verus! {

/// Why an update operation was rejected.
#[derive(Clone, Copy, Debug, PartialEq, Eq, Structural)]
pub enum ValidatorHistoryError {
    /// A stake update targets an epoch older than any retained record; the
    /// data has scrolled out of the fixed window and cannot be recovered.
    EpochOutOfRange,
    /// A cumulative-credit pair implies a negative delta; the input batch is
    /// corrupt.
    InvalidEpochCredits,
    /// The supplied network address is not IPv4.
    UnsupportedAddressFormat,
    /// The supplied timestamp is older than the relevant watermark; expected
    /// under out-of-order delivery, the update is discarded.
    StaleUpdate,
}

impl ValidatorHistoryError {
    /// A short description of the failure.
    pub fn describe(&self) -> (s: &'static str)
        ensures
            s@ =~= match self {
                ValidatorHistoryError::EpochOutOfRange => "epoch out of range"@,
                ValidatorHistoryError::InvalidEpochCredits => "invalid epoch credits"@,
                ValidatorHistoryError::UnsupportedAddressFormat => "unsupported address format"@,
                ValidatorHistoryError::StaleUpdate => "stale update"@,
            },
    {
        match self {
            ValidatorHistoryError::EpochOutOfRange => "epoch out of range",
            ValidatorHistoryError::InvalidEpochCredits => "invalid epoch credits",
            ValidatorHistoryError::UnsupportedAddressFormat => "unsupported address format",
            ValidatorHistoryError::StaleUpdate => "stale update",
        }
    }
}

} // verus!
