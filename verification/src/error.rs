//! The errors of a futex call and the status numbers that report them.

use vstd::prelude::*;
use crate::flags::{EACCES, EAGAIN, EINVAL, ENOSYS};

verus! {

/// Why a call did not succeed.
#[derive(Clone, Copy, PartialEq, Eq, Debug, Structural)]
pub enum FutexError {
    /// An address of the caller does not translate.
    AddressError,
    /// The futex word did not hold the value the caller expected.
    ValueMismatch,
    /// A zero bitset on a wait, or an unknown wake-op code.
    InvalidArgument,
    /// An unknown operation, an operation on a shared key, or a call from
    /// outside any task.
    Unsupported,
    /// The descriptor operation, which is retired; it reports "try again".
    Disabled,
}

impl FutexError {
    /// The status number that reports this error.
    pub open spec fn status(self) -> int {
        match self {
            FutexError::AddressError => -13,
            FutexError::ValueMismatch => -11,
            FutexError::InvalidArgument => -22,
            FutexError::Unsupported => -38,
            FutexError::Disabled => -11,
        }
    }

    /// The status number that reports this error.
    pub fn code(self) -> (status: i32)
        ensures
            status == self.status(),
    {
        match self {
            FutexError::AddressError => -EACCES,
            FutexError::ValueMismatch => -EAGAIN,
            FutexError::InvalidArgument => -EINVAL,
            FutexError::Unsupported => -ENOSYS,
            FutexError::Disabled => -EAGAIN,
        }
    }
}

/// The status a call reports: zero for success, a negative number for an error.
pub open spec fn status_of(outcome: Result<(), FutexError>) -> int {
    match outcome {
        Ok(_) => 0,
        Err(e) => e.status(),
    }
}

/// The status a call reports: zero for success, a negative number for an error.
pub fn status_code(outcome: Result<(), FutexError>) -> (status: i32)
    ensures
        status == status_of(outcome),
{
    match outcome {
        Ok(_) => 0,
        Err(e) => e.code(),
    }
}

} // verus!
