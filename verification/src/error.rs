//! What can go wrong while random bytes are fetched through the state pool.

use vstd::prelude::*;

verus! {

/// The errors of the state pool and of the fill operations.
#[derive(Debug, Clone, Copy, PartialEq, Eq, Structural)]
pub enum Error {
    /// The lock around the pool's page blocks was found poisoned.
    PoolPoisoned,
    /// The platform does not offer the kernel's fast-path function.
    NotSupported,
    /// No memory could be mapped for a new block of states.
    AllocationFailure,
    /// The kernel's function failed; the value is the positive error number.
    Errno(i32),
}

/// The decimal digit for `value`, which is below ten.
pub open spec fn digit(value: nat) -> char {
    seq!['0', '1', '2', '3', '4', '5', '6', '7', '8', '9'][value as int]
}

/// The decimal digits of `value`, the highest first and without leading
/// zeros.
pub open spec fn digits(value: nat) -> Seq<char>
    decreases value,
{
    if value < 10 {
        seq![digit(value)]
    } else {
        digits(value / 10).push(digit(value % 10))
    }
}

/// The decimal text of `code`: its digits, behind a minus sign where it is
/// negative.
pub open spec fn decimal(code: i32) -> Seq<char> {
    if code < 0 {
        seq!['-'] + digits((-(code as int)) as nat)
    } else {
        digits(code as nat)
    }
}

/// `format!` with one `{}` for an `i32` behind a fixed text: the result is
/// that text followed by what `Display` writes for the number, which is its
/// decimal text.
#[verifier::external_body]
fn errno_text(code: i32) -> (text: String)
    ensures
        text@ == "System call failed with error code: "@ + decimal(code),
{
    format!("System call failed with error code: {}", code)
}

impl Error {
    /// The text shown for this error.
    pub fn to_string(&self) -> (text: String)
        ensures
            text@ == match *self {
                Error::NotSupported => "Operation not supported on this platform"@,
                Error::AllocationFailure => "Failed to allocate memory"@,
                Error::Errno(code) => "System call failed with error code: "@ + decimal(code),
                Error::PoolPoisoned => "Memory pool has been poisoned"@,
            },
    {
        match *self {
            Error::NotSupported => "Operation not supported on this platform".to_owned(),
            Error::AllocationFailure => "Failed to allocate memory".to_owned(),
            Error::Errno(code) => errno_text(code),
            Error::PoolPoisoned => "Memory pool has been poisoned".to_owned(),
        }
    }
}

} // verus!
