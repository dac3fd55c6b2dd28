use vstd::prelude::*;

verus! {

/// The ways a call into the savings-goal contract can be refused.
#[derive(Copy, Clone, Debug, PartialEq, Eq, Structural, PartialOrd, Ord)]
pub enum Error {
    GoalNotFound,
    NotUnlocked,
    AlreadyWithdrawn,
    Unauthorized,
    InvalidAmount,
    InvalidDeadline,
    ArithmeticOverflow,
    InvalidToken,
}

/// The numeric code under which each error is reported on chain.
pub open spec fn spec_error_code(e: Error) -> u32 {
    match e {
        Error::GoalNotFound => 1,
        Error::NotUnlocked => 2,
        Error::AlreadyWithdrawn => 3,
        Error::Unauthorized => 4,
        Error::InvalidAmount => 5,
        Error::InvalidDeadline => 6,
        Error::ArithmeticOverflow => 7,
        Error::InvalidToken => 8,
    }
}

/// No two errors share a code, so a code names its error.
pub proof fn error_codes_are_distinct(a: Error, b: Error)
    ensures
        spec_error_code(a) == spec_error_code(b) ==> a == b,
        1 <= spec_error_code(a) <= 8,
{
}

impl Error {
    /// The contract error code of this error.
    pub fn code(&self) -> (c: u32)
        ensures
            c == spec_error_code(*self),
    {
        match self {
            Error::GoalNotFound => 1,
            Error::NotUnlocked => 2,
            Error::AlreadyWithdrawn => 3,
            Error::Unauthorized => 4,
            Error::InvalidAmount => 5,
            Error::InvalidDeadline => 6,
            Error::ArithmeticOverflow => 7,
            Error::InvalidToken => 8,
        }
    }
}

} // verus!
