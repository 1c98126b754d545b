use vstd::prelude::*;

verus! {

/// Why the pool refused a request.
#[derive(Copy, Clone, Debug, PartialEq, Eq, PartialOrd, Ord, Structural)]
pub enum Error {
    AlreadyInitialized,
    NotInitialized,
    OwnerNotSet,
    IdenticalTokens,
    InvalidFee,
    InvalidAmount,
    SlippageExceeded,
    InsufficientLiquidity,
    InsufficientLpBalance,
    ArithmeticOverflow,
    ZeroLiquidity,
}

/// The number under which the contract reports `error` to its callers.
pub open spec fn error_code(error: Error) -> u32 {
    match error {
        Error::AlreadyInitialized => 1,
        Error::NotInitialized => 2,
        Error::OwnerNotSet => 3,
        Error::IdenticalTokens => 4,
        Error::InvalidFee => 7,
        Error::InvalidAmount => 8,
        Error::SlippageExceeded => 9,
        Error::InsufficientLiquidity => 10,
        Error::InsufficientLpBalance => 11,
        Error::ArithmeticOverflow => 12,
        Error::ZeroLiquidity => 14,
    }
}

impl Error {
    /// The stable numeric code of this error.
    pub fn code(self) -> (code: u32)
        ensures
            code == error_code(self),
    {
        match self {
            Error::AlreadyInitialized => 1,
            Error::NotInitialized => 2,
            Error::OwnerNotSet => 3,
            Error::IdenticalTokens => 4,
            Error::InvalidFee => 7,
            Error::InvalidAmount => 8,
            Error::SlippageExceeded => 9,
            Error::InsufficientLiquidity => 10,
            Error::InsufficientLpBalance => 11,
            Error::ArithmeticOverflow => 12,
            Error::ZeroLiquidity => 14,
        }
    }
}

/// Two errors with the same code are the same error.
pub proof fn law_error_codes_are_distinct(a: Error, b: Error)
    requires
        error_code(a) == error_code(b),
    ensures
        a == b,
{
}

} // verus!
