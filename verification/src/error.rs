use vstd::prelude::*;

verus! {

/// Every failure the vault reports to its callers.
#[derive(Debug, Clone, Copy, PartialEq, Eq, Structural)]
pub enum Error {
    NotFound,
    InvalidArgument,
    SubscriptionLimitReached,
    Unauthorized,
    NotInitialized,
    AlreadyInitialized,
    InvalidAmount,
    InvalidInput,
    InvalidToken,
    InvalidTokenDecimals,
    InsufficientBalance,
    Overflow,
    Underflow,
    SelfRotation,
    InvalidNewAdmin,
    InvalidRecoveryAmount,
    Replay,
    SchemaMigrationDowngrade,
    InvalidFeeBips,
    InvalidOperations,
    MustAllowChargeOperation,
    IntervalNotElapsed,
    LifetimeCapReached,
    CreditLimitExceeded,
    Blocklisted,
}

/// The numeric code under which each error is reported to clients.
pub open spec fn error_code(e: Error) -> u32 {
    match e {
        Error::NotFound => 404,
        Error::InvalidArgument => 3,
        Error::SubscriptionLimitReached => 429,
        Error::Unauthorized => 401,
        Error::NotInitialized => 1001,
        Error::AlreadyInitialized => 1002,
        Error::InvalidAmount => 1003,
        Error::InvalidInput => 1004,
        Error::InvalidToken => 1005,
        Error::InvalidTokenDecimals => 1006,
        Error::InsufficientBalance => 1007,
        Error::Overflow => 1008,
        Error::Underflow => 1009,
        Error::SelfRotation => 1010,
        Error::InvalidNewAdmin => 1011,
        Error::InvalidRecoveryAmount => 1012,
        Error::Replay => 1013,
        Error::SchemaMigrationDowngrade => 1014,
        Error::InvalidFeeBips => 1015,
        Error::InvalidOperations => 1016,
        Error::MustAllowChargeOperation => 1017,
        Error::IntervalNotElapsed => 1018,
        Error::LifetimeCapReached => 1019,
        Error::CreditLimitExceeded => 1020,
        Error::Blocklisted => 1021,
    }
}

impl Error {
    /// The numeric code of this error.
    pub fn to_code(&self) -> (code: u32)
        ensures
            code == error_code(*self),
    {
        match self {
            Error::NotFound => 404,
            Error::InvalidArgument => 3,
            Error::SubscriptionLimitReached => 429,
            Error::Unauthorized => 401,
            Error::NotInitialized => 1001,
            Error::AlreadyInitialized => 1002,
            Error::InvalidAmount => 1003,
            Error::InvalidInput => 1004,
            Error::InvalidToken => 1005,
            Error::InvalidTokenDecimals => 1006,
            Error::InsufficientBalance => 1007,
            Error::Overflow => 1008,
            Error::Underflow => 1009,
            Error::SelfRotation => 1010,
            Error::InvalidNewAdmin => 1011,
            Error::InvalidRecoveryAmount => 1012,
            Error::Replay => 1013,
            Error::SchemaMigrationDowngrade => 1014,
            Error::InvalidFeeBips => 1015,
            Error::InvalidOperations => 1016,
            Error::MustAllowChargeOperation => 1017,
            Error::IntervalNotElapsed => 1018,
            Error::LifetimeCapReached => 1019,
            Error::CreditLimitExceeded => 1020,
            Error::Blocklisted => 1021,
        }
    }
}

} // verus!
