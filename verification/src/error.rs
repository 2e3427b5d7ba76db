//! Error taxonomy of the token ledger engine.

use vstd::prelude::*;

verus! {

/// Every way an instruction can be rejected. Each variant is produced on the
/// exact condition its name describes; handlers enumerate those conditions in
/// their contracts.
#[derive(Clone, Copy, Debug, PartialEq, Eq, Structural)]
pub enum E9thTokenError {
    InvalidInstruction,
    InvalidAccountOwner,
    InvalidAccountData,
    InsufficientFunds,
    AccountNotInitialized,
    AccountAlreadyInitialized,
    InvalidMint,
    InvalidTokenAccount,
    InvalidStakeAccount,
    StakeAccountNotFound,
    InvalidStakePeriod,
    StakeNotMature,
    Unauthorized,
    InvalidAdmin,
    MathOverflow,
    InvalidAmount,
    StakePeriodTooShort,
    StakePeriodTooLong,
    RewardCalculationFailed,
}

impl E9thTokenError {
    /// The numeric code under which the host runtime reports this error:
    /// the variant's position in the declaration order.
    pub open spec fn spec_error_code(&self) -> u32 {
        match self {
            E9thTokenError::InvalidInstruction => 0,
            E9thTokenError::InvalidAccountOwner => 1,
            E9thTokenError::InvalidAccountData => 2,
            E9thTokenError::InsufficientFunds => 3,
            E9thTokenError::AccountNotInitialized => 4,
            E9thTokenError::AccountAlreadyInitialized => 5,
            E9thTokenError::InvalidMint => 6,
            E9thTokenError::InvalidTokenAccount => 7,
            E9thTokenError::InvalidStakeAccount => 8,
            E9thTokenError::StakeAccountNotFound => 9,
            E9thTokenError::InvalidStakePeriod => 10,
            E9thTokenError::StakeNotMature => 11,
            E9thTokenError::Unauthorized => 12,
            E9thTokenError::InvalidAdmin => 13,
            E9thTokenError::MathOverflow => 14,
            E9thTokenError::InvalidAmount => 15,
            E9thTokenError::StakePeriodTooShort => 16,
            E9thTokenError::StakePeriodTooLong => 17,
            E9thTokenError::RewardCalculationFailed => 18,
        }
    }

    /// The numeric code under which the host runtime reports this error.
    pub fn error_code(&self) -> (r: u32)
        ensures
            r == self.spec_error_code(),
    {
        match self {
            E9thTokenError::InvalidInstruction => 0,
            E9thTokenError::InvalidAccountOwner => 1,
            E9thTokenError::InvalidAccountData => 2,
            E9thTokenError::InsufficientFunds => 3,
            E9thTokenError::AccountNotInitialized => 4,
            E9thTokenError::AccountAlreadyInitialized => 5,
            E9thTokenError::InvalidMint => 6,
            E9thTokenError::InvalidTokenAccount => 7,
            E9thTokenError::InvalidStakeAccount => 8,
            E9thTokenError::StakeAccountNotFound => 9,
            E9thTokenError::InvalidStakePeriod => 10,
            E9thTokenError::StakeNotMature => 11,
            E9thTokenError::Unauthorized => 12,
            E9thTokenError::InvalidAdmin => 13,
            E9thTokenError::MathOverflow => 14,
            E9thTokenError::InvalidAmount => 15,
            E9thTokenError::StakePeriodTooShort => 16,
            E9thTokenError::StakePeriodTooLong => 17,
            E9thTokenError::RewardCalculationFailed => 18,
        }
    }
}

} // verus!
