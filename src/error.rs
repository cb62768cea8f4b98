use vstd::prelude::*;

verus! {

/// Every way an operation of the protocol can fail. A failing operation
/// changes no record.
#[derive(Debug, Clone, Copy, PartialEq, Eq, Structural)]
pub enum FPPError {
    InvalidInstruction,
    NotRentExempt,
    InvalidAmount,
    InvalidCommitment,
    NullifierAlreadyUsed,
    PointNotActive,
    PointLocked,
    WithdrawalNotReady,
    InsufficientBalance,
    Unauthorized,
    InvalidProof,
    InvalidRingSignature,
    RateLimitExceeded,
    FlashLoanDetected,
    InvalidAccount,
    AccountAlreadyInitialized,
    AccountNotInitialized,
}

/// The numeric code of each error: its position in the declaration.
pub open spec fn error_code(e: FPPError) -> u32 {
    match e {
        FPPError::InvalidInstruction => 0,
        FPPError::NotRentExempt => 1,
        FPPError::InvalidAmount => 2,
        FPPError::InvalidCommitment => 3,
        FPPError::NullifierAlreadyUsed => 4,
        FPPError::PointNotActive => 5,
        FPPError::PointLocked => 6,
        FPPError::WithdrawalNotReady => 7,
        FPPError::InsufficientBalance => 8,
        FPPError::Unauthorized => 9,
        FPPError::InvalidProof => 10,
        FPPError::InvalidRingSignature => 11,
        FPPError::RateLimitExceeded => 12,
        FPPError::FlashLoanDetected => 13,
        FPPError::InvalidAccount => 14,
        FPPError::AccountAlreadyInitialized => 15,
        FPPError::AccountNotInitialized => 16,
    }
}

/// The human-readable message of each error.
pub open spec fn error_message(e: FPPError) -> &'static str {
    match e {
        FPPError::InvalidInstruction => "Invalid Instruction",
        FPPError::NotRentExempt => "Not Rent Exempt",
        FPPError::InvalidAmount => "Invalid Amount",
        FPPError::InvalidCommitment => "Invalid Commitment",
        FPPError::NullifierAlreadyUsed => "Nullifier Already Used",
        FPPError::PointNotActive => "Point Not Active",
        FPPError::PointLocked => "Point Locked",
        FPPError::WithdrawalNotReady => "Withdrawal Not Ready",
        FPPError::InsufficientBalance => "Insufficient Balance",
        FPPError::Unauthorized => "Unauthorized",
        FPPError::InvalidProof => "Invalid Proof",
        FPPError::InvalidRingSignature => "Invalid Ring Signature",
        FPPError::RateLimitExceeded => "Rate Limit Exceeded",
        FPPError::FlashLoanDetected => "Flash Loan Detected",
        FPPError::InvalidAccount => "Invalid Account",
        FPPError::AccountAlreadyInitialized => "Account Already Initialized",
        FPPError::AccountNotInitialized => "Account Not Initialized",
    }
}

impl FPPError {
    /// The custom error code under which the host reports this error.
    pub fn code(&self) -> (r: u32)
        ensures
            r == error_code(*self),
    {
        match self {
            FPPError::InvalidInstruction => 0,
            FPPError::NotRentExempt => 1,
            FPPError::InvalidAmount => 2,
            FPPError::InvalidCommitment => 3,
            FPPError::NullifierAlreadyUsed => 4,
            FPPError::PointNotActive => 5,
            FPPError::PointLocked => 6,
            FPPError::WithdrawalNotReady => 7,
            FPPError::InsufficientBalance => 8,
            FPPError::Unauthorized => 9,
            FPPError::InvalidProof => 10,
            FPPError::InvalidRingSignature => 11,
            FPPError::RateLimitExceeded => 12,
            FPPError::FlashLoanDetected => 13,
            FPPError::InvalidAccount => 14,
            FPPError::AccountAlreadyInitialized => 15,
            FPPError::AccountNotInitialized => 16,
        }
    }

    /// A short human-readable message for this error.
    pub fn message(&self) -> (r: &'static str)
        ensures
            r == error_message(*self),
    {
        match self {
            FPPError::InvalidInstruction => "Invalid Instruction",
            FPPError::NotRentExempt => "Not Rent Exempt",
            FPPError::InvalidAmount => "Invalid Amount",
            FPPError::InvalidCommitment => "Invalid Commitment",
            FPPError::NullifierAlreadyUsed => "Nullifier Already Used",
            FPPError::PointNotActive => "Point Not Active",
            FPPError::PointLocked => "Point Locked",
            FPPError::WithdrawalNotReady => "Withdrawal Not Ready",
            FPPError::InsufficientBalance => "Insufficient Balance",
            FPPError::Unauthorized => "Unauthorized",
            FPPError::InvalidProof => "Invalid Proof",
            FPPError::InvalidRingSignature => "Invalid Ring Signature",
            FPPError::RateLimitExceeded => "Rate Limit Exceeded",
            FPPError::FlashLoanDetected => "Flash Loan Detected",
            FPPError::InvalidAccount => "Invalid Account",
            FPPError::AccountAlreadyInitialized => "Account Already Initialized",
            FPPError::AccountNotInitialized => "Account Not Initialized",
        }
    }
}

} // verus!
