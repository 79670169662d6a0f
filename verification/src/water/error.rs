//! What can be wrong with an instruction.
use vstd::prelude::*;

verus! {

/// Why an instruction was refused.
#[derive(Clone, Copy, Debug, PartialEq, Eq, Structural)]
pub enum ErrorCode {
    WheelNotOpen,
    WheelFull,
    WheelNotFull,
    AlreadyJoined,
    InvalidParticipantCount,
    InvalidCommissionRate,
    InvalidEntryFee,
    WheelAlreadyInitialized,
    AlreadyPaidOut,
    InvalidWaterParticipant,
    InvalidRecipient,
    InsufficientTreasuryBalance,
    Overflow,
    Underflow,
    InvalidIndex,
    DuplicateParticipant,
    UnauthorizedAuthority,
    InvalidTreasury,
    ProtocolPaused,
    RateLimitExceeded,
}

/// The number by which clients know the error: program errors count up from
/// six thousand in the order of their declaration.
pub open spec fn error_number(error: ErrorCode) -> u32 {
    match error {
        ErrorCode::WheelNotOpen => 6000,
        ErrorCode::WheelFull => 6001,
        ErrorCode::WheelNotFull => 6002,
        ErrorCode::AlreadyJoined => 6003,
        ErrorCode::InvalidParticipantCount => 6004,
        ErrorCode::InvalidCommissionRate => 6005,
        ErrorCode::InvalidEntryFee => 6006,
        ErrorCode::WheelAlreadyInitialized => 6007,
        ErrorCode::AlreadyPaidOut => 6008,
        ErrorCode::InvalidWaterParticipant => 6009,
        ErrorCode::InvalidRecipient => 6010,
        ErrorCode::InsufficientTreasuryBalance => 6011,
        ErrorCode::Overflow => 6012,
        ErrorCode::Underflow => 6013,
        ErrorCode::InvalidIndex => 6014,
        ErrorCode::DuplicateParticipant => 6015,
        ErrorCode::UnauthorizedAuthority => 6016,
        ErrorCode::InvalidTreasury => 6017,
        ErrorCode::ProtocolPaused => 6018,
        ErrorCode::RateLimitExceeded => 6019,
    }
}

/// What the error tells its reader.
pub open spec fn error_message(error: ErrorCode) -> Seq<char> {
    match error {
        ErrorCode::WheelNotOpen => "Wheel is not open for new participants"@,
        ErrorCode::WheelFull => "Wheel is full"@,
        ErrorCode::WheelNotFull => "Wheel is not full yet"@,
        ErrorCode::AlreadyJoined => "Participant has already joined this wheel"@,
        ErrorCode::InvalidParticipantCount => "Invalid participant count"@,
        ErrorCode::InvalidCommissionRate => "Commission rate must be between 5 and 30"@,
        ErrorCode::InvalidEntryFee => "Invalid entry fee (0.01-10 SOL)"@,
        ErrorCode::WheelAlreadyInitialized => "Wheel already initialized"@,
        ErrorCode::AlreadyPaidOut => "Already paid out"@,
        ErrorCode::InvalidWaterParticipant => "Invalid water participant"@,
        ErrorCode::InvalidRecipient => "Invalid recipient address"@,
        ErrorCode::InsufficientTreasuryBalance => "Insufficient treasury balance"@,
        ErrorCode::Overflow => "Overflow error"@,
        ErrorCode::Underflow => "Underflow error"@,
        ErrorCode::InvalidIndex => "Invalid index"@,
        ErrorCode::DuplicateParticipant => "Duplicate participant"@,
        ErrorCode::UnauthorizedAuthority => "Unauthorized authority"@,
        ErrorCode::InvalidTreasury => "Invalid treasury address"@,
        ErrorCode::ProtocolPaused => "Protocol is paused"@,
        ErrorCode::RateLimitExceeded => "Rate limit exceeded"@,
    }
}

impl ErrorCode {
    /// The number of the error.
    pub fn number(&self) -> (number: u32)
        ensures
            number == error_number(*self),
    {
        match self {
            ErrorCode::WheelNotOpen => 6000,
            ErrorCode::WheelFull => 6001,
            ErrorCode::WheelNotFull => 6002,
            ErrorCode::AlreadyJoined => 6003,
            ErrorCode::InvalidParticipantCount => 6004,
            ErrorCode::InvalidCommissionRate => 6005,
            ErrorCode::InvalidEntryFee => 6006,
            ErrorCode::WheelAlreadyInitialized => 6007,
            ErrorCode::AlreadyPaidOut => 6008,
            ErrorCode::InvalidWaterParticipant => 6009,
            ErrorCode::InvalidRecipient => 6010,
            ErrorCode::InsufficientTreasuryBalance => 6011,
            ErrorCode::Overflow => 6012,
            ErrorCode::Underflow => 6013,
            ErrorCode::InvalidIndex => 6014,
            ErrorCode::DuplicateParticipant => 6015,
            ErrorCode::UnauthorizedAuthority => 6016,
            ErrorCode::InvalidTreasury => 6017,
            ErrorCode::ProtocolPaused => 6018,
            ErrorCode::RateLimitExceeded => 6019,
        }
    }

    /// The text of the error.
    pub fn message(&self) -> (message: &'static str)
        ensures
            message@ == error_message(*self),
    {
        match self {
            ErrorCode::WheelNotOpen => "Wheel is not open for new participants",
            ErrorCode::WheelFull => "Wheel is full",
            ErrorCode::WheelNotFull => "Wheel is not full yet",
            ErrorCode::AlreadyJoined => "Participant has already joined this wheel",
            ErrorCode::InvalidParticipantCount => "Invalid participant count",
            ErrorCode::InvalidCommissionRate => "Commission rate must be between 5 and 30",
            ErrorCode::InvalidEntryFee => "Invalid entry fee (0.01-10 SOL)",
            ErrorCode::WheelAlreadyInitialized => "Wheel already initialized",
            ErrorCode::AlreadyPaidOut => "Already paid out",
            ErrorCode::InvalidWaterParticipant => "Invalid water participant",
            ErrorCode::InvalidRecipient => "Invalid recipient address",
            ErrorCode::InsufficientTreasuryBalance => "Insufficient treasury balance",
            ErrorCode::Overflow => "Overflow error",
            ErrorCode::Underflow => "Underflow error",
            ErrorCode::InvalidIndex => "Invalid index",
            ErrorCode::DuplicateParticipant => "Duplicate participant",
            ErrorCode::UnauthorizedAuthority => "Unauthorized authority",
            ErrorCode::InvalidTreasury => "Invalid treasury address",
            ErrorCode::ProtocolPaused => "Protocol is paused",
            ErrorCode::RateLimitExceeded => "Rate limit exceeded",
        }
    }
}

/// The number tells which error it is.
pub proof fn error_numbers_differ(one: ErrorCode, other: ErrorCode)
    requires
        error_number(one) == error_number(other),
    ensures
        one == other,
{
}

/// Errors are numbered in the order in which they are declared, one after the
/// other, and the first has the number six thousand.
pub proof fn errors_are_numbered_in_order()
    ensures
        error_number(ErrorCode::WheelNotOpen) == 6000,
        error_number(ErrorCode::WheelFull) == error_number(ErrorCode::WheelNotOpen) + 1,
        error_number(ErrorCode::WheelNotFull) == error_number(ErrorCode::WheelFull) + 1,
        error_number(ErrorCode::AlreadyJoined) == error_number(ErrorCode::WheelNotFull) + 1,
        error_number(ErrorCode::InvalidParticipantCount) == error_number(ErrorCode::AlreadyJoined) + 1,
        error_number(ErrorCode::InvalidCommissionRate) == error_number(ErrorCode::InvalidParticipantCount) + 1,
        error_number(ErrorCode::InvalidEntryFee) == error_number(ErrorCode::InvalidCommissionRate) + 1,
        error_number(ErrorCode::WheelAlreadyInitialized) == error_number(ErrorCode::InvalidEntryFee) + 1,
        error_number(ErrorCode::AlreadyPaidOut) == error_number(ErrorCode::WheelAlreadyInitialized) + 1,
        error_number(ErrorCode::InvalidWaterParticipant) == error_number(ErrorCode::AlreadyPaidOut) + 1,
        error_number(ErrorCode::InvalidRecipient) == error_number(ErrorCode::InvalidWaterParticipant) + 1,
        error_number(ErrorCode::InsufficientTreasuryBalance) == error_number(ErrorCode::InvalidRecipient) + 1,
        error_number(ErrorCode::Overflow) == error_number(ErrorCode::InsufficientTreasuryBalance) + 1,
        error_number(ErrorCode::Underflow) == error_number(ErrorCode::Overflow) + 1,
        error_number(ErrorCode::InvalidIndex) == error_number(ErrorCode::Underflow) + 1,
        error_number(ErrorCode::DuplicateParticipant) == error_number(ErrorCode::InvalidIndex) + 1,
        error_number(ErrorCode::UnauthorizedAuthority) == error_number(ErrorCode::DuplicateParticipant) + 1,
        error_number(ErrorCode::InvalidTreasury) == error_number(ErrorCode::UnauthorizedAuthority) + 1,
        error_number(ErrorCode::ProtocolPaused) == error_number(ErrorCode::InvalidTreasury) + 1,
        error_number(ErrorCode::RateLimitExceeded) == error_number(ErrorCode::ProtocolPaused) + 1,
{
}

/// What each error tells, word for word.
pub proof fn errors_say_what_is_wrong()
    ensures
        error_message(ErrorCode::WheelNotOpen) == "Wheel is not open for new participants"@,
        error_message(ErrorCode::WheelFull) == "Wheel is full"@,
        error_message(ErrorCode::WheelNotFull) == "Wheel is not full yet"@,
        error_message(ErrorCode::AlreadyJoined) == "Participant has already joined this wheel"@,
        error_message(ErrorCode::InvalidParticipantCount) == "Invalid participant count"@,
        error_message(ErrorCode::InvalidCommissionRate)
            == "Commission rate must be between 5 and 30"@,
        error_message(ErrorCode::InvalidEntryFee) == "Invalid entry fee (0.01-10 SOL)"@,
        error_message(ErrorCode::WheelAlreadyInitialized) == "Wheel already initialized"@,
        error_message(ErrorCode::AlreadyPaidOut) == "Already paid out"@,
        error_message(ErrorCode::InvalidWaterParticipant) == "Invalid water participant"@,
        error_message(ErrorCode::InvalidRecipient) == "Invalid recipient address"@,
        error_message(ErrorCode::InsufficientTreasuryBalance) == "Insufficient treasury balance"@,
        error_message(ErrorCode::Overflow) == "Overflow error"@,
        error_message(ErrorCode::Underflow) == "Underflow error"@,
        error_message(ErrorCode::InvalidIndex) == "Invalid index"@,
        error_message(ErrorCode::DuplicateParticipant) == "Duplicate participant"@,
        error_message(ErrorCode::UnauthorizedAuthority) == "Unauthorized authority"@,
        error_message(ErrorCode::InvalidTreasury) == "Invalid treasury address"@,
        error_message(ErrorCode::ProtocolPaused) == "Protocol is paused"@,
        error_message(ErrorCode::RateLimitExceeded) == "Rate limit exceeded"@,
{
}

} // verus!
