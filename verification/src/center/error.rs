//! What can be wrong with an instruction.
use vstd::prelude::*;

verus! {

/// Why an instruction was refused.
#[derive(Clone, Copy, Debug, PartialEq, Eq, Structural)]
pub enum ErrorCode {
    ProtocolPaused,
    InvalidWheelId,
    InvalidCommissionRate,
    RateLimitExceeded,
    WheelNotOpen,
    WheelFull,
    InsufficientBalance,
    Overflow,
    Underflow,
    Unauthorized,
    WheelNotFull,
    InvalidParticipantCount,
    InvalidCenterWinner,
    InvalidRecipient,
    WheelAlreadyInitialized,
    InvalidWheelState,
    InvalidTreasury,
    InvalidCommissionWallet,
    InsufficientTreasuryBalance,
    AlreadyPaidOut,
    UseJoinAndSplitForFinalParticipant,
    NotFinalParticipant,
    StaleWheelIds,
    DuplicateParticipant,
    AlreadyRefunded,
    GasCostTooHigh,
    NoParticipantsToRefund,
    InsufficientBalanceForRefund,
    AccountNotWritable,
    WheelRefunded,
}

/// The number by which clients know the error: program errors count up from
/// six thousand in the order of their declaration.
pub open spec fn error_number(error: ErrorCode) -> u32 {
    match error {
        ErrorCode::ProtocolPaused => 6000,
        ErrorCode::InvalidWheelId => 6001,
        ErrorCode::InvalidCommissionRate => 6002,
        ErrorCode::RateLimitExceeded => 6003,
        ErrorCode::WheelNotOpen => 6004,
        ErrorCode::WheelFull => 6005,
        ErrorCode::InsufficientBalance => 6006,
        ErrorCode::Overflow => 6007,
        ErrorCode::Underflow => 6008,
        ErrorCode::Unauthorized => 6009,
        ErrorCode::WheelNotFull => 6010,
        ErrorCode::InvalidParticipantCount => 6011,
        ErrorCode::InvalidCenterWinner => 6012,
        ErrorCode::InvalidRecipient => 6013,
        ErrorCode::WheelAlreadyInitialized => 6014,
        ErrorCode::InvalidWheelState => 6015,
        ErrorCode::InvalidTreasury => 6016,
        ErrorCode::InvalidCommissionWallet => 6017,
        ErrorCode::InsufficientTreasuryBalance => 6018,
        ErrorCode::AlreadyPaidOut => 6019,
        ErrorCode::UseJoinAndSplitForFinalParticipant => 6020,
        ErrorCode::NotFinalParticipant => 6021,
        ErrorCode::StaleWheelIds => 6022,
        ErrorCode::DuplicateParticipant => 6023,
        ErrorCode::AlreadyRefunded => 6024,
        ErrorCode::GasCostTooHigh => 6025,
        ErrorCode::NoParticipantsToRefund => 6026,
        ErrorCode::InsufficientBalanceForRefund => 6027,
        ErrorCode::AccountNotWritable => 6028,
        ErrorCode::WheelRefunded => 6029,
    }
}

/// What the error tells its reader.
pub open spec fn error_message(error: ErrorCode) -> Seq<char> {
    match error {
        ErrorCode::ProtocolPaused => "Protocol is currently paused"@,
        ErrorCode::InvalidWheelId => "Invalid wheel ID - must match registry count"@,
        ErrorCode::InvalidCommissionRate => "Invalid commission rate - must be between 1% and 30%"@,
        ErrorCode::RateLimitExceeded => "Rate limit exceeded - changes allowed once per week"@,
        ErrorCode::WheelNotOpen => "Wheel is not open for participants"@,
        ErrorCode::WheelFull => "Wheel is already full"@,
        ErrorCode::InsufficientBalance => "Insufficient balance for transaction"@,
        ErrorCode::Overflow => "Overflow in calculation"@,
        ErrorCode::Underflow => "Underflow in calculation"@,
        ErrorCode::Unauthorized =>
            "Unauthorized - Only registry authority can perform this action"@,
        ErrorCode::WheelNotFull => "Wheel is not full - cannot split"@,
        ErrorCode::InvalidParticipantCount => "Invalid participant count"@,
        ErrorCode::InvalidCenterWinner => "Invalid center winner - must match first participant"@,
        ErrorCode::InvalidRecipient => "Invalid recipient address"@,
        ErrorCode::WheelAlreadyInitialized => "Wheel already initialized"@,
        ErrorCode::InvalidWheelState => "Invalid wheel state"@,
        ErrorCode::InvalidTreasury => "Invalid treasury address"@,
        ErrorCode::InvalidCommissionWallet => "Invalid commission wallet address"@,
        ErrorCode::InsufficientTreasuryBalance => "Insufficient treasury balance"@,
        ErrorCode::AlreadyPaidOut => "Wheel already paid out"@,
        ErrorCode::UseJoinAndSplitForFinalParticipant =>
            "Use join_and_split instruction for 15th participant"@,
        ErrorCode::NotFinalParticipant => "This instruction is only for the 15th participant"@,
        ErrorCode::StaleWheelIds =>
            "Child wheel IDs are stale - another split occurred. Please retry with updated IDs"@,
        ErrorCode::DuplicateParticipant => "Participant already in this wheel"@,
        ErrorCode::AlreadyRefunded => "Wheel has already been refunded"@,
        ErrorCode::GasCostTooHigh => "Gas cost per refund exceeds maximum (10% of entry fee)"@,
        ErrorCode::NoParticipantsToRefund => "No participants to refund"@,
        ErrorCode::InsufficientBalanceForRefund => "Insufficient balance in wheel for all refunds"@,
        ErrorCode::AccountNotWritable => "Account is not writable"@,
        ErrorCode::WheelRefunded => "Cannot join a refunded wheel"@,
    }
}

impl ErrorCode {
    /// The number of the error.
    pub fn number(&self) -> (number: u32)
        ensures
            number == error_number(*self),
    {
        match self {
            ErrorCode::ProtocolPaused => 6000,
            ErrorCode::InvalidWheelId => 6001,
            ErrorCode::InvalidCommissionRate => 6002,
            ErrorCode::RateLimitExceeded => 6003,
            ErrorCode::WheelNotOpen => 6004,
            ErrorCode::WheelFull => 6005,
            ErrorCode::InsufficientBalance => 6006,
            ErrorCode::Overflow => 6007,
            ErrorCode::Underflow => 6008,
            ErrorCode::Unauthorized => 6009,
            ErrorCode::WheelNotFull => 6010,
            ErrorCode::InvalidParticipantCount => 6011,
            ErrorCode::InvalidCenterWinner => 6012,
            ErrorCode::InvalidRecipient => 6013,
            ErrorCode::WheelAlreadyInitialized => 6014,
            ErrorCode::InvalidWheelState => 6015,
            ErrorCode::InvalidTreasury => 6016,
            ErrorCode::InvalidCommissionWallet => 6017,
            ErrorCode::InsufficientTreasuryBalance => 6018,
            ErrorCode::AlreadyPaidOut => 6019,
            ErrorCode::UseJoinAndSplitForFinalParticipant => 6020,
            ErrorCode::NotFinalParticipant => 6021,
            ErrorCode::StaleWheelIds => 6022,
            ErrorCode::DuplicateParticipant => 6023,
            ErrorCode::AlreadyRefunded => 6024,
            ErrorCode::GasCostTooHigh => 6025,
            ErrorCode::NoParticipantsToRefund => 6026,
            ErrorCode::InsufficientBalanceForRefund => 6027,
            ErrorCode::AccountNotWritable => 6028,
            ErrorCode::WheelRefunded => 6029,
        }
    }

    /// The text of the error.
    pub fn message(&self) -> (message: &'static str)
        ensures
            message@ == error_message(*self),
    {
        match self {
            ErrorCode::ProtocolPaused => "Protocol is currently paused",
            ErrorCode::InvalidWheelId => "Invalid wheel ID - must match registry count",
            ErrorCode::InvalidCommissionRate =>
                "Invalid commission rate - must be between 1% and 30%",
            ErrorCode::RateLimitExceeded => "Rate limit exceeded - changes allowed once per week",
            ErrorCode::WheelNotOpen => "Wheel is not open for participants",
            ErrorCode::WheelFull => "Wheel is already full",
            ErrorCode::InsufficientBalance => "Insufficient balance for transaction",
            ErrorCode::Overflow => "Overflow in calculation",
            ErrorCode::Underflow => "Underflow in calculation",
            ErrorCode::Unauthorized =>
                "Unauthorized - Only registry authority can perform this action",
            ErrorCode::WheelNotFull => "Wheel is not full - cannot split",
            ErrorCode::InvalidParticipantCount => "Invalid participant count",
            ErrorCode::InvalidCenterWinner =>
                "Invalid center winner - must match first participant",
            ErrorCode::InvalidRecipient => "Invalid recipient address",
            ErrorCode::WheelAlreadyInitialized => "Wheel already initialized",
            ErrorCode::InvalidWheelState => "Invalid wheel state",
            ErrorCode::InvalidTreasury => "Invalid treasury address",
            ErrorCode::InvalidCommissionWallet => "Invalid commission wallet address",
            ErrorCode::InsufficientTreasuryBalance => "Insufficient treasury balance",
            ErrorCode::AlreadyPaidOut => "Wheel already paid out",
            ErrorCode::UseJoinAndSplitForFinalParticipant =>
                "Use join_and_split instruction for 15th participant",
            ErrorCode::NotFinalParticipant => "This instruction is only for the 15th participant",
            ErrorCode::StaleWheelIds =>
                "Child wheel IDs are stale - another split occurred. Please retry with updated IDs",
            ErrorCode::DuplicateParticipant => "Participant already in this wheel",
            ErrorCode::AlreadyRefunded => "Wheel has already been refunded",
            ErrorCode::GasCostTooHigh => "Gas cost per refund exceeds maximum (10% of entry fee)",
            ErrorCode::NoParticipantsToRefund => "No participants to refund",
            ErrorCode::InsufficientBalanceForRefund =>
                "Insufficient balance in wheel for all refunds",
            ErrorCode::AccountNotWritable => "Account is not writable",
            ErrorCode::WheelRefunded => "Cannot join a refunded wheel",
        }
    }
}

/// The number tells which error it is.
pub proof fn error_numbers_differ(one: ErrorCode, other: ErrorCode)
    requires
        error_number(one) == error_number(other),
    ensures
        one == other,
{
}

/// Errors are numbered in the order in which they are declared, one after the
/// other, and the first has the number six thousand.
pub proof fn errors_are_numbered_in_order()
    ensures
        error_number(ErrorCode::ProtocolPaused) == 6000,
        error_number(ErrorCode::InvalidWheelId) == error_number(ErrorCode::ProtocolPaused) + 1,
        error_number(ErrorCode::InvalidCommissionRate) == error_number(ErrorCode::InvalidWheelId) + 1,
        error_number(ErrorCode::RateLimitExceeded) == error_number(ErrorCode::InvalidCommissionRate) + 1,
        error_number(ErrorCode::WheelNotOpen) == error_number(ErrorCode::RateLimitExceeded) + 1,
        error_number(ErrorCode::WheelFull) == error_number(ErrorCode::WheelNotOpen) + 1,
        error_number(ErrorCode::InsufficientBalance) == error_number(ErrorCode::WheelFull) + 1,
        error_number(ErrorCode::Overflow) == error_number(ErrorCode::InsufficientBalance) + 1,
        error_number(ErrorCode::Underflow) == error_number(ErrorCode::Overflow) + 1,
        error_number(ErrorCode::Unauthorized) == error_number(ErrorCode::Underflow) + 1,
        error_number(ErrorCode::WheelNotFull) == error_number(ErrorCode::Unauthorized) + 1,
        error_number(ErrorCode::InvalidParticipantCount) == error_number(ErrorCode::WheelNotFull) + 1,
        error_number(ErrorCode::InvalidCenterWinner) == error_number(ErrorCode::InvalidParticipantCount) + 1,
        error_number(ErrorCode::InvalidRecipient) == error_number(ErrorCode::InvalidCenterWinner) + 1,
        error_number(ErrorCode::WheelAlreadyInitialized) == error_number(ErrorCode::InvalidRecipient) + 1,
        error_number(ErrorCode::InvalidWheelState) == error_number(ErrorCode::WheelAlreadyInitialized) + 1,
        error_number(ErrorCode::InvalidTreasury) == error_number(ErrorCode::InvalidWheelState) + 1,
        error_number(ErrorCode::InvalidCommissionWallet) == error_number(ErrorCode::InvalidTreasury) + 1,
        error_number(ErrorCode::InsufficientTreasuryBalance) == error_number(ErrorCode::InvalidCommissionWallet) + 1,
        error_number(ErrorCode::AlreadyPaidOut) == error_number(ErrorCode::InsufficientTreasuryBalance) + 1,
        error_number(ErrorCode::UseJoinAndSplitForFinalParticipant) == error_number(ErrorCode::AlreadyPaidOut) + 1,
        error_number(ErrorCode::NotFinalParticipant) == error_number(ErrorCode::UseJoinAndSplitForFinalParticipant) + 1,
        error_number(ErrorCode::StaleWheelIds) == error_number(ErrorCode::NotFinalParticipant) + 1,
        error_number(ErrorCode::DuplicateParticipant) == error_number(ErrorCode::StaleWheelIds) + 1,
        error_number(ErrorCode::AlreadyRefunded) == error_number(ErrorCode::DuplicateParticipant) + 1,
        error_number(ErrorCode::GasCostTooHigh) == error_number(ErrorCode::AlreadyRefunded) + 1,
        error_number(ErrorCode::NoParticipantsToRefund) == error_number(ErrorCode::GasCostTooHigh) + 1,
        error_number(ErrorCode::InsufficientBalanceForRefund) == error_number(ErrorCode::NoParticipantsToRefund) + 1,
        error_number(ErrorCode::AccountNotWritable) == error_number(ErrorCode::InsufficientBalanceForRefund) + 1,
        error_number(ErrorCode::WheelRefunded) == error_number(ErrorCode::AccountNotWritable) + 1,
{
}

/// What each error tells, word for word.
pub proof fn errors_say_what_is_wrong()
    ensures
        error_message(ErrorCode::ProtocolPaused) == "Protocol is currently paused"@,
        error_message(ErrorCode::InvalidWheelId) == "Invalid wheel ID - must match registry count"@,
        error_message(ErrorCode::InvalidCommissionRate)
            == "Invalid commission rate - must be between 1% and 30%"@,
        error_message(ErrorCode::RateLimitExceeded)
            == "Rate limit exceeded - changes allowed once per week"@,
        error_message(ErrorCode::WheelNotOpen) == "Wheel is not open for participants"@,
        error_message(ErrorCode::WheelFull) == "Wheel is already full"@,
        error_message(ErrorCode::InsufficientBalance) == "Insufficient balance for transaction"@,
        error_message(ErrorCode::Overflow) == "Overflow in calculation"@,
        error_message(ErrorCode::Underflow) == "Underflow in calculation"@,
        error_message(ErrorCode::Unauthorized)
            == "Unauthorized - Only registry authority can perform this action"@,
        error_message(ErrorCode::WheelNotFull) == "Wheel is not full - cannot split"@,
        error_message(ErrorCode::InvalidParticipantCount) == "Invalid participant count"@,
        error_message(ErrorCode::InvalidCenterWinner)
            == "Invalid center winner - must match first participant"@,
        error_message(ErrorCode::InvalidRecipient) == "Invalid recipient address"@,
        error_message(ErrorCode::WheelAlreadyInitialized) == "Wheel already initialized"@,
        error_message(ErrorCode::InvalidWheelState) == "Invalid wheel state"@,
        error_message(ErrorCode::InvalidTreasury) == "Invalid treasury address"@,
        error_message(ErrorCode::InvalidCommissionWallet) == "Invalid commission wallet address"@,
        error_message(ErrorCode::InsufficientTreasuryBalance) == "Insufficient treasury balance"@,
        error_message(ErrorCode::AlreadyPaidOut) == "Wheel already paid out"@,
        error_message(ErrorCode::UseJoinAndSplitForFinalParticipant)
            == "Use join_and_split instruction for 15th participant"@,
        error_message(ErrorCode::NotFinalParticipant)
            == "This instruction is only for the 15th participant"@,
        error_message(ErrorCode::StaleWheelIds)
            == "Child wheel IDs are stale - another split occurred. Please retry with updated IDs"@,
        error_message(ErrorCode::DuplicateParticipant) == "Participant already in this wheel"@,
        error_message(ErrorCode::AlreadyRefunded) == "Wheel has already been refunded"@,
        error_message(ErrorCode::GasCostTooHigh)
            == "Gas cost per refund exceeds maximum (10% of entry fee)"@,
        error_message(ErrorCode::NoParticipantsToRefund) == "No participants to refund"@,
        error_message(ErrorCode::InsufficientBalanceForRefund)
            == "Insufficient balance in wheel for all refunds"@,
        error_message(ErrorCode::AccountNotWritable) == "Account is not writable"@,
        error_message(ErrorCode::WheelRefunded) == "Cannot join a refunded wheel"@,
{
}

} // verus!
