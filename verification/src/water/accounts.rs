//! The accounts that each instruction takes, and what has to hold of them before
//! the instruction runs.
use super::error::ErrorCode;
use super::state::{FundedAccount, Registry, WheelAccount, WheelStatus};
use crate::pubkey::Pubkey;
use crate::signer::{AccountsError, SignerAccount};
use vstd::prelude::*;

verus! {

#[derive(Clone, Copy, Debug, PartialEq, Eq)]
pub struct InitializeRegistry {
    pub registry: Registry,
    pub authority: SignerAccount,
}

#[derive(Clone, Copy, Debug, PartialEq, Eq)]
pub struct UpdateRegistry {
    pub registry: Registry,
    pub authority: SignerAccount,
}

#[derive(Clone, Debug, PartialEq, Eq)]
pub struct InitializeWheel {
    pub wheel: WheelAccount,
    pub registry: Registry,
    pub authority: SignerAccount,
}

#[derive(Clone, Debug, PartialEq, Eq)]
pub struct JoinWheel {
    pub wheel: WheelAccount,
    pub participant: SignerAccount,
    pub registry: Registry,
    pub treasury: Pubkey,
}

#[derive(Clone, Debug, PartialEq, Eq)]
pub struct SplitWheel {
    pub parent_wheel: WheelAccount,
    pub left_wheel: WheelAccount,
    pub right_wheel: WheelAccount,
    pub registry: Registry,
    pub authority: SignerAccount,
    pub treasury: FundedAccount,
    pub water_recipient: Pubkey,
}

/// What is wrong with the accounts of the start of the game: who asks for it
/// has to sign.
pub open spec fn initialize_registry_accounts_error(ctx: InitializeRegistry) -> Option<
    AccountsError<ErrorCode>,
> {
    if !ctx.authority.is_signer {
        Some(AccountsError::NotSigner)
    } else {
        None
    }
}

/// What is wrong with the accounts of a new wheel: who asks for it has to sign.
pub open spec fn initialize_wheel_accounts_error(ctx: InitializeWheel) -> Option<
    AccountsError<ErrorCode>,
> {
    if !ctx.authority.is_signer {
        Some(AccountsError::NotSigner)
    } else {
        None
    }
}

/// What is wrong with the accounts of a change to the registry: only its
/// authority may ask for one, and signs.
pub open spec fn update_registry_accounts_error(ctx: UpdateRegistry) -> Option<
    AccountsError<ErrorCode>,
> {
    if !ctx.authority.is_signer {
        Some(AccountsError::NotSigner)
    } else if ctx.registry.authority != ctx.authority.key {
        Some(AccountsError::Refused(ErrorCode::UnauthorizedAuthority))
    } else {
        None
    }
}

/// What is wrong with the accounts of a join: the participant has to sign, the
/// wheel to be open and the treasury to be the registry's.
pub open spec fn join_wheel_accounts_error(ctx: JoinWheel) -> Option<
    AccountsError<ErrorCode>,
> {
    if !ctx.participant.is_signer {
        Some(AccountsError::NotSigner)
    } else if ctx.wheel.wheel.status != WheelStatus::Open {
        Some(AccountsError::Refused(ErrorCode::WheelNotOpen))
    } else if ctx.treasury != ctx.registry.treasury {
        Some(AccountsError::Refused(ErrorCode::InvalidTreasury))
    } else {
        None
    }
}

/// What is wrong with the accounts of a split: who asks for it has to sign, the
/// wheel has to be full and not paid out, and the treasury to be the registry's.
pub open spec fn split_wheel_accounts_error(ctx: SplitWheel) -> Option<
    AccountsError<ErrorCode>,
> {
    if !ctx.authority.is_signer {
        Some(AccountsError::NotSigner)
    } else if ctx.parent_wheel.wheel.status != WheelStatus::Full {
        Some(AccountsError::Refused(ErrorCode::WheelNotFull))
    } else if ctx.parent_wheel.wheel.paid_out {
        Some(AccountsError::Refused(ErrorCode::AlreadyPaidOut))
    } else if ctx.treasury.key != ctx.registry.treasury {
        Some(AccountsError::Refused(ErrorCode::InvalidTreasury))
    } else {
        None
    }
}

impl InitializeRegistry {
    /// Checks the accounts.
    pub fn check_accounts(&self) -> (checked: Result<(), AccountsError<ErrorCode>>)
        ensures
            match initialize_registry_accounts_error(*self) {
                Some(error) => checked == Err::<(), AccountsError<ErrorCode>>(error),
                None => checked is Ok,
            },
    {
        if !self.authority.is_signer {
            return Err(AccountsError::NotSigner);
        }
        Ok(())
    }
}

impl InitializeWheel {
    /// Checks the accounts.
    pub fn check_accounts(&self) -> (checked: Result<(), AccountsError<ErrorCode>>)
        ensures
            match initialize_wheel_accounts_error(*self) {
                Some(error) => checked == Err::<(), AccountsError<ErrorCode>>(error),
                None => checked is Ok,
            },
    {
        if !self.authority.is_signer {
            return Err(AccountsError::NotSigner);
        }
        Ok(())
    }
}

impl UpdateRegistry {
    /// Checks the accounts.
    pub fn check_accounts(&self) -> (checked: Result<(), AccountsError<ErrorCode>>)
        ensures
            match update_registry_accounts_error(*self) {
                Some(error) => checked == Err::<(), AccountsError<ErrorCode>>(error),
                None => checked is Ok,
            },
    {
        if !self.authority.is_signer {
            return Err(AccountsError::NotSigner);
        }
        if self.registry.authority != self.authority.key {
            return Err(AccountsError::Refused(ErrorCode::UnauthorizedAuthority));
        }
        Ok(())
    }
}

impl JoinWheel {
    /// Checks the accounts.
    pub fn check_accounts(&self) -> (checked: Result<(), AccountsError<ErrorCode>>)
        ensures
            match join_wheel_accounts_error(*self) {
                Some(error) => checked == Err::<(), AccountsError<ErrorCode>>(error),
                None => checked is Ok,
            },
    {
        if !self.participant.is_signer {
            return Err(AccountsError::NotSigner);
        }
        if self.wheel.wheel.status != WheelStatus::Open {
            return Err(AccountsError::Refused(ErrorCode::WheelNotOpen));
        }
        if self.treasury != self.registry.treasury {
            return Err(AccountsError::Refused(ErrorCode::InvalidTreasury));
        }
        Ok(())
    }
}

impl SplitWheel {
    /// Checks the accounts.
    pub fn check_accounts(&self) -> (checked: Result<(), AccountsError<ErrorCode>>)
        ensures
            match split_wheel_accounts_error(*self) {
                Some(error) => checked == Err::<(), AccountsError<ErrorCode>>(error),
                None => checked is Ok,
            },
    {
        if !self.authority.is_signer {
            return Err(AccountsError::NotSigner);
        }
        if self.parent_wheel.wheel.status != WheelStatus::Full {
            return Err(AccountsError::Refused(ErrorCode::WheelNotFull));
        }
        if self.parent_wheel.wheel.paid_out {
            return Err(AccountsError::Refused(ErrorCode::AlreadyPaidOut));
        }
        if self.treasury.key != self.registry.treasury {
            return Err(AccountsError::Refused(ErrorCode::InvalidTreasury));
        }
        Ok(())
    }
}

} // verus!
