//! Setting the game up and ruling it.
use super::accounts::{InitializeRegistry, UpdateRegistry};
use super::error::ErrorCode;
use super::state::{CommissionWalletUpdated, Registry};
use crate::pubkey::Pubkey;
use vstd::prelude::*;

verus! {

/// The commission rate that the game starts with, in percent.
pub const INITIAL_COMMISSION_RATE: u8 = 15;

/// The lowest and the highest commission rate that may be set, in percent.
pub const MIN_COMMISSION_RATE: u8 = 1;

pub const MAX_COMMISSION_RATE: u8 = 30;

/// The time between two changes of the commission rate, in seconds: a week.
pub const RATE_CHANGE_INTERVAL: i64 = 604_800;

/// Why a change of the commission rate is refused. A registry whose rate was
/// never changed, or not after the start of the clock, may change it at once.
pub open spec fn update_commission_rate_error(registry: Registry, new_rate: u8, now: i64) -> Option<
    ErrorCode,
> {
    let elapsed = now - registry.last_rate_change;
    if !(MIN_COMMISSION_RATE <= new_rate <= MAX_COMMISSION_RATE) {
        Some(ErrorCode::InvalidCommissionRate)
    } else if elapsed < i64::MIN || elapsed > i64::MAX {
        Some(ErrorCode::Underflow)
    } else if registry.last_rate_change > 0 && elapsed < RATE_CHANGE_INTERVAL {
        Some(ErrorCode::RateLimitExceeded)
    } else {
        None
    }
}

/// A registry as the game starts.
pub open spec fn new_registry(authority: Pubkey, commission_wallet: Pubkey, now: i64) -> Registry {
    Registry {
        authority,
        treasury: authority,
        commission_wallet,
        wheel_count: 0,
        commission_rate: INITIAL_COMMISSION_RATE,
        paused: false,
        last_rate_change: now,
    }
}

/// What comes of setting the game up: what is left and what is returned.
pub open spec fn initialize_registry_outcome(
    before: InitializeRegistry,
    commission_wallet: Pubkey,
    now: i64,
    after: InitializeRegistry,
    done: Result<(), ErrorCode>,
) -> bool {
    &&& done is Ok
    &&& after.registry == new_registry(before.authority.key, commission_wallet, now)
    &&& after.authority == before.authority
}

/// Sets the game up. Who does it is its authority and its treasury.
pub fn initialize_registry(ctx: &mut InitializeRegistry, commission_wallet: Pubkey, now: i64) -> (done:
    Result<(), ErrorCode>)
    ensures
        initialize_registry_outcome(*old(ctx), commission_wallet, now, *final(ctx), done),
{
    ctx.registry.authority = ctx.authority.key;
    ctx.registry.treasury = ctx.authority.key;
    ctx.registry.commission_wallet = commission_wallet;
    ctx.registry.wheel_count = 0;
    ctx.registry.commission_rate = INITIAL_COMMISSION_RATE;
    ctx.registry.paused = false;
    ctx.registry.last_rate_change = now;
    Ok(())
}

/// What comes of a change of the commission rate: what is left and what is returned.
pub open spec fn update_commission_rate_outcome(
    before: UpdateRegistry,
    new_rate: u8,
    now: i64,
    after: UpdateRegistry,
    done: Result<(), ErrorCode>,
) -> bool {
    &&& after.authority == before.authority
    &&& match update_commission_rate_error(before.registry, new_rate, now) {
        Some(error) => done == Err::<(), ErrorCode>(error) && after == before,
        None => done is Ok && after.registry == (Registry {
            commission_rate: new_rate,
            last_rate_change: now,
            ..before.registry
        }),
    }
}

/// Sets the commission rate, at most once a week.
pub fn update_commission_rate(ctx: &mut UpdateRegistry, new_rate: u8, now: i64) -> (done: Result<
    (),
    ErrorCode,
>)
    ensures
        update_commission_rate_outcome(*old(ctx), new_rate, now, *final(ctx), done),
{
    if new_rate > MAX_COMMISSION_RATE {
        return Err(ErrorCode::InvalidCommissionRate);
    }
    if new_rate < MIN_COMMISSION_RATE {
        return Err(ErrorCode::InvalidCommissionRate);
    }
    let time_since_last_change: i64 = match now.checked_sub(ctx.registry.last_rate_change) {
        None => {
            return Err(ErrorCode::Underflow);
        },
        Some(elapsed) => elapsed,
    };
    if ctx.registry.last_rate_change > 0 {
        if time_since_last_change < RATE_CHANGE_INTERVAL {
            return Err(ErrorCode::RateLimitExceeded);
        }
    }
    ctx.registry.commission_rate = new_rate;
    ctx.registry.last_rate_change = now;
    Ok(())
}

/// What comes of a change of the commission wallet: what is left and what is returned.
pub open spec fn update_commission_wallet_outcome(
    before: UpdateRegistry,
    new_commission_wallet: Pubkey,
    now: i64,
    after: UpdateRegistry,
    event: Result<CommissionWalletUpdated, ErrorCode>,
) -> bool {
    &&& event == Ok::<CommissionWalletUpdated, ErrorCode>(
        CommissionWalletUpdated {
            old_wallet: before.registry.commission_wallet,
            new_wallet: new_commission_wallet,
            updated_by: before.authority.key,
            timestamp: now,
        },
    )
    &&& after.registry == (Registry {
        commission_wallet: new_commission_wallet,
        ..before.registry
    })
    &&& after.authority == before.authority
}

/// Sets where the commission goes, and tells of it.
pub fn update_commission_wallet(
    ctx: &mut UpdateRegistry,
    new_commission_wallet: Pubkey,
    now: i64,
) -> (event: Result<CommissionWalletUpdated, ErrorCode>)
    ensures
        update_commission_wallet_outcome(*old(ctx), new_commission_wallet, now, *final(ctx), event),
{
    let event = CommissionWalletUpdated {
        old_wallet: ctx.registry.commission_wallet,
        new_wallet: new_commission_wallet,
        updated_by: ctx.authority.key,
        timestamp: now,
    };
    ctx.registry.commission_wallet = new_commission_wallet;
    Ok(event)
}

/// What comes of a pause or its end: what is left and what is returned.
pub open spec fn pause_protocol_outcome(
    before: UpdateRegistry,
    paused: bool,
    after: UpdateRegistry,
    done: Result<(), ErrorCode>,
) -> bool {
    &&& done is Ok
    &&& after.registry == (Registry { paused, ..before.registry })
    &&& after.authority == before.authority
}

/// Pauses the game or lets it go on.
pub fn pause_protocol(ctx: &mut UpdateRegistry, paused: bool) -> (done: Result<(), ErrorCode>)
    ensures
        pause_protocol_outcome(*old(ctx), paused, *final(ctx), done),
{
    ctx.registry.paused = paused;
    Ok(())
}

} // verus!
