//! Setting the game up and ruling it.
use super::accounts::{InitializeRegistry, UpdateRegistry};
use super::error::ErrorCode;
use super::state::{CommissionRateChanged, ProtocolPaused, Registry};
use crate::pubkey::Pubkey;
use vstd::prelude::*;

verus! {

/// The lowest and the highest commission rate that may be set, in percent.
pub const MIN_COMMISSION_RATE: u8 = 5;

pub const MAX_COMMISSION_RATE: u8 = 30;

/// The time between two changes of the commission rate, in seconds: a day.
pub const RATE_CHANGE_INTERVAL: i64 = 86_400;

/// The commission rate may be set.
pub open spec fn rate_allowed(rate: u8) -> bool {
    MIN_COMMISSION_RATE <= rate <= MAX_COMMISSION_RATE
}

/// Why a change of the commission rate is refused.
pub open spec fn update_commission_rate_error(registry: Registry, new_rate: u8, now: i64) -> Option<
    ErrorCode,
> {
    if !rate_allowed(new_rate) {
        Some(ErrorCode::InvalidCommissionRate)
    } else if now <= registry.last_rate_change + RATE_CHANGE_INTERVAL {
        Some(ErrorCode::RateLimitExceeded)
    } else {
        None
    }
}

/// A registry as the game starts.
pub open spec fn new_registry(
    authority: Pubkey,
    treasury: Pubkey,
    commission_rate: u8,
    last_rate_change: i64,
) -> Registry {
    Registry {
        authority,
        treasury,
        wheel_count: 0,
        commission_rate,
        paused: false,
        last_rate_change,
    }
}

/// What comes of setting the game up: what is left and what is returned.
pub open spec fn initialize_registry_outcome(
    before: InitializeRegistry,
    commission_rate: u8,
    treasury: Pubkey,
    after: InitializeRegistry,
    done: Result<(), ErrorCode>,
) -> bool {
    &&& after.authority == before.authority
    &&& if rate_allowed(commission_rate) {
        done is Ok && after.registry == new_registry(
            before.authority.key,
            treasury,
            commission_rate,
            before.registry.last_rate_change,
        )
    } else {
        done == Err::<(), ErrorCode>(ErrorCode::InvalidCommissionRate) && after == before
    }
}

/// Sets the game up. Who does it is its authority. The time of the last change
/// of the rate stays as the account holds it.
pub fn initialize_registry(
    ctx: &mut InitializeRegistry,
    commission_rate: u8,
    treasury: Pubkey,
) -> (done: Result<(), ErrorCode>)
    ensures
        initialize_registry_outcome(*old(ctx), commission_rate, treasury, *final(ctx), done),
{
    if commission_rate < MIN_COMMISSION_RATE || commission_rate > MAX_COMMISSION_RATE {
        return Err(ErrorCode::InvalidCommissionRate);
    }
    ctx.registry.authority = ctx.authority.key;
    ctx.registry.treasury = treasury;
    ctx.registry.wheel_count = 0;
    ctx.registry.commission_rate = commission_rate;
    ctx.registry.paused = false;
    Ok(())
}

/// What comes of a change of the commission rate: what is left and what is returned.
pub open spec fn update_commission_rate_outcome(
    before: UpdateRegistry,
    new_rate: u8,
    now: i64,
    after: UpdateRegistry,
    event: Result<CommissionRateChanged, ErrorCode>,
) -> bool {
    &&& after.authority == before.authority
    &&& match update_commission_rate_error(before.registry, new_rate, now) {
        Some(error) => event == Err::<CommissionRateChanged, ErrorCode>(error) && after == before,
        None => event == Ok::<CommissionRateChanged, ErrorCode>(
            CommissionRateChanged {
                old_rate: before.registry.commission_rate,
                new_rate,
                timestamp: now,
            },
        ) && after.registry == (Registry {
            commission_rate: new_rate,
            last_rate_change: now,
            ..before.registry
        }),
    }
}

/// Sets the commission rate, more than a day after the last change, and tells of
/// it.
pub fn update_commission_rate(ctx: &mut UpdateRegistry, new_rate: u8, now: i64) -> (event: Result<
    CommissionRateChanged,
    ErrorCode,
>)
    requires
        rate_allowed(new_rate) ==> old(ctx).registry.last_rate_change + RATE_CHANGE_INTERVAL
            <= i64::MAX,
    ensures
        update_commission_rate_outcome(*old(ctx), new_rate, now, *final(ctx), event),
{
    if new_rate < MIN_COMMISSION_RATE || new_rate > MAX_COMMISSION_RATE {
        return Err(ErrorCode::InvalidCommissionRate);
    }
    if now <= ctx.registry.last_rate_change + RATE_CHANGE_INTERVAL {
        return Err(ErrorCode::RateLimitExceeded);
    }
    let old_rate: u8 = ctx.registry.commission_rate;
    ctx.registry.commission_rate = new_rate;
    ctx.registry.last_rate_change = now;
    Ok(CommissionRateChanged { old_rate, new_rate, timestamp: now })
}

/// What comes of a pause: what is left and what is returned.
pub open spec fn pause_protocol_outcome(
    before: UpdateRegistry,
    now: i64,
    after: UpdateRegistry,
    event: Result<ProtocolPaused, ErrorCode>,
) -> bool {
    &&& event == Ok::<ProtocolPaused, ErrorCode>(
        ProtocolPaused { authority: before.authority.key, timestamp: now },
    )
    &&& after.registry == (Registry { paused: true, ..before.registry })
    &&& after.authority == before.authority
}

/// Pauses the game, for good, and tells of it.
pub fn pause_protocol(ctx: &mut UpdateRegistry, now: i64) -> (event: Result<
    ProtocolPaused,
    ErrorCode,
>)
    ensures
        pause_protocol_outcome(*old(ctx), now, *final(ctx), event),
{
    ctx.registry.paused = true;
    Ok(ProtocolPaused { authority: ctx.authority.key, timestamp: now })
}

} // verus!
