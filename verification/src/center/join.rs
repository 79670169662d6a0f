//! Opening a wheel and joining it.
use super::accounts::{InitializeWheel, JoinWheel};
use super::error::ErrorCode;
use super::state::{
    tier_fee, CompactParticipant, Element, GameTier, ParticipantJoined, Registry, WheelCreated,
    WheelStatus, WheelView, WHEEL_SEATS,
};
use crate::pubkey::Pubkey;
use crate::transfer::{is_system_transfer, system_transfer, Instruction};
use vstd::prelude::*;

verus! {

/// What follows from a join: the payment of the entry fee and what is told of it.
#[derive(Clone, Debug, PartialEq, Eq)]
pub struct JoinReceipt {
    pub instruction: Instruction,
    pub event: ParticipantJoined,
}

/// Why a wheel cannot be opened.
pub open spec fn initialize_wheel_error(registry: Registry, wheel_id: u64) -> Option<ErrorCode> {
    if registry.paused {
        Some(ErrorCode::ProtocolPaused)
    } else if wheel_id != registry.wheel_count {
        Some(ErrorCode::InvalidWheelId)
    } else if registry.wheel_count == u64::MAX {
        Some(ErrorCode::Overflow)
    } else {
        None
    }
}

/// A wheel that has just been opened.
pub open spec fn new_wheel(wheel_id: u64, tier: GameTier, now: i64) -> WheelView {
    WheelView {
        id: wheel_id,
        parent: None,
        children: seq![None, None],
        participants: Seq::empty(),
        status: WheelStatus::Open,
        entry_fee: tier_fee(tier),
        total_pool: 0,
        generation: 0,
        created_at: now,
        paid_out: false,
        tier,
    }
}

/// A registry after one more wheel was opened.
pub open spec fn counted_one_more(registry: Registry) -> Registry {
    Registry { wheel_count: (registry.wheel_count + 1) as u64, ..registry }
}

/// The element of each seat but the last: eight of earth, four of air and two of
/// fire.
pub open spec fn seat_element(seat: nat) -> Element {
    if seat < 8 {
        Element::Earth
    } else if seat < 12 {
        Element::Air
    } else {
        Element::Fire
    }
}

/// Why a join is refused.
pub open spec fn join_wheel_error(registry: Registry, wheel: WheelView) -> Option<ErrorCode> {
    if registry.paused {
        Some(ErrorCode::ProtocolPaused)
    } else if wheel.status == WheelStatus::Refunded {
        Some(ErrorCode::WheelRefunded)
    } else if wheel.status != WheelStatus::Open {
        Some(ErrorCode::WheelNotOpen)
    } else if wheel.participants.len() >= WHEEL_SEATS - 1 {
        Some(ErrorCode::UseJoinAndSplitForFinalParticipant)
    } else if wheel.total_pool + wheel.entry_fee > u64::MAX {
        Some(ErrorCode::Overflow)
    } else {
        None
    }
}

/// A wheel after a join: one more seat is taken, and the pool holds one more fee.
pub open spec fn joined(wheel: WheelView, participant: Pubkey) -> WheelView {
    WheelView {
        participants: wheel.participants.push(
            CompactParticipant {
                pubkey: participant,
                element: seat_element(wheel.participants.len()),
            },
        ),
        total_pool: (wheel.total_pool + wheel.entry_fee) as u64,
        ..wheel
    }
}

/// What comes of opening a wheel: what is left and what is returned.
pub open spec fn initialize_wheel_outcome(
    before: InitializeWheel,
    wheel_id: u64,
    tier: GameTier,
    now: i64,
    after: InitializeWheel,
    event: Result<WheelCreated, ErrorCode>,
) -> bool {
    match initialize_wheel_error(before.registry, wheel_id) {
        Some(error) => event == Err::<WheelCreated, ErrorCode>(error) && after == before,
        None => {
            &&& event == Ok::<WheelCreated, ErrorCode>(
                WheelCreated { wheel_id, tier, entry_fee: tier_fee(tier), timestamp: now },
            )
            &&& after.wheel.wheel@ == new_wheel(wheel_id, tier, now)
            &&& after.wheel.key == before.wheel.key
            &&& after.wheel.lamports == before.wheel.lamports
            &&& after.registry == counted_one_more(before.registry)
            &&& after.authority == before.authority
        },
    }
}

/// Opens the wheel with the next id.
pub fn initialize_wheel(ctx: &mut InitializeWheel, wheel_id: u64, tier: GameTier, now: i64) -> (event:
    Result<WheelCreated, ErrorCode>)
    ensures
        initialize_wheel_outcome(*old(ctx), wheel_id, tier, now, *final(ctx), event),
{
    if ctx.registry.paused {
        return Err(ErrorCode::ProtocolPaused);
    }
    if wheel_id != ctx.registry.wheel_count {
        return Err(ErrorCode::InvalidWheelId);
    }
    let entry_fee: u64 = tier.entry_fee();
    let wheel_count: u64 = match ctx.registry.wheel_count.checked_add(1) {
        None => {
            return Err(ErrorCode::Overflow);
        },
        Some(count) => count,
    };
    ctx.wheel.wheel.id = wheel_id;
    ctx.wheel.wheel.parent = None;
    ctx.wheel.wheel.children = [None, None];
    ctx.wheel.wheel.participants = Vec::with_capacity(15);
    ctx.wheel.wheel.status = WheelStatus::Open;
    ctx.wheel.wheel.entry_fee = entry_fee;
    ctx.wheel.wheel.tier = tier;
    ctx.wheel.wheel.total_pool = 0;
    ctx.wheel.wheel.generation = 0;
    ctx.wheel.wheel.created_at = now;
    ctx.wheel.wheel.paid_out = false;
    ctx.registry.wheel_count = wheel_count;
    assert(ctx.wheel.wheel.children@ =~= seq![None, None]);
    Ok(WheelCreated { wheel_id, tier, entry_fee, timestamp: now })
}

/// What comes of a join: what is left and what is returned.
pub open spec fn join_wheel_outcome(
    before: JoinWheel,
    after: JoinWheel,
    receipt: Result<JoinReceipt, ErrorCode>,
) -> bool {
    match join_wheel_error(before.registry, before.wheel.wheel@) {
        Some(error) => receipt == Err::<JoinReceipt, ErrorCode>(error) && after == before,
        None => {
            let wheel = before.wheel.wheel@;
            &&& receipt is Ok
            &&& is_system_transfer(
                receipt->Ok_0.instruction,
                before.participant.key,
                before.wheel.key,
                wheel.entry_fee,
            )
            &&& receipt->Ok_0.event == (ParticipantJoined {
                wheel_id: wheel.id,
                participant: before.participant.key,
                element: seat_element(wheel.participants.len()),
                entry_fee: wheel.entry_fee,
                participant_count: (wheel.participants.len() + 1) as u8,
            })
            &&& after.wheel.wheel@ == joined(wheel, before.participant.key)
            &&& after.wheel.key == before.wheel.key
            &&& after.wheel.lamports == before.wheel.lamports
            &&& after.participant == before.participant
            &&& after.registry == before.registry
            &&& after.treasury == before.treasury
        },
    }
}

/// Seats a participant on any seat but the last and tells how the entry fee is
/// to be paid.
pub fn join_wheel(ctx: &mut JoinWheel) -> (receipt: Result<JoinReceipt, ErrorCode>)
    ensures
        join_wheel_outcome(*old(ctx), *final(ctx), receipt),
{
    if ctx.registry.paused {
        return Err(ErrorCode::ProtocolPaused);
    }
    if ctx.wheel.wheel.status == WheelStatus::Refunded {
        return Err(ErrorCode::WheelRefunded);
    }
    if ctx.wheel.wheel.status != WheelStatus::Open {
        return Err(ErrorCode::WheelNotOpen);
    }
    let current_count: usize = ctx.wheel.wheel.participants.len();
    if current_count >= WHEEL_SEATS - 1 {
        return Err(ErrorCode::UseJoinAndSplitForFinalParticipant);
    }
    let expected_fee: u64 = ctx.wheel.wheel.entry_fee;
    let element = if current_count < 8 {
        Element::Earth
    } else if current_count < 12 {
        Element::Air
    } else {
        Element::Fire
    };
    let total_pool: u64 = match ctx.wheel.wheel.total_pool.checked_add(expected_fee) {
        None => {
            return Err(ErrorCode::Overflow);
        },
        Some(total_pool) => total_pool,
    };
    let instruction = system_transfer(ctx.participant.key, ctx.wheel.key, expected_fee);
    ctx.wheel.wheel.participants.push(CompactParticipant { pubkey: ctx.participant.key, element });
    ctx.wheel.wheel.total_pool = total_pool;
    Ok(
        JoinReceipt {
            instruction,
            event: ParticipantJoined {
                wheel_id: ctx.wheel.wheel.id,
                participant: ctx.participant.key,
                element,
                entry_fee: expected_fee,
                participant_count: ctx.wheel.wheel.participants.len() as u8,
            },
        },
    )
}

} // verus!
