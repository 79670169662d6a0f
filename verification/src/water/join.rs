//! Opening a wheel and joining it.
use super::accounts::{InitializeWheel, JoinWheel};
use super::error::ErrorCode;
use super::state::{
    is_seated, seated, CompactParticipant, Element, ParticipantJoined, Registry, WheelStatus,
    WheelView, WHEEL_SEATS,
};
use crate::pubkey::Pubkey;
use crate::transfer::{is_system_transfer, system_transfer, Instruction};
use vstd::prelude::*;

verus! {

/// The lowest and the highest entry fee in lamports: 0.01 and 10 SOL.
pub const MIN_ENTRY_FEE: u64 = 10_000_000;

pub const MAX_ENTRY_FEE: u64 = 10_000_000_000;

/// What follows from a join: the payment of the entry fee and what is told of it.
#[derive(Clone, Debug, PartialEq, Eq)]
pub struct JoinReceipt {
    pub instruction: Instruction,
    pub event: ParticipantJoined,
}

/// Why a wheel cannot be opened.
pub open spec fn initialize_wheel_error(
    registry: Registry,
    place: WheelView,
    entry_fee: u64,
) -> Option<ErrorCode> {
    if !(MIN_ENTRY_FEE <= entry_fee <= MAX_ENTRY_FEE) {
        Some(ErrorCode::InvalidEntryFee)
    } else if registry.paused {
        Some(ErrorCode::ProtocolPaused)
    } else if place.id != 0 {
        Some(ErrorCode::WheelAlreadyInitialized)
    } else if registry.wheel_count == u64::MAX {
        Some(ErrorCode::Overflow)
    } else {
        None
    }
}

/// A wheel that has just been opened.
pub open spec fn new_wheel(wheel_id: u64, entry_fee: u64, now: i64) -> WheelView {
    WheelView {
        id: wheel_id,
        parent: None,
        children: seq![None, None],
        participants: Seq::empty(),
        status: WheelStatus::Open,
        entry_fee,
        total_pool: 0,
        generation: 0,
        created_at: now,
        paid_out: false,
    }
}

/// A registry after one more wheel was opened.
pub open spec fn counted_one_more(registry: Registry) -> Registry {
    Registry { wheel_count: (registry.wheel_count + 1) as u64, ..registry }
}

/// The element of each seat: eight of earth, four of air, two of fire and one of
/// water.
pub open spec fn seat_element(seat: nat) -> Element {
    if seat < 8 {
        Element::Earth
    } else if seat < 12 {
        Element::Air
    } else if seat < 14 {
        Element::Fire
    } else {
        Element::Water
    }
}

/// Why a join is refused.
pub open spec fn join_wheel_error(
    registry: Registry,
    wheel: WheelView,
    participant: Pubkey,
) -> Option<ErrorCode> {
    if registry.paused {
        Some(ErrorCode::ProtocolPaused)
    } else if wheel.status != WheelStatus::Open {
        Some(ErrorCode::WheelNotOpen)
    } else if wheel.participants.len() >= WHEEL_SEATS {
        Some(ErrorCode::WheelFull)
    } else if seated(wheel.participants, participant) {
        Some(ErrorCode::AlreadyJoined)
    } else if wheel.total_pool + wheel.entry_fee > u64::MAX {
        Some(ErrorCode::Overflow)
    } else {
        None
    }
}

/// The lower thirty-two bits of a time.
pub open spec fn low_word(time: i64) -> u32 {
    (time as int % 0x1_0000_0000) as u32
}

/// A wheel after a join: one more seat is taken, the pool holds one more fee, and
/// with the last seat the wheel is full.
pub open spec fn joined(wheel: WheelView, participant: Pubkey, now: i64) -> WheelView {
    WheelView {
        participants: wheel.participants.push(
            CompactParticipant {
                pubkey: participant,
                element: seat_element(wheel.participants.len()),
                joined_at: low_word(now),
            },
        ),
        total_pool: (wheel.total_pool + wheel.entry_fee) as u64,
        status: if wheel.participants.len() + 1 == WHEEL_SEATS {
            WheelStatus::Full
        } else {
            wheel.status
        },
        ..wheel
    }
}

/// What comes of opening a wheel: what is left and what is returned.
pub open spec fn initialize_wheel_outcome(
    before: InitializeWheel,
    wheel_id: u64,
    entry_fee: u64,
    now: i64,
    after: InitializeWheel,
    done: Result<(), ErrorCode>,
) -> bool {
    match initialize_wheel_error(before.registry, before.wheel.wheel@, entry_fee) {
        Some(error) => done == Err::<(), ErrorCode>(error) && after == before,
        None => {
            &&& done is Ok
            &&& after.wheel.wheel@ == new_wheel(wheel_id, entry_fee, now)
            &&& after.wheel.key == before.wheel.key
            &&& after.registry == counted_one_more(before.registry)
            &&& after.authority == before.authority
        },
    }
}

/// Opens a wheel.
pub fn initialize_wheel(ctx: &mut InitializeWheel, wheel_id: u64, entry_fee: u64, now: i64) -> (done:
    Result<(), ErrorCode>)
    ensures
        initialize_wheel_outcome(*old(ctx), wheel_id, entry_fee, now, *final(ctx), done),
{
    if entry_fee < MIN_ENTRY_FEE || entry_fee > MAX_ENTRY_FEE {
        return Err(ErrorCode::InvalidEntryFee);
    }
    if ctx.registry.paused {
        return Err(ErrorCode::ProtocolPaused);
    }
    if ctx.wheel.wheel.id != 0 {
        return Err(ErrorCode::WheelAlreadyInitialized);
    }
    let wheel_count: u64 = match ctx.registry.wheel_count.checked_add(1) {
        None => {
            return Err(ErrorCode::Overflow);
        },
        Some(count) => count,
    };
    ctx.wheel.wheel.id = wheel_id;
    ctx.wheel.wheel.parent = None;
    ctx.wheel.wheel.children = [None, None];
    ctx.wheel.wheel.participants = Vec::with_capacity(15);
    ctx.wheel.wheel.status = WheelStatus::Open;
    ctx.wheel.wheel.entry_fee = entry_fee;
    ctx.wheel.wheel.total_pool = 0;
    ctx.wheel.wheel.generation = 0;
    ctx.wheel.wheel.created_at = now;
    ctx.wheel.wheel.paid_out = false;
    ctx.registry.wheel_count = wheel_count;
    assert(ctx.wheel.wheel.children@ =~= seq![None, None]);
    Ok(())
}

/// What comes of a join: what is left and what is returned.
pub open spec fn join_wheel_outcome(
    before: JoinWheel,
    now: i64,
    after: JoinWheel,
    receipt: Result<JoinReceipt, ErrorCode>,
) -> bool {
    match join_wheel_error(before.registry, before.wheel.wheel@, before.participant.key) {
        Some(error) => receipt == Err::<JoinReceipt, ErrorCode>(error) && after == before,
        None => {
            let wheel = before.wheel.wheel@;
            &&& receipt is Ok
            &&& is_system_transfer(
                receipt->Ok_0.instruction,
                before.participant.key,
                before.registry.treasury,
                wheel.entry_fee,
            )
            &&& receipt->Ok_0.event == (ParticipantJoined {
                wheel_id: wheel.id,
                participant: before.participant.key,
                element: seat_element(wheel.participants.len()),
                entry_fee: wheel.entry_fee,
                participant_count: (wheel.participants.len() + 1) as u8,
            })
            &&& after.wheel.wheel@ == joined(wheel, before.participant.key, now)
            &&& after.wheel.key == before.wheel.key
            &&& after.participant == before.participant
            &&& after.registry == before.registry
            &&& after.treasury == before.treasury
        },
    }
}

/// Seats a participant who is not on the wheel yet and tells how the entry fee
/// is to be paid, which goes to the treasury.
pub fn join_wheel(ctx: &mut JoinWheel, now: i64) -> (receipt: Result<JoinReceipt, ErrorCode>)
    ensures
        join_wheel_outcome(*old(ctx), now, *final(ctx), receipt),
{
    if ctx.registry.paused {
        return Err(ErrorCode::ProtocolPaused);
    }
    if ctx.wheel.wheel.status != WheelStatus::Open {
        return Err(ErrorCode::WheelNotOpen);
    }
    let current_count: usize = ctx.wheel.wheel.participants.len();
    if current_count >= WHEEL_SEATS {
        return Err(ErrorCode::WheelFull);
    }
    if is_seated(&ctx.wheel.wheel.participants, ctx.participant.key) {
        return Err(ErrorCode::AlreadyJoined);
    }
    let expected_fee: u64 = ctx.wheel.wheel.entry_fee;
    let element = if current_count < 8 {
        Element::Earth
    } else if current_count < 12 {
        Element::Air
    } else if current_count < 14 {
        Element::Fire
    } else {
        Element::Water
    };
    let total_pool: u64 = match ctx.wheel.wheel.total_pool.checked_add(expected_fee) {
        None => {
            return Err(ErrorCode::Overflow);
        },
        Some(total_pool) => total_pool,
    };
    let instruction = system_transfer(ctx.participant.key, ctx.registry.treasury, expected_fee);
    assert(now as u32 == now % 0x1_0000_0000) by (bit_vector);
    ctx.wheel.wheel.participants.push(
        CompactParticipant {
            pubkey: ctx.participant.key,
            element,
            joined_at: #[verifier::truncate]
            (now as u32),
        },
    );
    ctx.wheel.wheel.total_pool = total_pool;
    if ctx.wheel.wheel.participants.len() == WHEEL_SEATS {
        ctx.wheel.wheel.status = WheelStatus::Full;
    }
    Ok(
        JoinReceipt {
            instruction,
            event: ParticipantJoined {
                wheel_id: ctx.wheel.wheel.id,
                participant: ctx.participant.key,
                element,
                entry_fee: expected_fee,
                participant_count: ctx.wheel.wheel.participants.len() as u8,
            },
        },
    )
}

} // verus!
