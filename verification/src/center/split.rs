//! The last join of a wheel and its split in two.
use super::accounts::{JoinAndSplit, SplitWheel};
use super::error::ErrorCode;
use super::state::{
    CompactParticipant, Element, ParticipantJoined, Registry, Wheel, WheelAccount, WheelAutoSplit,
    WheelSplit, WheelStatus, WheelView, WHEEL_SEATS,
};
use crate::ledger::LamportMove;
use crate::pool::{pool_shares, share_pool, PoolShares, ShareError};
use crate::pubkey::Pubkey;
use crate::transfer::{is_system_transfer, system_transfer, Instruction};
use vstd::prelude::*;

verus! {

/// The last join of a wheel, accepted and waiting for its entry fee to be paid.
#[derive(Clone, Debug, PartialEq, Eq)]
pub struct PendingSplit {
    /// The payment of the entry fee, to be made before the wheel is split.
    pub instruction: Instruction,
    pub center_winner: Pubkey,
    pub element: Element,
    pub entry_fee: u64,
    pub left_id: u64,
    pub right_id: u64,
}

/// What follows from the split of a wheel by its last join: the lamports to be
/// moved, in turn, and what is told of it, the join first.
#[derive(Clone, Debug, PartialEq, Eq)]
pub struct AutoSplitReceipt {
    pub moves: Vec<LamportMove>,
    pub joined: ParticipantJoined,
    pub split: WheelAutoSplit,
}

/// What follows from the split of a full wheel.
#[derive(Clone, Debug, PartialEq, Eq)]
pub struct SplitReceipt {
    pub moves: Vec<LamportMove>,
    pub event: WheelSplit,
}

/// The number, at most `bound`, nearest to `n`.
pub open spec fn at_most(n: int, bound: int) -> int {
    if n <= bound {
        n
    } else {
        bound
    }
}

/// The first seat, whose owner has won, is left out. The next seven go to the
/// left wheel, the last seven to the right one.
pub open spec fn redistributed(
    participants: Seq<CompactParticipant>,
    is_left: bool,
) -> Seq<CompactParticipant> {
    let len = participants.len() as int;
    if is_left {
        participants.subrange(at_most(1, len), at_most(8, len))
    } else {
        participants.subrange(at_most(8, len), at_most(15, len))
    }
}

/// The wheel that a split leaves in one of its two places: open, of the same
/// tier, a generation on, with half the other participants and an empty pool.
pub open spec fn child_wheel(
    wheel_id: u64,
    parent_key: Pubkey,
    parent: WheelView,
    is_left: bool,
    now: i64,
) -> WheelView {
    WheelView {
        id: wheel_id,
        parent: Some(parent_key),
        children: seq![None, None],
        participants: redistributed(parent.participants, is_left),
        status: WheelStatus::Open,
        entry_fee: parent.entry_fee,
        total_pool: 0,
        generation: (parent.generation + 1) as u32,
        created_at: now,
        paid_out: false,
        tier: parent.tier,
    }
}

/// What is wrong with the place of a child: it is taken, or the generations
/// cannot be counted.
pub open spec fn child_error(place: WheelView, parent: WheelView) -> Option<ErrorCode> {
    if place.id != 0 {
        Some(ErrorCode::WheelAlreadyInitialized)
    } else if parent.generation == u32::MAX {
        Some(ErrorCode::Overflow)
    } else {
        None
    }
}

/// What is wrong with the places of both children, the left one first.
pub open spec fn children_error(
    left: WheelView,
    right: WheelView,
    parent: WheelView,
) -> Option<ErrorCode> {
    match child_error(left, parent) {
        Some(error) => Some(error),
        None => child_error(right, parent),
    }
}

/// What is wrong with the ids asked for: they have to be the next two.
pub open spec fn child_ids_error(registry: Registry, left_id: u64, right_id: u64) -> Option<
    ErrorCode,
> {
    if left_id != registry.wheel_count {
        Some(ErrorCode::StaleWheelIds)
    } else if registry.wheel_count == u64::MAX {
        Some(ErrorCode::Overflow)
    } else if right_id != registry.wheel_count + 1 {
        Some(ErrorCode::StaleWheelIds)
    } else {
        None
    }
}

/// How the errors of sharing are reported.
pub open spec fn share_error_code(error: ShareError) -> ErrorCode {
    match error {
        ShareError::Overflow => ErrorCode::Overflow,
        ShareError::Underflow => ErrorCode::Underflow,
    }
}

/// The element of the last seat, the next in the cycle of four.
pub open spec fn cycle_element(seat: nat) -> Element {
    if seat % 4 == 0 {
        Element::Earth
    } else if seat % 4 == 1 {
        Element::Air
    } else if seat % 4 == 2 {
        Element::Fire
    } else {
        Element::Water
    }
}

/// A wheel after its last join.
pub open spec fn filled(wheel: WheelView, participant: Pubkey) -> WheelView {
    WheelView {
        participants: wheel.participants.push(
            CompactParticipant {
                pubkey: participant,
                element: cycle_element(wheel.participants.len()),
            },
        ),
        total_pool: (wheel.total_pool + wheel.entry_fee) as u64,
        status: WheelStatus::Full,
        ..wheel
    }
}

/// A wheel after its split.
pub open spec fn split_parent(wheel: WheelView, left: Pubkey, right: Pubkey) -> WheelView {
    WheelView {
        paid_out: true,
        status: WheelStatus::Split,
        children: seq![Some(left), Some(right)],
        ..wheel
    }
}

/// A registry after the split of a wheel, which makes two more.
pub open spec fn counted_two_more(registry: Registry) -> Registry {
    Registry { wheel_count: (registry.wheel_count + 2) as u64, ..registry }
}

/// Why the last join of a wheel is refused.
pub open spec fn join_and_split_error(
    registry: Registry,
    wheel: WheelView,
    center_winner: Pubkey,
    left_id: u64,
    right_id: u64,
) -> Option<ErrorCode> {
    if registry.paused {
        Some(ErrorCode::ProtocolPaused)
    } else if wheel.status == WheelStatus::Refunded {
        Some(ErrorCode::WheelRefunded)
    } else if child_ids_error(registry, left_id, right_id) is Some {
        child_ids_error(registry, left_id, right_id)
    } else if wheel.status != WheelStatus::Open {
        Some(ErrorCode::WheelNotOpen)
    } else if wheel.participants.len() != WHEEL_SEATS - 1 {
        Some(ErrorCode::NotFinalParticipant)
    } else if center_winner != wheel.participants[0].pubkey {
        Some(ErrorCode::InvalidCenterWinner)
    } else if wheel.total_pool + wheel.entry_fee > u64::MAX {
        Some(ErrorCode::Overflow)
    } else {
        None
    }
}

/// What is left of the pool once the rent of both children, each that of the
/// left one, is given back.
pub open spec fn distributable(pool: u64, child_rent: u64) -> u64 {
    (pool - 2 * child_rent) as u64
}

/// Why a wheel that has just been filled cannot be split.
pub open spec fn settle_error(
    registry: Registry,
    wheel: WheelView,
    wheel_lamports: u64,
    left: WheelView,
    child_rent: u64,
    right: WheelView,
) -> Option<ErrorCode> {
    if 2 * child_rent > u64::MAX {
        Some(ErrorCode::Overflow)
    } else if wheel.paid_out {
        Some(ErrorCode::AlreadyPaidOut)
    } else if 2 * child_rent > wheel.total_pool {
        Some(ErrorCode::Underflow)
    } else {
        match pool_shares(
            distributable(wheel.total_pool, child_rent),
            registry.commission_rate,
        ) {
            Err(error) => Some(share_error_code(error)),
            Ok(_) => if wheel_lamports < wheel.total_pool {
                Some(ErrorCode::InsufficientTreasuryBalance)
            } else if children_error(left, right, wheel) is Some {
                children_error(left, right, wheel)
            } else if registry.wheel_count + 2 > u64::MAX {
                Some(ErrorCode::Overflow)
            } else {
                None
            },
        }
    }
}

/// The payments of a wheel that splits by its last join: the winner, the
/// commission, and the rent of the children back to the last participant.
pub open spec fn settle_moves(
    wheel: Pubkey,
    center_winner: Pubkey,
    commission_wallet: Pubkey,
    participant: Pubkey,
    shares: PoolShares,
    child_rent: u64,
) -> Seq<LamportMove> {
    seq![
        LamportMove { from: wheel, to: center_winner, lamports: shares.payout },
        LamportMove { from: wheel, to: commission_wallet, lamports: shares.commission },
        LamportMove { from: wheel, to: participant, lamports: (2 * child_rent) as u64 },
    ]
}

/// Why a full wheel cannot be split.
pub open spec fn split_wheel_error(
    registry: Registry,
    wheel: WheelView,
    wheel_lamports: u64,
    left: WheelView,
    right: WheelView,
    center_winner: Pubkey,
    left_id: u64,
    right_id: u64,
) -> Option<ErrorCode> {
    if registry.paused {
        Some(ErrorCode::ProtocolPaused)
    } else if child_ids_error(registry, left_id, right_id) is Some {
        child_ids_error(registry, left_id, right_id)
    } else if wheel.paid_out {
        Some(ErrorCode::AlreadyPaidOut)
    } else if wheel.status != WheelStatus::Full {
        Some(ErrorCode::WheelNotFull)
    } else if wheel.participants.len() != WHEEL_SEATS {
        Some(ErrorCode::InvalidParticipantCount)
    } else if center_winner != wheel.participants[0].pubkey {
        Some(ErrorCode::InvalidCenterWinner)
    } else {
        match pool_shares(wheel.total_pool, registry.commission_rate) {
            Err(error) => Some(share_error_code(error)),
            Ok(_) => if wheel_lamports < wheel.total_pool {
                Some(ErrorCode::InsufficientTreasuryBalance)
            } else if children_error(left, right, wheel) is Some {
                children_error(left, right, wheel)
            } else if registry.wheel_count + 2 > u64::MAX {
                Some(ErrorCode::Overflow)
            } else {
                None
            },
        }
    }
}

/// The payments of a full wheel that splits: the winner and the commission.
pub open spec fn split_moves(
    wheel: Pubkey,
    center_winner: Pubkey,
    commission_wallet: Pubkey,
    shares: PoolShares,
) -> Seq<LamportMove> {
    seq![
        LamportMove { from: wheel, to: center_winner, lamports: shares.payout },
        LamportMove { from: wheel, to: commission_wallet, lamports: shares.commission },
    ]
}

/// Reports an error of sharing.
fn report_share_error(error: ShareError) -> (code: ErrorCode)
    ensures
        code == share_error_code(error),
{
    match error {
        ShareError::Overflow => ErrorCode::Overflow,
        ShareError::Underflow => ErrorCode::Underflow,
    }
}

/// Checks that the ids asked for are the next two.
fn check_child_ids(registry: &Registry, left_id: u64, right_id: u64) -> (checked: Result<
    (),
    ErrorCode,
>)
    ensures
        match child_ids_error(*registry, left_id, right_id) {
            Some(error) => checked == Err::<(), ErrorCode>(error),
            None => checked is Ok,
        },
{
    if left_id != registry.wheel_count {
        return Err(ErrorCode::StaleWheelIds);
    }
    match registry.wheel_count.checked_add(1) {
        None => Err(ErrorCode::Overflow),
        Some(next) => {
            if right_id != next {
                Err(ErrorCode::StaleWheelIds)
            } else {
                Ok(())
            }
        },
    }
}

/// What comes of making a child: what is left and what is returned.
pub open spec fn initialize_child_wheel_center_wins_outcome(
    place: Wheel,
    wheel_id: u64,
    parent: WheelAccount,
    is_left: bool,
    now: i64,
    child: Result<Wheel, ErrorCode>,
) -> bool {
    match child_error(place@, parent.wheel@) {
        Some(error) => child == Err::<Wheel, ErrorCode>(error),
        None => child is Ok && child->Ok_0@ == child_wheel(
            wheel_id,
            parent.key,
            parent.wheel@,
            is_left,
            now,
        ),
    }
}

/// The content of one of the two wheels that a split leaves, for the place that
/// it is to take.
pub fn initialize_child_wheel_center_wins(
    place: &Wheel,
    wheel_id: u64,
    parent: &WheelAccount,
    is_left: bool,
    now: i64,
) -> (child: Result<Wheel, ErrorCode>)
    ensures
        initialize_child_wheel_center_wins_outcome(*place, wheel_id, *parent, is_left, now, child),
{
    if place.id != 0 {
        return Err(ErrorCode::WheelAlreadyInitialized);
    }
    let generation: u32 = match parent.wheel.generation.checked_add(1) {
        None => {
            return Err(ErrorCode::Overflow);
        },
        Some(generation) => generation,
    };
    let start: usize = if is_left {
        1
    } else {
        8
    };
    let end: usize = if is_left {
        8
    } else {
        15
    };
    let ghost seats = parent.wheel.participants@;
    let mut participants: Vec<CompactParticipant> = Vec::with_capacity(7);
    let mut i: usize = start;
    assert(participants@ =~= seats.subrange(
        at_most(start as int, seats.len() as int),
        at_most(start as int, seats.len() as int),
    ));
    while i < end
        invariant
            start <= i <= end <= 15,
            seats == parent.wheel.participants@,
            participants@ == seats.subrange(
                at_most(start as int, seats.len() as int),
                at_most(i as int, seats.len() as int),
            ),
        decreases end - i,
    {
        if i < parent.wheel.participants.len() {
            participants.push(parent.wheel.participants[i]);
        }
        i = i + 1;
        assert(participants@ =~= seats.subrange(
            at_most(start as int, seats.len() as int),
            at_most(i as int, seats.len() as int),
        ));
    }
    let child = Wheel {
        id: wheel_id,
        parent: Some(parent.key),
        children: [None, None],
        participants,
        status: WheelStatus::Open,
        entry_fee: parent.wheel.entry_fee,
        total_pool: 0,
        generation,
        created_at: now,
        paid_out: false,
        tier: parent.wheel.tier,
    };
    assert(child@.children =~= seq![None, None]);
    Ok(child)
}

/// What comes of a last join: what is left and what is returned.
pub open spec fn join_and_split_outcome(
    before: JoinAndSplit,
    left_id: u64,
    right_id: u64,
    after: JoinAndSplit,
    pending: Result<PendingSplit, ErrorCode>,
) -> bool {
    match join_and_split_error(
        before.registry,
        before.wheel.wheel@,
        before.center_winner,
        left_id,
        right_id,
    ) {
        Some(error) => pending == Err::<PendingSplit, ErrorCode>(error) && after == before,
        None => {
            &&& pending is Ok
            &&& is_system_transfer(
                pending->Ok_0.instruction,
                before.participant.key,
                before.wheel.key,
                before.wheel.wheel.entry_fee,
            )
            &&& pending->Ok_0.center_winner == before.center_winner
            &&& pending->Ok_0.element == Element::Fire
            &&& pending->Ok_0.entry_fee == before.wheel.wheel.entry_fee
            &&& pending->Ok_0.left_id == left_id
            &&& pending->Ok_0.right_id == right_id
            &&& after.wheel.wheel@ == filled(
                before.wheel.wheel@,
                before.participant.key,
            )
            &&& after.wheel.key == before.wheel.key
            &&& after.wheel.lamports == before.wheel.lamports
            &&& after.participant == before.participant
            &&& after.registry == before.registry
            &&& after.treasury == before.treasury
            &&& after.commission_wallet == before.commission_wallet
            &&& after.center_winner == before.center_winner
            &&& after.left_wheel == before.left_wheel
            &&& after.right_wheel == before.right_wheel
        },
    }
}

/// Seats the last participant of a wheel and tells how the entry fee is to be
/// paid. Once it is, [`settle_join_and_split`] splits the wheel.
pub fn join_and_split(ctx: &mut JoinAndSplit, left_id: u64, right_id: u64) -> (pending: Result<
    PendingSplit,
    ErrorCode,
>)
    ensures
        join_and_split_outcome(*old(ctx), left_id, right_id, *final(ctx), pending),
{
    if ctx.registry.paused {
        return Err(ErrorCode::ProtocolPaused);
    }
    if ctx.wheel.wheel.status == WheelStatus::Refunded {
        return Err(ErrorCode::WheelRefunded);
    }
    match check_child_ids(&ctx.registry, left_id, right_id) {
        Err(error) => {
            return Err(error);
        },
        Ok(()) => {},
    }
    if ctx.wheel.wheel.status != WheelStatus::Open {
        return Err(ErrorCode::WheelNotOpen);
    }
    let current_count: usize = ctx.wheel.wheel.participants.len();
    if current_count != WHEEL_SEATS - 1 {
        return Err(ErrorCode::NotFinalParticipant);
    }
    let expected_fee: u64 = ctx.wheel.wheel.entry_fee;
    let element = match current_count % 4 {
        0 => Element::Earth,
        1 => Element::Air,
        2 => Element::Fire,
        _ => Element::Water,
    };
    let center_winner = ctx.wheel.wheel.participants[0].pubkey;
    if ctx.center_winner != center_winner {
        return Err(ErrorCode::InvalidCenterWinner);
    }
    let total_pool: u64 = match ctx.wheel.wheel.total_pool.checked_add(expected_fee) {
        None => {
            return Err(ErrorCode::Overflow);
        },
        Some(total_pool) => total_pool,
    };
    let instruction = system_transfer(ctx.participant.key, ctx.wheel.key, expected_fee);
    ctx.wheel.wheel.participants.push(CompactParticipant { pubkey: ctx.participant.key, element });
    ctx.wheel.wheel.total_pool = total_pool;
    ctx.wheel.wheel.status = WheelStatus::Full;
    Ok(
        PendingSplit {
            instruction,
            center_winner,
            element,
            entry_fee: expected_fee,
            left_id,
            right_id,
        },
    )
}

/// What comes of a split by a last join: what is left and what is returned.
pub open spec fn settle_join_and_split_outcome(
    before: JoinAndSplit,
    pending: PendingSplit,
    now: i64,
    after: JoinAndSplit,
    receipt: Result<AutoSplitReceipt, ErrorCode>,
) -> bool {
    match settle_error(
        before.registry,
        before.wheel.wheel@,
        before.wheel.lamports,
        before.left_wheel.wheel@,
        before.left_wheel.lamports,
        before.right_wheel.wheel@,
    ) {
        Some(error) => receipt == Err::<AutoSplitReceipt, ErrorCode>(error) && after == before,
        None => {
            let parent = before.wheel.wheel@;
            let rent = before.left_wheel.lamports;
            let shares = pool_shares(
                distributable(parent.total_pool, rent),
                before.registry.commission_rate,
            )->Ok_0;
            &&& receipt is Ok
            &&& receipt->Ok_0.moves@ == settle_moves(
                before.wheel.key,
                before.center_winner,
                before.commission_wallet,
                before.participant.key,
                shares,
                rent,
            )
            &&& receipt->Ok_0.joined == (ParticipantJoined {
                wheel_id: parent.id,
                participant: before.participant.key,
                element: pending.element,
                entry_fee: pending.entry_fee,
                participant_count: 15,
            })
            &&& receipt->Ok_0.split == (WheelAutoSplit {
                parent_wheel_id: parent.id,
                left_wheel_id: pending.left_id,
                right_wheel_id: pending.right_id,
                center_winner: pending.center_winner,
                payout_amount: shares.payout,
                commission_amount: shares.commission,
                timestamp: now,
            })
            &&& after.wheel.wheel@ == split_parent(
                parent,
                before.left_wheel.key,
                before.right_wheel.key,
            )
            &&& after.left_wheel.wheel@ == child_wheel(
                pending.left_id,
                before.wheel.key,
                parent,
                true,
                now,
            )
            &&& after.right_wheel.wheel@ == child_wheel(
                pending.right_id,
                before.wheel.key,
                parent,
                false,
                now,
            )
            &&& after.registry == counted_two_more(before.registry)
            &&& after.wheel.key == before.wheel.key
            &&& after.wheel.lamports == before.wheel.lamports
            &&& after.left_wheel.key == before.left_wheel.key
            &&& after.left_wheel.lamports == before.left_wheel.lamports
            &&& after.right_wheel.key == before.right_wheel.key
            &&& after.right_wheel.lamports == before.right_wheel.lamports
            &&& after.participant == before.participant
            &&& after.treasury == before.treasury
            &&& after.commission_wallet == before.commission_wallet
            &&& after.center_winner == before.center_winner
        },
    }
}

/// Splits a wheel whose last participant has joined and paid: the winner and the
/// commission are paid, the last participant gets the rent of the two new wheels
/// back, and the others are seated on these.
///
/// The balances in `ctx` are those after the payment of the entry fee.
pub fn settle_join_and_split(ctx: &mut JoinAndSplit, pending: &PendingSplit, now: i64) -> (receipt:
    Result<AutoSplitReceipt, ErrorCode>)
    ensures
        settle_join_and_split_outcome(*old(ctx), *pending, now, *final(ctx), receipt),
{
    let child_wheel_rent: u64 = ctx.left_wheel.lamports;
    let total_child_rent: u64 = match child_wheel_rent.checked_mul(2) {
        None => {
            return Err(ErrorCode::Overflow);
        },
        Some(rent) => rent,
    };
    if ctx.wheel.wheel.paid_out {
        return Err(ErrorCode::AlreadyPaidOut);
    }
    let total_pool: u64 = ctx.wheel.wheel.total_pool;
    let distributable_pool: u64 = match total_pool.checked_sub(total_child_rent) {
        None => {
            return Err(ErrorCode::Underflow);
        },
        Some(pool) => pool,
    };
    let shares = match share_pool(distributable_pool, ctx.registry.commission_rate) {
        Err(error) => {
            return Err(report_share_error(error));
        },
        Ok(shares) => shares,
    };
    if ctx.wheel.lamports < total_pool {
        return Err(ErrorCode::InsufficientTreasuryBalance);
    }
    let left = match initialize_child_wheel_center_wins(
        &ctx.left_wheel.wheel,
        pending.left_id,
        &ctx.wheel,
        true,
        now,
    ) {
        Err(error) => {
            return Err(error);
        },
        Ok(left) => left,
    };
    let right = match initialize_child_wheel_center_wins(
        &ctx.right_wheel.wheel,
        pending.right_id,
        &ctx.wheel,
        false,
        now,
    ) {
        Err(error) => {
            return Err(error);
        },
        Ok(right) => right,
    };
    let wheel_count: u64 = match ctx.registry.wheel_count.checked_add(2) {
        None => {
            return Err(ErrorCode::Overflow);
        },
        Some(count) => count,
    };
    let mut moves: Vec<LamportMove> = Vec::new();
    moves.push(
        LamportMove { from: ctx.wheel.key, to: ctx.center_winner, lamports: shares.payout },
    );
    moves.push(
        LamportMove { from: ctx.wheel.key, to: ctx.commission_wallet, lamports: shares.commission },
    );
    moves.push(
        LamportMove { from: ctx.wheel.key, to: ctx.participant.key, lamports: total_child_rent },
    );
    assert(moves@ =~= settle_moves(
        ctx.wheel.key,
        ctx.center_winner,
        ctx.commission_wallet,
        ctx.participant.key,
        shares,
        child_wheel_rent,
    ));
    let wheel_id: u64 = ctx.wheel.wheel.id;
    ctx.wheel.wheel.paid_out = true;
    ctx.wheel.wheel.status = WheelStatus::Split;
    ctx.wheel.wheel.children = [Some(ctx.left_wheel.key), Some(ctx.right_wheel.key)];
    ctx.left_wheel.wheel = left;
    ctx.right_wheel.wheel = right;
    ctx.registry.wheel_count = wheel_count;
    assert(ctx.wheel.wheel.children@ =~= seq![Some(ctx.left_wheel.key), Some(ctx.right_wheel.key)]);
    Ok(
        AutoSplitReceipt {
            moves,
            joined: ParticipantJoined {
                wheel_id,
                participant: ctx.participant.key,
                element: pending.element,
                entry_fee: pending.entry_fee,
                participant_count: 15,
            },
            split: WheelAutoSplit {
                parent_wheel_id: wheel_id,
                left_wheel_id: pending.left_id,
                right_wheel_id: pending.right_id,
                center_winner: pending.center_winner,
                payout_amount: shares.payout,
                commission_amount: shares.commission,
                timestamp: now,
            },
        },
    )
}

/// What comes of a split on request: what is left and what is returned.
pub open spec fn split_wheel_outcome(
    before: SplitWheel,
    left_id: u64,
    right_id: u64,
    now: i64,
    after: SplitWheel,
    receipt: Result<SplitReceipt, ErrorCode>,
) -> bool {
    match split_wheel_error(
        before.registry,
        before.parent_wheel.wheel@,
        before.parent_wheel.lamports,
        before.left_wheel.wheel@,
        before.right_wheel.wheel@,
        before.center_winner,
        left_id,
        right_id,
    ) {
        Some(error) => receipt == Err::<SplitReceipt, ErrorCode>(error) && after == before,
        None => {
            let parent = before.parent_wheel.wheel@;
            let shares = pool_shares(
                parent.total_pool,
                before.registry.commission_rate,
            )->Ok_0;
            &&& receipt is Ok
            &&& receipt->Ok_0.moves@ == split_moves(
                before.parent_wheel.key,
                before.center_winner,
                before.commission_wallet,
                shares,
            )
            &&& receipt->Ok_0.event == (WheelSplit {
                parent_wheel_id: parent.id,
                left_wheel_id: left_id,
                right_wheel_id: right_id,
                center_winner: before.center_winner,
                payout_amount: shares.payout,
                commission_amount: shares.commission,
                timestamp: now,
            })
            &&& after.parent_wheel.wheel@ == split_parent(
                parent,
                before.left_wheel.key,
                before.right_wheel.key,
            )
            &&& after.left_wheel.wheel@ == child_wheel(
                left_id,
                before.parent_wheel.key,
                parent,
                true,
                now,
            )
            &&& after.right_wheel.wheel@ == child_wheel(
                right_id,
                before.parent_wheel.key,
                parent,
                false,
                now,
            )
            &&& after.registry == counted_two_more(before.registry)
            &&& after.parent_wheel.key == before.parent_wheel.key
            &&& after.parent_wheel.lamports == before.parent_wheel.lamports
            &&& after.left_wheel.key == before.left_wheel.key
            &&& after.left_wheel.lamports == before.left_wheel.lamports
            &&& after.right_wheel.key == before.right_wheel.key
            &&& after.right_wheel.lamports == before.right_wheel.lamports
            &&& after.authority == before.authority
            &&& after.treasury == before.treasury
            &&& after.commission_wallet == before.commission_wallet
            &&& after.center_winner == before.center_winner
        },
    }
}

/// Splits a full wheel: the winner and the commission are paid, and the others
/// are seated on two new wheels.
pub fn split_wheel(ctx: &mut SplitWheel, left_id: u64, right_id: u64, now: i64) -> (receipt: Result<
    SplitReceipt,
    ErrorCode,
>)
    ensures
        split_wheel_outcome(*old(ctx), left_id, right_id, now, *final(ctx), receipt),
{
    if ctx.registry.paused {
        return Err(ErrorCode::ProtocolPaused);
    }
    match check_child_ids(&ctx.registry, left_id, right_id) {
        Err(error) => {
            return Err(error);
        },
        Ok(()) => {},
    }
    if ctx.parent_wheel.wheel.paid_out {
        return Err(ErrorCode::AlreadyPaidOut);
    }
    if ctx.parent_wheel.wheel.status != WheelStatus::Full {
        return Err(ErrorCode::WheelNotFull);
    }
    if ctx.parent_wheel.wheel.participants.len() != WHEEL_SEATS {
        return Err(ErrorCode::InvalidParticipantCount);
    }
    let center_winner = ctx.parent_wheel.wheel.participants[0].pubkey;
    if ctx.center_winner != center_winner {
        return Err(ErrorCode::InvalidCenterWinner);
    }
    let total_pool: u64 = ctx.parent_wheel.wheel.total_pool;
    let shares = match share_pool(total_pool, ctx.registry.commission_rate) {
        Err(error) => {
            return Err(report_share_error(error));
        },
        Ok(shares) => shares,
    };
    if ctx.parent_wheel.lamports < total_pool {
        return Err(ErrorCode::InsufficientTreasuryBalance);
    }
    let left = match initialize_child_wheel_center_wins(
        &ctx.left_wheel.wheel,
        left_id,
        &ctx.parent_wheel,
        true,
        now,
    ) {
        Err(error) => {
            return Err(error);
        },
        Ok(left) => left,
    };
    let right = match initialize_child_wheel_center_wins(
        &ctx.right_wheel.wheel,
        right_id,
        &ctx.parent_wheel,
        false,
        now,
    ) {
        Err(error) => {
            return Err(error);
        },
        Ok(right) => right,
    };
    let wheel_count: u64 = match ctx.registry.wheel_count.checked_add(2) {
        None => {
            return Err(ErrorCode::Overflow);
        },
        Some(count) => count,
    };
    let mut moves: Vec<LamportMove> = Vec::new();
    moves.push(
        LamportMove { from: ctx.parent_wheel.key, to: center_winner, lamports: shares.payout },
    );
    moves.push(
        LamportMove {
            from: ctx.parent_wheel.key,
            to: ctx.commission_wallet,
            lamports: shares.commission,
        },
    );
    assert(moves@ =~= split_moves(
        ctx.parent_wheel.key,
        center_winner,
        ctx.commission_wallet,
        shares,
    ));
    let wheel_id: u64 = ctx.parent_wheel.wheel.id;
    ctx.parent_wheel.wheel.paid_out = true;
    ctx.parent_wheel.wheel.status = WheelStatus::Split;
    ctx.parent_wheel.wheel.children = [Some(ctx.left_wheel.key), Some(ctx.right_wheel.key)];
    ctx.left_wheel.wheel = left;
    ctx.right_wheel.wheel = right;
    ctx.registry.wheel_count = wheel_count;
    assert(ctx.parent_wheel.wheel.children@ =~= seq![
        Some(ctx.left_wheel.key),
        Some(ctx.right_wheel.key),
    ]);
    Ok(
        SplitReceipt {
            moves,
            event: WheelSplit {
                parent_wheel_id: wheel_id,
                left_wheel_id: left_id,
                right_wheel_id: right_id,
                center_winner,
                payout_amount: shares.payout,
                commission_amount: shares.commission,
                timestamp: now,
            },
        },
    )
}

} // verus!
