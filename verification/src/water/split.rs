//! The split of a full wheel in two.
use super::accounts::SplitWheel;
use super::error::ErrorCode;
use super::state::{
    is_seated, seated, CompactParticipant, Element, Registry, Wheel, WheelAccount, WheelSplit,
    WheelStatus, WheelView, WHEEL_SEATS,
};
use crate::ledger::LamportMove;
use crate::pool::{pool_shares, share_pool, PoolShares, ShareError};
use crate::pubkey::Pubkey;
use vstd::prelude::*;

verus! {

/// What follows from the split of a wheel: the lamports to be moved and what is
/// told of it.
#[derive(Clone, Debug, PartialEq, Eq)]
pub struct SplitReceipt {
    pub moves: Vec<LamportMove>,
    pub event: WheelSplit,
}

/// The seats of a new wheel with one more, taken by the participant on the given
/// seat of the old one, or what is wrong with it: there is no such seat, or its
/// owner is on the new wheel already.
pub open spec fn reseated_one(
    seats: Seq<CompactParticipant>,
    participants: Seq<CompactParticipant>,
    index: usize,
    element: Element,
) -> Result<Seq<CompactParticipant>, ErrorCode> {
    if index >= participants.len() {
        Err(ErrorCode::InvalidIndex)
    } else if seated(seats, participants[index as int].pubkey) {
        Err(ErrorCode::DuplicateParticipant)
    } else {
        Ok(seats.push(CompactParticipant { element, ..participants[index as int] }))
    }
}

/// The seats of a new wheel with one more for each of the given seats of the old
/// one, in turn, or what is wrong with the first that cannot be taken over.
pub open spec fn reseated(
    seats: Seq<CompactParticipant>,
    participants: Seq<CompactParticipant>,
    indices: Seq<usize>,
    element: Element,
) -> Result<Seq<CompactParticipant>, ErrorCode>
    decreases indices.len(),
{
    if indices.len() == 0 {
        Ok(seats)
    } else {
        match reseated(seats, participants, indices.drop_last(), element) {
            Ok(before) => reseated_one(before, participants, indices.last(), element),
            Err(error) => Err(error),
        }
    }
}

/// The seats of a new wheel once as many of the given seats of the old one were
/// taken over, in turn, as could be: all of them, or those before the first that
/// cannot.
pub open spec fn reseated_so_far(
    seats: Seq<CompactParticipant>,
    participants: Seq<CompactParticipant>,
    indices: Seq<usize>,
    element: Element,
) -> Seq<CompactParticipant>
    decreases indices.len(),
{
    if indices.len() == 0 {
        seats
    } else {
        match reseated(seats, participants, indices, element) {
            Ok(all) => all,
            Err(_) => reseated_so_far(seats, participants, indices.drop_last(), element),
        }
    }
}

/// The seats that move from earth to air.
pub open spec fn air_seats(is_left: bool) -> Seq<usize> {
    if is_left {
        seq![0usize, 1usize, 2usize, 3usize]
    } else {
        seq![4usize, 5usize, 6usize, 7usize]
    }
}

/// The seats that move from air to fire.
pub open spec fn fire_seats(is_left: bool) -> Seq<usize> {
    if is_left {
        seq![8usize, 9usize]
    } else {
        seq![10usize, 11usize]
    }
}

/// The seat that moves from fire to water.
pub open spec fn water_seats(is_left: bool) -> Seq<usize> {
    if is_left {
        seq![12usize]
    } else {
        seq![13usize]
    }
}

/// The seats of a child: half of earth, half of air and half of fire, each moved
/// one element on.
pub open spec fn child_seats(participants: Seq<CompactParticipant>, is_left: bool) -> Result<
    Seq<CompactParticipant>,
    ErrorCode,
> {
    match reseated(Seq::empty(), participants, air_seats(is_left), Element::Air) {
        Err(error) => Err(error),
        Ok(air) => match reseated(air, participants, fire_seats(is_left), Element::Fire) {
            Err(error) => Err(error),
            Ok(fire) => reseated(fire, participants, water_seats(is_left), Element::Water),
        },
    }
}

/// The wheel that a split leaves in one of its two places: open, with the same
/// fee, a generation on, with the given seats and an empty pool.
pub open spec fn child_wheel(
    wheel_id: u64,
    parent_key: Pubkey,
    parent: WheelView,
    seats: Seq<CompactParticipant>,
    now: i64,
) -> WheelView {
    WheelView {
        id: wheel_id,
        parent: Some(parent_key),
        children: seq![None, None],
        participants: seats,
        status: WheelStatus::Open,
        entry_fee: parent.entry_fee,
        total_pool: 0,
        generation: (parent.generation + 1) as u32,
        created_at: now,
        paid_out: false,
    }
}

/// What is wrong with a child: its place is taken, the generations cannot be
/// counted, or its seats cannot be filled.
pub open spec fn child_error(place: WheelView, parent: WheelView, is_left: bool) -> Option<
    ErrorCode,
> {
    if place.id != 0 {
        Some(ErrorCode::WheelAlreadyInitialized)
    } else if parent.generation == u32::MAX {
        Some(ErrorCode::Overflow)
    } else {
        match child_seats(parent.participants, is_left) {
            Err(error) => Some(error),
            Ok(_) => None,
        }
    }
}

/// A wheel after its split.
pub open spec fn split_parent(wheel: WheelView, left: Pubkey, right: Pubkey) -> WheelView {
    WheelView {
        paid_out: true,
        status: WheelStatus::Split,
        children: seq![Some(left), Some(right)],
        ..wheel
    }
}

/// How the errors of sharing are reported.
pub open spec fn share_error_code(error: ShareError) -> ErrorCode {
    match error {
        ShareError::Overflow => ErrorCode::Overflow,
        ShareError::Underflow => ErrorCode::Underflow,
    }
}

/// Why a wheel cannot be split.
pub open spec fn split_wheel_error(
    registry: Registry,
    wheel: WheelView,
    left: WheelView,
    right: WheelView,
    treasury_lamports: u64,
    water_recipient: Pubkey,
) -> Option<ErrorCode> {
    if registry.paused {
        Some(ErrorCode::ProtocolPaused)
    } else if wheel.paid_out {
        Some(ErrorCode::AlreadyPaidOut)
    } else if wheel.status != WheelStatus::Full {
        Some(ErrorCode::WheelNotFull)
    } else if wheel.participants.len() != WHEEL_SEATS {
        Some(ErrorCode::InvalidParticipantCount)
    } else if wheel.participants[14].element != Element::Water {
        Some(ErrorCode::InvalidWaterParticipant)
    } else if water_recipient != wheel.participants[14].pubkey {
        Some(ErrorCode::InvalidRecipient)
    } else {
        match pool_shares(wheel.total_pool, registry.commission_rate) {
            Err(error) => Some(share_error_code(error)),
            Ok(shares) => if treasury_lamports < shares.payout {
                Some(ErrorCode::InsufficientTreasuryBalance)
            } else if child_error(left, wheel, true) is Some {
                child_error(left, wheel, true)
            } else {
                child_error(right, wheel, false)
            },
        }
    }
}

/// The payment of a wheel that splits: the treasury pays the winner and keeps the
/// commission.
pub open spec fn split_moves(treasury: Pubkey, water_recipient: Pubkey, shares: PoolShares) -> Seq<
    LamportMove,
> {
    seq![LamportMove { from: treasury, to: water_recipient, lamports: shares.payout }]
}

/// Once a seat cannot be taken over, the ones after it do not matter.
proof fn lemma_failed_seat_fails_all(
    seats: Seq<CompactParticipant>,
    participants: Seq<CompactParticipant>,
    indices: Seq<usize>,
    element: Element,
    upto: int,
)
    requires
        0 <= upto <= indices.len(),
        reseated(seats, participants, indices.take(upto), element) is Err,
    ensures
        reseated(seats, participants, indices, element) == reseated(
            seats,
            participants,
            indices.take(upto),
            element,
        ),
        reseated_so_far(seats, participants, indices, element) == reseated_so_far(
            seats,
            participants,
            indices.take(upto),
            element,
        ),
    decreases indices.len() - upto,
{
    if upto < indices.len() {
        assert(indices.take(upto + 1).drop_last() =~= indices.take(upto));
        lemma_failed_seat_fails_all(seats, participants, indices, element, upto + 1);
    } else {
        assert(indices.take(upto) =~= indices);
    }
}

/// The first seat that cannot be taken over leaves those before it.
pub(crate) proof fn lemma_first_failed_seat(
    seats: Seq<CompactParticipant>,
    participants: Seq<CompactParticipant>,
    indices: Seq<usize>,
    element: Element,
    at: int,
)
    requires
        0 <= at < indices.len(),
        reseated(seats, participants, indices.take(at), element) is Ok,
        reseated(seats, participants, indices.take(at + 1), element) is Err,
    ensures
        reseated(seats, participants, indices, element) == reseated(
            seats,
            participants,
            indices.take(at + 1),
            element,
        ),
        reseated_so_far(seats, participants, indices, element) == reseated(
            seats,
            participants,
            indices.take(at),
            element,
        )->Ok_0,
{
    reveal_with_fuel(reseated_so_far, 2);
    lemma_failed_seat_fails_all(seats, participants, indices, element, at + 1);
    assert(indices.take(at + 1).drop_last() =~= indices.take(at));
}

/// What comes of taking seats over: what is left and what is returned.
pub open spec fn add_participants_safely_outcome(
    before: Wheel,
    parent: Wheel,
    indices: Seq<usize>,
    new_element: Element,
    after: Wheel,
    added: Result<(), ErrorCode>,
) -> bool {
    &&& match reseated(before.participants@, parent.participants@, indices, new_element) {
        Err(error) => added == Err::<(), ErrorCode>(error),
        Ok(_) => added is Ok,
    }
    &&& after@ == (WheelView {
        participants: reseated_so_far(
            before.participants@,
            parent.participants@,
            indices,
            new_element,
        ),
        ..before@
    })
}

/// Adds to a new wheel the participants on the given seats of the old one, with a
/// new element. Where one of them cannot be added, those before it are.
pub fn add_participants_safely(
    wheel: &mut Wheel,
    parent: &Wheel,
    indices: &[usize],
    new_element: Element,
) -> (added: Result<(), ErrorCode>)
    ensures
        add_participants_safely_outcome(
            *old(wheel),
            *parent,
            indices@,
            new_element,
            *final(wheel),
            added,
        ),
{
    let ghost seats = wheel.participants@;
    let mut i: usize = 0;
    assert(indices@.take(0) =~= Seq::empty());
    while i < indices.len()
        invariant
            i <= indices@.len(),
            seats == old(wheel).participants@,
            wheel@ == (WheelView { participants: wheel.participants@, ..old(wheel)@ }),
            reseated(seats, parent.participants@, indices@.take(i as int), new_element) == Ok::<
                Seq<CompactParticipant>,
                ErrorCode,
            >(wheel.participants@),
        decreases indices@.len() - i,
    {
        let index: usize = indices[i];
        proof {
            assert(indices@.take(i + 1).drop_last() =~= indices@.take(i as int));
            assert(indices@.take(i + 1).last() == index);
        }
        if index >= parent.participants.len() {
            proof {
                lemma_first_failed_seat(
                    seats,
                    parent.participants@,
                    indices@,
                    new_element,
                    i as int,
                );
            }
            return Err(ErrorCode::InvalidIndex);
        }
        let mut p = parent.participants[index];
        p.element = new_element;
        if is_seated(&wheel.participants, p.pubkey) {
            proof {
                lemma_first_failed_seat(
                    seats,
                    parent.participants@,
                    indices@,
                    new_element,
                    i as int,
                );
            }
            return Err(ErrorCode::DuplicateParticipant);
        }
        wheel.participants.push(p);
        i = i + 1;
    }
    assert(indices@.take(i as int) =~= indices@);
    Ok(())
}

/// Fills the seats of a child.
fn fill_child_seats(wheel: &mut Wheel, parent: &Wheel, is_left: bool) -> (filled: Result<
    (),
    ErrorCode,
>)
    requires
        old(wheel).participants@.len() == 0,
    ensures
        match child_seats(parent.participants@, is_left) {
            Err(error) => filled == Err::<(), ErrorCode>(error),
            Ok(seats) => filled is Ok && final(wheel)@ == (WheelView {
                participants: seats,
                ..old(wheel)@
            }),
        },
{
    assert(wheel.participants@ =~= Seq::empty());
    let air = if is_left {
        let indices: [usize; 4] = [0, 1, 2, 3];
        assert(indices@ =~= air_seats(true));
        add_participants_safely(wheel, parent, &indices, Element::Air)
    } else {
        let indices: [usize; 4] = [4, 5, 6, 7];
        assert(indices@ =~= air_seats(false));
        add_participants_safely(wheel, parent, &indices, Element::Air)
    };
    match air {
        Err(error) => {
            return Err(error);
        },
        Ok(()) => {},
    }
    let fire = if is_left {
        let indices: [usize; 2] = [8, 9];
        assert(indices@ =~= fire_seats(true));
        add_participants_safely(wheel, parent, &indices, Element::Fire)
    } else {
        let indices: [usize; 2] = [10, 11];
        assert(indices@ =~= fire_seats(false));
        add_participants_safely(wheel, parent, &indices, Element::Fire)
    };
    match fire {
        Err(error) => {
            return Err(error);
        },
        Ok(()) => {},
    }
    if is_left {
        let indices: [usize; 1] = [12];
        assert(indices@ =~= water_seats(true));
        add_participants_safely(wheel, parent, &indices, Element::Water)
    } else {
        let indices: [usize; 1] = [13];
        assert(indices@ =~= water_seats(false));
        add_participants_safely(wheel, parent, &indices, Element::Water)
    }
}

/// What comes of making a child: what is left and what is returned.
pub open spec fn initialize_child_wheel_outcome(
    place: Wheel,
    wheel_id: u64,
    parent: WheelAccount,
    is_left: bool,
    now: i64,
    child: Result<Wheel, ErrorCode>,
) -> bool {
    match child_error(place@, parent.wheel@, is_left) {
        Some(error) => child == Err::<Wheel, ErrorCode>(error),
        None => child is Ok && child->Ok_0@ == child_wheel(
            wheel_id,
            parent.key,
            parent.wheel@,
            child_seats(parent.wheel.participants@, is_left)->Ok_0,
            now,
        ),
    }
}

/// The content of one of the two wheels that a split leaves, for the place that
/// it is to take.
pub fn initialize_child_wheel(
    place: &Wheel,
    wheel_id: u64,
    parent: &WheelAccount,
    is_left: bool,
    now: i64,
) -> (child: Result<Wheel, ErrorCode>)
    ensures
        initialize_child_wheel_outcome(*place, wheel_id, *parent, is_left, now, child),
{
    if place.id != 0 {
        return Err(ErrorCode::WheelAlreadyInitialized);
    }
    let generation: u32 = match parent.wheel.generation.checked_add(1) {
        None => {
            return Err(ErrorCode::Overflow);
        },
        Some(generation) => generation,
    };
    let mut child = Wheel {
        id: wheel_id,
        parent: Some(parent.key),
        children: [None, None],
        participants: Vec::with_capacity(7),
        status: WheelStatus::Open,
        entry_fee: parent.wheel.entry_fee,
        total_pool: 0,
        generation,
        created_at: now,
        paid_out: false,
    };
    assert(child@.children =~= seq![None, None]);
    match fill_child_seats(&mut child, &parent.wheel, is_left) {
        Err(error) => Err(error),
        Ok(()) => Ok(child),
    }
}

/// What comes of a split: what is left and what is returned.
pub open spec fn split_wheel_outcome(
    before: SplitWheel,
    left_id: u64,
    right_id: u64,
    now: i64,
    after: SplitWheel,
    receipt: Result<SplitReceipt, ErrorCode>,
) -> bool {
    match split_wheel_error(
        before.registry,
        before.parent_wheel.wheel@,
        before.left_wheel.wheel@,
        before.right_wheel.wheel@,
        before.treasury.lamports,
        before.water_recipient,
    ) {
        Some(error) => receipt == Err::<SplitReceipt, ErrorCode>(error) && after == before,
        None => {
            let parent = before.parent_wheel.wheel@;
            let shares = pool_shares(
                parent.total_pool,
                before.registry.commission_rate,
            )->Ok_0;
            &&& receipt is Ok
            &&& receipt->Ok_0.moves@ == split_moves(
                before.treasury.key,
                before.water_recipient,
                shares,
            )
            &&& receipt->Ok_0.event == (WheelSplit {
                parent_wheel_id: parent.id,
                left_wheel_id: left_id,
                right_wheel_id: right_id,
                water_winner: before.water_recipient,
                payout_amount: shares.payout,
                commission_amount: shares.commission,
                timestamp: now,
            })
            &&& after.parent_wheel.wheel@ == split_parent(
                parent,
                before.left_wheel.key,
                before.right_wheel.key,
            )
            &&& after.left_wheel.wheel@ == child_wheel(
                left_id,
                before.parent_wheel.key,
                parent,
                child_seats(parent.participants, true)->Ok_0,
                now,
            )
            &&& after.right_wheel.wheel@ == child_wheel(
                right_id,
                before.parent_wheel.key,
                parent,
                child_seats(parent.participants, false)->Ok_0,
                now,
            )
            &&& after.registry == before.registry
            &&& after.parent_wheel.key == before.parent_wheel.key
            &&& after.left_wheel.key == before.left_wheel.key
            &&& after.right_wheel.key == before.right_wheel.key
            &&& after.authority == before.authority
            &&& after.treasury == before.treasury
            &&& after.water_recipient == before.water_recipient
        },
    }
}

/// Splits a full wheel: the treasury pays the winner, on the water seat, and the
/// others are seated on two new wheels.
pub fn split_wheel(ctx: &mut SplitWheel, left_id: u64, right_id: u64, now: i64) -> (receipt: Result<
    SplitReceipt,
    ErrorCode,
>)
    ensures
        split_wheel_outcome(*old(ctx), left_id, right_id, now, *final(ctx), receipt),
{
    if ctx.registry.paused {
        return Err(ErrorCode::ProtocolPaused);
    }
    if ctx.parent_wheel.wheel.paid_out {
        return Err(ErrorCode::AlreadyPaidOut);
    }
    if ctx.parent_wheel.wheel.status != WheelStatus::Full {
        return Err(ErrorCode::WheelNotFull);
    }
    if ctx.parent_wheel.wheel.participants.len() != WHEEL_SEATS {
        return Err(ErrorCode::InvalidParticipantCount);
    }
    let water_participant = ctx.parent_wheel.wheel.participants[14];
    if water_participant.element != Element::Water {
        return Err(ErrorCode::InvalidWaterParticipant);
    }
    if ctx.water_recipient != water_participant.pubkey {
        return Err(ErrorCode::InvalidRecipient);
    }
    let shares = match share_pool(
        ctx.parent_wheel.wheel.total_pool,
        ctx.registry.commission_rate,
    ) {
        Err(ShareError::Overflow) => {
            return Err(ErrorCode::Overflow);
        },
        Err(ShareError::Underflow) => {
            return Err(ErrorCode::Underflow);
        },
        Ok(shares) => shares,
    };
    if ctx.treasury.lamports < shares.payout {
        return Err(ErrorCode::InsufficientTreasuryBalance);
    }
    let left = match initialize_child_wheel(
        &ctx.left_wheel.wheel,
        left_id,
        &ctx.parent_wheel,
        true,
        now,
    ) {
        Err(error) => {
            return Err(error);
        },
        Ok(left) => left,
    };
    let right = match initialize_child_wheel(
        &ctx.right_wheel.wheel,
        right_id,
        &ctx.parent_wheel,
        false,
        now,
    ) {
        Err(error) => {
            return Err(error);
        },
        Ok(right) => right,
    };
    let mut moves: Vec<LamportMove> = Vec::new();
    moves.push(
        LamportMove {
            from: ctx.treasury.key,
            to: ctx.water_recipient,
            lamports: shares.payout,
        },
    );
    let wheel_id: u64 = ctx.parent_wheel.wheel.id;
    ctx.parent_wheel.wheel.paid_out = true;
    ctx.parent_wheel.wheel.status = WheelStatus::Split;
    ctx.parent_wheel.wheel.children = [Some(ctx.left_wheel.key), Some(ctx.right_wheel.key)];
    ctx.left_wheel.wheel = left;
    ctx.right_wheel.wheel = right;
    assert(ctx.parent_wheel.wheel.children@ =~= seq![
        Some(ctx.left_wheel.key),
        Some(ctx.right_wheel.key),
    ]);
    Ok(
        SplitReceipt {
            moves,
            event: WheelSplit {
                parent_wheel_id: wheel_id,
                left_wheel_id: left_id,
                right_wheel_id: right_id,
                water_winner: water_participant.pubkey,
                payout_amount: shares.payout,
                commission_amount: shares.commission,
                timestamp: now,
            },
        },
    )
}

} // verus!
