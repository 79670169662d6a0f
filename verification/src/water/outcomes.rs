//! What each instruction is for: when it is granted, what it then changes and
//! pays, and what it answers when it is refused.
use super::accounts::{
    initialize_registry_accounts_error, initialize_wheel_accounts_error,
    join_wheel_accounts_error, split_wheel_accounts_error, update_registry_accounts_error,
    InitializeRegistry, InitializeWheel, JoinWheel, SplitWheel, UpdateRegistry,
};
use super::error::ErrorCode;
use super::join::{initialize_wheel_outcome, join_wheel_outcome, JoinReceipt};
use super::laws::{
    can_follow, child_element, origin, reseating_stops_at_the_first_misfit, taken_over,
};
use super::registry::{
    initialize_registry_outcome, pause_protocol_outcome, update_commission_rate_outcome,
};
use super::split::{
    add_participants_safely_outcome, air_seats, child_seats, fire_seats,
    initialize_child_wheel_outcome, reseated, split_wheel_outcome, water_seats, SplitReceipt,
};
use super::state::{
    seated, CommissionRateChanged, CompactParticipant, Element, ProtocolPaused, Wheel,
    WheelAccount, WheelStatus,
};
use crate::pubkey::Pubkey;
use crate::signer::AccountsError;
use crate::transfer::is_system_transfer;
use vstd::prelude::*;

verus! {

/// The game is set up with any rate from five to thirty percent and with no other:
/// who does it becomes authority, the given account the treasury, no wheel is
/// counted, and the game runs.
pub proof fn setting_up(
    before: InitializeRegistry,
    rate: u8,
    treasury: Pubkey,
    after: InitializeRegistry,
    done: Result<(), ErrorCode>,
)
    requires
        initialize_registry_outcome(before, rate, treasury, after, done),
    ensures
        done is Ok <==> 5 <= rate <= 30,
        done is Err ==> after == before && done == Err::<(), ErrorCode>(
            ErrorCode::InvalidCommissionRate,
        ),
        done is Ok ==> {
            &&& after.authority == before.authority
            &&& after.registry.authority == before.authority.key
            &&& after.registry.treasury == treasury
            &&& after.registry.wheel_count == 0
            &&& after.registry.commission_rate == rate
            &&& !after.registry.paused
            &&& after.registry.last_rate_change == before.registry.last_rate_change
        },
{
}

/// A rate from five to thirty percent is set when the last change is more than a
/// day ago. Both rates and the time are told, and nothing else changes.
pub proof fn changing_the_rate(
    before: UpdateRegistry,
    rate: u8,
    now: i64,
    after: UpdateRegistry,
    event: Result<CommissionRateChanged, ErrorCode>,
)
    requires
        update_commission_rate_outcome(before, rate, now, after, event),
    ensures
        ({
            let allowed = 5 <= rate <= 30;
            let due = now - before.registry.last_rate_change > 86_400;
            &&& event is Ok <==> allowed && due
            &&& !allowed ==> event == Err::<CommissionRateChanged, ErrorCode>(
                ErrorCode::InvalidCommissionRate,
            )
            &&& allowed && !due ==> event == Err::<CommissionRateChanged, ErrorCode>(
                ErrorCode::RateLimitExceeded,
            )
            &&& event is Err ==> after == before
            &&& event is Ok ==> {
                &&& event->Ok_0.old_rate == before.registry.commission_rate
                &&& event->Ok_0.new_rate == rate
                &&& event->Ok_0.timestamp == now
                &&& after.registry.commission_rate == rate
                &&& after.registry.last_rate_change == now
                &&& after.registry.authority == before.registry.authority
                &&& after.registry.treasury == before.registry.treasury
                &&& after.registry.wheel_count == before.registry.wheel_count
                &&& after.registry.paused == before.registry.paused
                &&& after.authority == before.authority
            }
        }),
{
}

/// A pause is always granted, and who asked and when are told. Nothing else
/// changes.
pub proof fn pausing(
    before: UpdateRegistry,
    now: i64,
    after: UpdateRegistry,
    event: Result<ProtocolPaused, ErrorCode>,
)
    requires
        pause_protocol_outcome(before, now, after, event),
    ensures
        event is Ok,
        event->Ok_0.authority == before.authority.key,
        event->Ok_0.timestamp == now,
        after.registry.paused,
        after.registry.authority == before.registry.authority,
        after.registry.treasury == before.registry.treasury,
        after.registry.wheel_count == before.registry.wheel_count,
        after.registry.commission_rate == before.registry.commission_rate,
        after.registry.last_rate_change == before.registry.last_rate_change,
        after.authority == before.authority,
{
}

/// A wheel is opened in a running game, in a free place, with any id and any fee
/// from a hundredth of a SOL to ten SOL, unless the wheels cannot be counted on. It
/// has no parent, no children, no participants and no pool.
pub proof fn opening_a_wheel(
    before: InitializeWheel,
    wheel_id: u64,
    entry_fee: u64,
    now: i64,
    after: InitializeWheel,
    done: Result<(), ErrorCode>,
)
    requires
        initialize_wheel_outcome(before, wheel_id, entry_fee, now, after, done),
    ensures
        ({
            let affordable = 10_000_000 <= entry_fee <= 10_000_000_000;
            let running = affordable && !before.registry.paused;
            let free = running && before.wheel.wheel.id == 0;
            let wheel = after.wheel.wheel;
            &&& done is Ok <==> free && before.registry.wheel_count < u64::MAX
            &&& done is Err ==> after == before
            &&& !affordable ==> done == Err::<(), ErrorCode>(ErrorCode::InvalidEntryFee)
            &&& affordable && !running ==> done == Err::<(), ErrorCode>(ErrorCode::ProtocolPaused)
            &&& running && !free ==> done == Err::<(), ErrorCode>(
                ErrorCode::WheelAlreadyInitialized,
            )
            &&& free && before.registry.wheel_count == u64::MAX ==> done == Err::<(), ErrorCode>(
                ErrorCode::Overflow,
            )
            &&& done is Ok ==> {
                &&& wheel.id == wheel_id
                &&& wheel.parent is None
                &&& wheel.children@.len() == 2
                &&& wheel.children@[0] is None && wheel.children@[1] is None
                &&& wheel.participants@.len() == 0
                &&& wheel.status == WheelStatus::Open
                &&& wheel.entry_fee == entry_fee
                &&& wheel.total_pool == 0
                &&& wheel.generation == 0
                &&& wheel.created_at == now
                &&& !wheel.paid_out
                &&& after.wheel.key == before.wheel.key
                &&& after.registry.wheel_count == before.registry.wheel_count + 1
                &&& after.registry.authority == before.registry.authority
                &&& after.registry.treasury == before.registry.treasury
                &&& after.registry.commission_rate == before.registry.commission_rate
                &&& after.registry.paused == before.registry.paused
                &&& after.registry.last_rate_change == before.registry.last_rate_change
                &&& after.authority == before.authority
            }
        }),
{
}

/// Whatever its generation, fee and pool, an open wheel of a running game with a
/// free seat takes everybody who is not on it, as long as the pool can be counted:
/// on earth for the first eight seats, on air for four, on fire for two and on
/// water for the last, which makes the wheel full. The fee goes from the
/// participant to the registry's treasury and is added to the pool.
pub proof fn joining(
    before: JoinWheel,
    now: i64,
    after: JoinWheel,
    receipt: Result<JoinReceipt, ErrorCode>,
)
    requires
        join_wheel_outcome(before, now, after, receipt),
    ensures
        ({
            let wheel = before.wheel.wheel;
            let seats = wheel.participants@;
            let running = !before.registry.paused;
            let open = running && wheel.status == WheelStatus::Open;
            let room = open && seats.len() < 15;
            let on_it = exists|i: int|
                0 <= i < seats.len() && (#[trigger] seats[i]).pubkey == before.participant.key;
            let newcomer = room && !on_it;
            let countable = wheel.total_pool + wheel.entry_fee <= u64::MAX;
            &&& receipt is Ok <==> newcomer && countable
            &&& receipt is Err ==> after == before
            &&& !running ==> receipt == Err::<JoinReceipt, ErrorCode>(ErrorCode::ProtocolPaused)
            &&& running && !open ==> receipt == Err::<JoinReceipt, ErrorCode>(
                ErrorCode::WheelNotOpen,
            )
            &&& open && !room ==> receipt == Err::<JoinReceipt, ErrorCode>(ErrorCode::WheelFull)
            &&& room && on_it ==> receipt == Err::<JoinReceipt, ErrorCode>(
                ErrorCode::AlreadyJoined,
            )
            &&& newcomer && !countable ==> receipt == Err::<JoinReceipt, ErrorCode>(
                ErrorCode::Overflow,
            )
            &&& receipt is Ok ==> {
                let left = after.wheel.wheel;
                let event = receipt->Ok_0.event;
                let seat = left.participants@.last();
                &&& left.participants@.len() == seats.len() + 1
                &&& left.participants@.drop_last() == seats
                &&& seat.pubkey == before.participant.key
                &&& seat.element == event.element
                &&& (now - seat.joined_at) % 0x1_0000_0000 == 0
                &&& event.element == (if seats.len() < 8 {
                    Element::Earth
                } else if seats.len() < 12 {
                    Element::Air
                } else if seats.len() < 14 {
                    Element::Fire
                } else {
                    Element::Water
                })
                &&& left.total_pool - wheel.total_pool == wheel.entry_fee
                &&& left.status == (if seats.len() == 14 {
                    WheelStatus::Full
                } else {
                    WheelStatus::Open
                })
                &&& left.id == wheel.id
                &&& left.parent == wheel.parent
                &&& left.children@ == wheel.children@
                &&& left.entry_fee == wheel.entry_fee
                &&& left.generation == wheel.generation
                &&& left.created_at == wheel.created_at
                &&& left.paid_out == wheel.paid_out
                &&& is_system_transfer(
                    receipt->Ok_0.instruction,
                    before.participant.key,
                    before.registry.treasury,
                    wheel.entry_fee,
                )
                &&& event.wheel_id == wheel.id
                &&& event.participant == before.participant.key
                &&& event.entry_fee == wheel.entry_fee
                &&& event.participant_count == seats.len() + 1
                &&& after.wheel.key == before.wheel.key
                &&& after.participant == before.participant
                &&& after.registry == before.registry
                &&& after.treasury == before.treasury
            }
        }),
{
    if receipt is Ok {
        assert(after.wheel.wheel.participants@.drop_last() =~= before.wheel.wheel.participants@);
    }
}

/// Seats are taken over in turn, each with the new element and otherwise as it was,
/// up to the first that the parent does not have or whose owner is on the wheel by
/// then. `at` is the place of that seat in the list, or the end of the list.
/// Nothing but the seats changes.
pub proof fn taking_seats_over(
    before: Wheel,
    parent: Wheel,
    indices: Seq<usize>,
    element: Element,
    after: Wheel,
    added: Result<(), ErrorCode>,
    at: int,
)
    requires
        add_participants_safely_outcome(before, parent, indices, element, after, added),
        0 <= at <= indices.len(),
        forall|k: int|
            0 <= k < at ==> #[trigger] can_follow(
                before.participants@,
                parent.participants@,
                indices,
                k,
            ),
        at < indices.len() ==> !can_follow(
            before.participants@,
            parent.participants@,
            indices,
            at,
        ),
    ensures
        added is Ok <==> at == indices.len(),
        at < indices.len() ==> added == Err::<(), ErrorCode>(
            if indices[at] >= parent.participants@.len() {
                ErrorCode::InvalidIndex
            } else {
                ErrorCode::DuplicateParticipant
            },
        ),
        after.participants@.len() == before.participants@.len() + at,
        after.participants@.take(before.participants@.len() as int) == before.participants@,
        forall|k: int|
            0 <= k < at ==> {
                let seat = #[trigger] after.participants@[before.participants@.len() + k];
                let origin = parent.participants@[indices[k] as int];
                seat.pubkey == origin.pubkey && seat.joined_at == origin.joined_at && seat.element
                    == element
            },
        after.id == before.id,
        after.parent == before.parent,
        after.children@ == before.children@,
        after.status == before.status,
        after.entry_fee == before.entry_fee,
        after.total_pool == before.total_pool,
        after.generation == before.generation,
        after.created_at == before.created_at,
        after.paid_out == before.paid_out,
{
    reseating_stops_at_the_first_misfit(
        before.participants@,
        parent.participants@,
        indices,
        element,
        at,
    );
    assert(after.participants@.take(before.participants@.len() as int) =~= before.participants@);
}

/// The owner of the parent's seat that is meant for the given seat of a child can
/// sit there: the parent has that seat, and its owner sits on no earlier one.
pub open spec fn can_sit(participants: Seq<CompactParticipant>, is_left: bool, seat: int) -> bool {
    &&& origin(seat, is_left) < participants.len()
    &&& forall|k: int|
        0 <= k < seat ==> participants[#[trigger] origin(k, is_left)].pubkey
            != participants[origin(seat, is_left)].pubkey
}

/// The seats of a child that can be filled before the first that cannot.
proof fn lemma_child_seats_up_to(
    participants: Seq<CompactParticipant>,
    is_left: bool,
    at: int,
)
    requires
        0 <= at <= 7,
        forall|k: int| 0 <= k < at ==> #[trigger] can_sit(participants, is_left, k),
        at < 7 ==> !can_sit(participants, is_left, at),
    ensures
        at < 7 ==> child_seats(participants, is_left) == Err::<Seq<CompactParticipant>, ErrorCode>(
            if origin(at, is_left) >= participants.len() {
                ErrorCode::InvalidIndex
            } else {
                ErrorCode::DuplicateParticipant
            },
        ),
        at == 7 ==> child_seats(participants, is_left) == Ok::<Seq<CompactParticipant>, ErrorCode>(
            Seq::new(
                7,
                |i: int|
                    CompactParticipant {
                        element: child_element(i),
                        ..participants[origin(i, is_left)]
                    },
            ),
        ),
{
    let none = Seq::<CompactParticipant>::empty();
    let air_indices = air_seats(is_left);
    let fire_indices = fire_seats(is_left);
    let water_indices = water_seats(is_left);
    lemma_part(none, participants, air_indices, Element::Air, is_left, 0, at);
    if at >= 4 {
        let air = none + taken_over(participants, air_indices, Element::Air);
        assert forall|i: int| 0 <= i < 4 implies (#[trigger] air[i]).pubkey == participants[origin(
            i,
            is_left,
        )].pubkey by {}
        lemma_part(air, participants, fire_indices, Element::Fire, is_left, 4, at);
        if at >= 6 {
            let fire = air + taken_over(participants, fire_indices, Element::Fire);
            assert forall|i: int| 0 <= i < 6 implies (#[trigger] fire[i]).pubkey == participants[
                origin(i, is_left)
            ].pubkey by {}
            lemma_part(fire, participants, water_indices, Element::Water, is_left, 6, at);
            if at == 7 {
                let water = fire + taken_over(participants, water_indices, Element::Water);
                assert(water =~= Seq::new(
                    7,
                    |i: int|
                        CompactParticipant {
                            element: child_element(i),
                            ..participants[origin(i, is_left)]
                        },
                ));
            }
        }
    }
}

/// One of the three parts of a child's seats, which starts at the given seat.
proof fn lemma_part(
    seats: Seq<CompactParticipant>,
    participants: Seq<CompactParticipant>,
    indices: Seq<usize>,
    element: Element,
    is_left: bool,
    from: int,
    at: int,
)
    requires
        0 <= from <= at <= 7,
        seats.len() == from,
        forall|i: int|
            0 <= i < from ==> (#[trigger] seats[i]).pubkey == participants[origin(
                i,
                is_left,
            )].pubkey,
        from + indices.len() <= 7,
        forall|k: int|
            0 <= k < indices.len() ==> #[trigger] indices[k] == origin(from + k, is_left),
        forall|k: int| 0 <= k < at ==> #[trigger] can_sit(participants, is_left, k),
        at < 7 ==> !can_sit(participants, is_left, at),
    ensures
        at >= from + indices.len() ==> reseated(seats, participants, indices, element) == Ok::<
            Seq<CompactParticipant>,
            ErrorCode,
        >(seats + taken_over(participants, indices, element)),
        at < from + indices.len() ==> reseated(seats, participants, indices, element) == Err::<
            Seq<CompactParticipant>,
            ErrorCode,
        >(
            if origin(at, is_left) >= participants.len() {
                ErrorCode::InvalidIndex
            } else {
                ErrorCode::DuplicateParticipant
            },
        ),
{
    let stop = if at >= from + indices.len() {
        indices.len() as int
    } else {
        at - from
    };
    assert forall|k: int| 0 <= k < indices.len() implies can_follow(
        seats,
        participants,
        indices,
        k,
    ) == #[trigger] can_sit(participants, is_left, from + k) by {
        lemma_same_fit(seats, participants, indices, is_left, from, k);
    }
    assert forall|k: int| 0 <= k < stop implies #[trigger] can_follow(
        seats,
        participants,
        indices,
        k,
    ) by {
        assert(can_sit(participants, is_left, from + k));
    }
    if stop < indices.len() {
        assert(can_follow(seats, participants, indices, stop) == can_sit(
            participants,
            is_left,
            from + stop,
        ));
    }
    reseating_stops_at_the_first_misfit(seats, participants, indices, element, stop);
    if stop < indices.len() {
        assert(indices[stop] == origin(at, is_left));
    }
}

/// To follow in a part is to be able to sit on the child's seat.
proof fn lemma_same_fit(
    seats: Seq<CompactParticipant>,
    participants: Seq<CompactParticipant>,
    indices: Seq<usize>,
    is_left: bool,
    from: int,
    k: int,
)
    requires
        0 <= from,
        seats.len() == from,
        forall|i: int|
            0 <= i < from ==> (#[trigger] seats[i]).pubkey == participants[origin(
                i,
                is_left,
            )].pubkey,
        forall|l: int|
            0 <= l < indices.len() ==> #[trigger] indices[l] == origin(from + l, is_left),
        0 <= k < indices.len(),
    ensures
        can_follow(seats, participants, indices, k) == can_sit(participants, is_left, from + k),
{
    let key = participants[indices[k] as int].pubkey;
    assert(indices[k] == origin(from + k, is_left));
    if can_follow(seats, participants, indices, k) {
        assert forall|l: int| 0 <= l < from + k implies participants[#[trigger] origin(
            l,
            is_left,
        )].pubkey != key by {
            if l < from {
                assert(seats[l].pubkey == participants[origin(l, is_left)].pubkey);
            } else {
                assert(indices[l - from] == origin(l, is_left));
            }
        }
    }
    if can_sit(participants, is_left, from + k) {
        if seated(seats, key) {
            let i = choose|i: int| 0 <= i < seats.len() && (#[trigger] seats[i]).pubkey == key;
            assert(participants[origin(i, is_left)].pubkey == key);
        }
        assert forall|l: int| 0 <= l < k implies participants[
            #[trigger] indices[l] as int
        ].pubkey != key by {
            assert(indices[l] == origin(from + l, is_left));
        }
    }
}

/// A child takes over from its parent all but what is its own: it costs what the
/// parent costs and is one generation further. It starts open, without children or
/// pool. Its seven seats are half of the parent's seats of earth, of air and of
/// fire, in order and with the times of the joins, each one element further.
pub open spec fn is_child(
    child: Wheel,
    wheel_id: u64,
    parent_key: Pubkey,
    parent: Wheel,
    is_left: bool,
    now: i64,
) -> bool {
    &&& child.id == wheel_id
    &&& child.parent == Some(parent_key)
    &&& child.children@.len() == 2 && child.children@[0] is None && child.children@[1] is None
    &&& child.status == WheelStatus::Open
    &&& child.entry_fee == parent.entry_fee
    &&& child.total_pool == 0
    &&& child.generation == parent.generation + 1
    &&& child.created_at == now
    &&& !child.paid_out
    &&& child.participants@.len() == 7
    &&& forall|i: int|
        0 <= i < 7 ==> {
            let seat = #[trigger] child.participants@[i];
            let from = parent.participants@[origin(i, is_left)];
            seat.pubkey == from.pubkey && seat.joined_at == from.joined_at && seat.element
                == child_element(i)
        }
}

/// A child is made in a free place, whatever the parent's fee, as long as the
/// generations can be counted and each of its seats can be filled. `at` is the
/// first seat that cannot be, or seven.
pub proof fn making_a_child(
    place: Wheel,
    wheel_id: u64,
    parent: WheelAccount,
    is_left: bool,
    now: i64,
    child: Result<Wheel, ErrorCode>,
    at: int,
)
    requires
        initialize_child_wheel_outcome(place, wheel_id, parent, is_left, now, child),
        0 <= at <= 7,
        forall|k: int|
            0 <= k < at ==> #[trigger] can_sit(parent.wheel.participants@, is_left, k),
        at < 7 ==> !can_sit(parent.wheel.participants@, is_left, at),
    ensures
        ({
            let free = place.id == 0;
            let generations = free && parent.wheel.generation < u32::MAX;
            &&& child is Ok <==> generations && at == 7
            &&& !free ==> child == Err::<Wheel, ErrorCode>(ErrorCode::WheelAlreadyInitialized)
            &&& free && !generations ==> child == Err::<Wheel, ErrorCode>(ErrorCode::Overflow)
            &&& generations && at < 7 ==> child == Err::<Wheel, ErrorCode>(
                if origin(at, is_left) >= parent.wheel.participants@.len() {
                    ErrorCode::InvalidIndex
                } else {
                    ErrorCode::DuplicateParticipant
                },
            )
            &&& child is Ok ==> is_child(
                child->Ok_0,
                wheel_id,
                parent.key,
                parent.wheel,
                is_left,
                now,
            )
        }),
{
    lemma_child_seats_up_to(parent.wheel.participants@, is_left, at);
}

/// A full wheel with fifteen participants of a running game, the last of them on
/// water, is split for that participant, unless it was paid out, the commission
/// cannot be reckoned, the treasury does not hold the payout, a child's place is
/// taken, the generations cannot be counted on, or a seat of a child cannot be
/// filled. The treasury pays the pool less the commission. `left_at` and `right_at`
/// are the first seats of the children that cannot be filled, or seven.
pub proof fn splitting(
    before: SplitWheel,
    left_id: u64,
    right_id: u64,
    now: i64,
    after: SplitWheel,
    receipt: Result<SplitReceipt, ErrorCode>,
    left_at: int,
    right_at: int,
)
    requires
        split_wheel_outcome(before, left_id, right_id, now, after, receipt),
        0 <= left_at <= 7,
        0 <= right_at <= 7,
        forall|k: int|
            0 <= k < left_at ==> #[trigger] can_sit(
                before.parent_wheel.wheel.participants@,
                true,
                k,
            ),
        left_at < 7 ==> !can_sit(before.parent_wheel.wheel.participants@, true, left_at),
        forall|k: int|
            0 <= k < right_at ==> #[trigger] can_sit(
                before.parent_wheel.wheel.participants@,
                false,
                k,
            ),
        right_at < 7 ==> !can_sit(before.parent_wheel.wheel.participants@, false, right_at),
    ensures
        ({
            let wheel = before.parent_wheel.wheel;
            let seats = wheel.participants@;
            let pool = wheel.total_pool;
            let rate = before.registry.commission_rate;
            let running = !before.registry.paused;
            let unpaid = running && !wheel.paid_out;
            let full = unpaid && wheel.status == WheelStatus::Full;
            let seated = full && seats.len() == 15;
            let water = seated && seats[14].element == Element::Water;
            let won = water && before.water_recipient == seats[14].pubkey;
            let small = won && pool * rate <= u64::MAX;
            let reckoned = small && pool * rate < (pool + 1) * 100;
            let payout = pool - (pool * rate) / 100;
            let covered = reckoned && before.treasury.lamports >= payout;
            let left_free = covered && before.left_wheel.wheel.id == 0;
            let generations = left_free && wheel.generation < u32::MAX;
            let left = generations && left_at == 7;
            let right_free = left && before.right_wheel.wheel.id == 0;
            &&& receipt is Ok <==> right_free && right_at == 7
            &&& receipt is Err ==> after == before
            &&& !running ==> receipt == Err::<SplitReceipt, ErrorCode>(ErrorCode::ProtocolPaused)
            &&& running && !unpaid ==> receipt == Err::<SplitReceipt, ErrorCode>(
                ErrorCode::AlreadyPaidOut,
            )
            &&& unpaid && !full ==> receipt == Err::<SplitReceipt, ErrorCode>(
                ErrorCode::WheelNotFull,
            )
            &&& full && !seated ==> receipt == Err::<SplitReceipt, ErrorCode>(
                ErrorCode::InvalidParticipantCount,
            )
            &&& seated && !water ==> receipt == Err::<SplitReceipt, ErrorCode>(
                ErrorCode::InvalidWaterParticipant,
            )
            &&& water && !won ==> receipt == Err::<SplitReceipt, ErrorCode>(
                ErrorCode::InvalidRecipient,
            )
            &&& won && !small ==> receipt == Err::<SplitReceipt, ErrorCode>(ErrorCode::Overflow)
            &&& small && !reckoned ==> receipt == Err::<SplitReceipt, ErrorCode>(
                ErrorCode::Underflow,
            )
            &&& reckoned && !covered ==> receipt == Err::<SplitReceipt, ErrorCode>(
                ErrorCode::InsufficientTreasuryBalance,
            )
            &&& covered && !left_free ==> receipt == Err::<SplitReceipt, ErrorCode>(
                ErrorCode::WheelAlreadyInitialized,
            )
            &&& left_free && !generations ==> receipt == Err::<SplitReceipt, ErrorCode>(
                ErrorCode::Overflow,
            )
            &&& generations && !left ==> receipt == Err::<SplitReceipt, ErrorCode>(
                ErrorCode::DuplicateParticipant,
            )
            &&& left && !right_free ==> receipt == Err::<SplitReceipt, ErrorCode>(
                ErrorCode::WheelAlreadyInitialized,
            )
            &&& right_free && right_at < 7 ==> receipt == Err::<SplitReceipt, ErrorCode>(
                ErrorCode::DuplicateParticipant,
            )
            &&& receipt is Ok ==> {
                let moves = receipt->Ok_0.moves@;
                let told = receipt->Ok_0.event;
                let split = after.parent_wheel.wheel;
                &&& moves.len() == 1
                &&& moves[0].from == before.treasury.key
                &&& moves[0].to == seats[14].pubkey
                &&& moves[0].lamports == told.payout_amount
                &&& told.payout_amount + told.commission_amount == pool
                &&& told.commission_amount * 100 <= pool * rate < (told.commission_amount + 1) * 100
                &&& told.parent_wheel_id == wheel.id
                &&& told.left_wheel_id == left_id
                &&& told.right_wheel_id == right_id
                &&& told.water_winner == seats[14].pubkey
                &&& told.timestamp == now
                &&& split.status == WheelStatus::Split
                &&& split.paid_out
                &&& split.children@.len() == 2 && split.children@[0] == Some(before.left_wheel.key)
                    && split.children@[1] == Some(before.right_wheel.key)
                &&& split.id == wheel.id
                &&& split.parent == wheel.parent
                &&& split.participants@ == seats
                &&& split.entry_fee == wheel.entry_fee
                &&& split.total_pool == wheel.total_pool
                &&& split.generation == wheel.generation
                &&& split.created_at == wheel.created_at
                &&& is_child(
                    after.left_wheel.wheel,
                    left_id,
                    before.parent_wheel.key,
                    wheel,
                    true,
                    now,
                )
                &&& is_child(
                    after.right_wheel.wheel,
                    right_id,
                    before.parent_wheel.key,
                    wheel,
                    false,
                    now,
                )
                &&& after.registry == before.registry
                &&& after.parent_wheel.key == before.parent_wheel.key
                &&& after.left_wheel.key == before.left_wheel.key
                &&& after.right_wheel.key == before.right_wheel.key
                &&& after.authority == before.authority
                &&& after.treasury == before.treasury
                &&& after.water_recipient == before.water_recipient
            }
        }),
{
    lemma_child_seats_up_to(before.parent_wheel.wheel.participants@, true, left_at);
    lemma_child_seats_up_to(before.parent_wheel.wheel.participants@, false, right_at);
}

/// Who sets the game up or opens a wheel has to sign, and nothing else is asked.
pub proof fn founding_accounts(start: InitializeRegistry, open: InitializeWheel)
    ensures
        initialize_registry_accounts_error(start) == (if start.authority.is_signer {
            None
        } else {
            Some(AccountsError::<ErrorCode>::NotSigner)
        }),
        initialize_wheel_accounts_error(open) == (if open.authority.is_signer {
            None
        } else {
            Some(AccountsError::<ErrorCode>::NotSigner)
        }),
{
}

/// The accounts of a change to the registry: its authority asks and signs, and
/// nothing else is asked.
pub proof fn ruling_accounts(update: UpdateRegistry)
    ensures
        update_registry_accounts_error(update) is None <==> update.authority.is_signer
            && update.authority.key == update.registry.authority,
        !update.authority.is_signer ==> update_registry_accounts_error(update) == Some(
            AccountsError::<ErrorCode>::NotSigner,
        ),
        update.authority.is_signer && update.authority.key != update.registry.authority
            ==> update_registry_accounts_error(update) == Some(
            AccountsError::Refused(ErrorCode::UnauthorizedAuthority),
        ),
{
}

/// The accounts of a join and of a split: the participant, or who asks for the
/// split, signs, the wheel is open, or full and not paid out, and the treasury is
/// the registry's. What is told is the first of these that fails.
pub proof fn playing_accounts(join: JoinWheel, split: SplitWheel)
    ensures
        ({
            let signed = join.participant.is_signer;
            let open = signed && join.wheel.wheel.status == WheelStatus::Open;
            let treasury = open && join.treasury == join.registry.treasury;
            let error = join_wheel_accounts_error(join);
            &&& error is None <==> treasury
            &&& !signed ==> error == Some(AccountsError::<ErrorCode>::NotSigner)
            &&& signed && !open ==> error == Some(AccountsError::Refused(ErrorCode::WheelNotOpen))
            &&& open && !treasury ==> error == Some(
                AccountsError::Refused(ErrorCode::InvalidTreasury),
            )
        }),
        ({
            let signed = split.authority.is_signer;
            let full = signed && split.parent_wheel.wheel.status == WheelStatus::Full;
            let unpaid = full && !split.parent_wheel.wheel.paid_out;
            let treasury = unpaid && split.treasury.key == split.registry.treasury;
            let error = split_wheel_accounts_error(split);
            &&& error is None <==> treasury
            &&& !signed ==> error == Some(AccountsError::<ErrorCode>::NotSigner)
            &&& signed && !full ==> error == Some(AccountsError::Refused(ErrorCode::WheelNotFull))
            &&& full && !unpaid ==> error == Some(AccountsError::Refused(ErrorCode::AlreadyPaidOut))
            &&& unpaid && !treasury ==> error == Some(
                AccountsError::Refused(ErrorCode::InvalidTreasury),
            )
        }),
{
}

} // verus!
