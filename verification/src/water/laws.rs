//! What holds of the game as a whole.
use super::accounts::{update_registry_accounts_error, UpdateRegistry};
use super::error::ErrorCode;
use super::join::{
    counted_one_more, initialize_wheel_error, join_wheel_error, joined, low_word, new_wheel,
    seat_element, MAX_ENTRY_FEE, MIN_ENTRY_FEE,
};
use super::registry::{
    new_registry, rate_allowed, update_commission_rate_error, RATE_CHANGE_INTERVAL,
};
use super::split::{
    air_seats, child_error, child_seats, child_wheel, fire_seats, lemma_first_failed_seat,
    reseated, reseated_so_far, split_moves, split_parent, split_wheel_error, water_seats,
};
use super::state::{
    seated, CompactParticipant, Element, Registry, WheelStatus, WheelView, WHEEL_SEATS,
};
use crate::ledger::{
    after_moves, collection, collections_add_up, covered_moves_can_be_made, credited, debited,
    moved_sum, moves_change_balances, moves_conserve_lamports, total, LamportMove,
};
use crate::pool::{pool_shares, shares_add_up};
use crate::pubkey::Pubkey;
use crate::signer::AccountsError;
use vstd::prelude::*;

verus! {

/// The participants that a wheel had when it was made: none, or the seven that a
/// split left to it.
pub open spec fn seeded(wheel: WheelView) -> nat {
    if wheel.generation == 0 {
        0
    } else {
        7
    }
}

/// The element of the seats that a child is made with: four of air, two of fire
/// and one of water.
pub open spec fn child_element(seat: int) -> Element {
    if seat < 4 {
        Element::Air
    } else if seat < 6 {
        Element::Fire
    } else {
        Element::Water
    }
}

/// The seat of the split wheel whose owner takes the given seat of a child.
pub open spec fn origin(seat: int, is_left: bool) -> int {
    if seat < 4 {
        if is_left {
            seat
        } else {
            seat + 4
        }
    } else if seat < 6 {
        if is_left {
            seat + 4
        } else {
            seat + 6
        }
    } else {
        if is_left {
            12
        } else {
            13
        }
    }
}

/// Nobody holds two seats.
pub open spec fn all_different(participants: Seq<CompactParticipant>) -> bool {
    forall|i: int, j: int|
        0 <= i < participants.len() && 0 <= j < participants.len() && i != j ==> #[trigger]
            participants[i].pubkey != #[trigger] participants[j].pubkey
}

/// What holds of every wheel: the fee is within its bounds, the pool holds a fee
/// for each participant who joined it, nobody holds two of the fifteen seats, a
/// wheel is open while a seat is free and full or split when none is, it is paid
/// out when and only when it is split, and it has children only then. Each seat
/// that was joined has its element, and so has each that a split left.
pub open spec fn wheel_inv(wheel: WheelView) -> bool {
    &&& MIN_ENTRY_FEE <= wheel.entry_fee <= MAX_ENTRY_FEE
    &&& seeded(wheel) <= wheel.participants.len() <= WHEEL_SEATS
    &&& wheel.total_pool == wheel.entry_fee * (wheel.participants.len() - seeded(wheel))
    &&& all_different(wheel.participants)
    &&& wheel.status == WheelStatus::Open <==> wheel.participants.len() < WHEEL_SEATS
    &&& wheel.paid_out <==> wheel.status == WheelStatus::Split
    &&& wheel.status != WheelStatus::Split ==> wheel.children == seq![
        None::<Pubkey>,
        None::<Pubkey>,
    ]
    &&& wheel.parent is None <==> wheel.generation == 0
    &&& forall|i: int|
        0 <= i < wheel.participants.len() ==> (#[trigger] wheel.participants[i]).element == if i
            < seeded(wheel) {
            child_element(i)
        } else {
            seat_element(i as nat)
        }
}

/// What holds of the registry: the commission is between five and thirty percent.
pub open spec fn registry_inv(registry: Registry) -> bool {
    rate_allowed(registry.commission_rate)
}

/// The commission rate keeps its bounds from the start of the game on, which
/// takes no rate out of them, through every change of the registry.
pub proof fn registry_keeps_its_bounds(
    registry: Registry,
    authority: Pubkey,
    treasury: Pubkey,
    new_rate: u8,
    now: i64,
)
    ensures
        rate_allowed(new_rate) <==> registry_inv(
            new_registry(authority, treasury, new_rate, registry.last_rate_change),
        ),
        update_commission_rate_error(registry, new_rate, now) is None ==> registry_inv(
            Registry { commission_rate: new_rate, last_rate_change: now, ..registry },
        ),
        registry_inv(registry) ==> registry_inv(Registry { paused: true, ..registry }),
        registry_inv(registry) ==> registry_inv(counted_one_more(registry)),
{
}

/// The registry is changed by something else than a change of the commission
/// rate: by a pause or a new wheel.
pub open spec fn other_change(before: Registry, after: Registry) -> bool {
    ||| after == (Registry { paused: true, ..before })
    ||| before.wheel_count < u64::MAX && after == counted_one_more(before)
}

/// The registry is changed by a change of the commission rate.
pub open spec fn rate_change(before: Registry, after: Registry) -> bool {
    &&& update_commission_rate_error(
        before,
        after.commission_rate,
        after.last_rate_change,
    ) is None
    &&& after == (Registry {
        commission_rate: after.commission_rate,
        last_rate_change: after.last_rate_change,
        ..before
    })
}

/// Each registry of the list follows from the one before it without a change of
/// the commission rate.
pub open spec fn other_changes(history: Seq<Registry>) -> bool {
    forall|i: int|
        0 < i < history.len() ==> other_change(#[trigger] history[i - 1], #[trigger] history[i])
}

/// Each registry of the list follows from the one before it.
pub open spec fn registry_history(history: Seq<Registry>) -> bool {
    forall|i: int|
        0 < i < history.len() ==> other_change(#[trigger] history[i - 1], #[trigger] history[i])
            || rate_change(history[i - 1], history[i])
}

/// Whatever happens to the registry, authority and treasury are kept, the count of
/// wheels never falls, a commission rate within its bounds stays there, and a
/// paused game stays paused.
proof fn lemma_history(history: Seq<Registry>)
    requires
        history.len() > 0,
        registry_history(history),
    ensures
        history.last().authority == history[0].authority,
        history.last().treasury == history[0].treasury,
        history.last().wheel_count >= history[0].wheel_count,
        registry_inv(history[0]) ==> registry_inv(history.last()),
        history[0].paused ==> history.last().paused,
    decreases history.len(),
{
    if history.len() > 1 {
        let shorter = history.drop_last();
        assert forall|i: int| 0 < i < shorter.len() implies other_change(
            #[trigger] shorter[i - 1],
            #[trigger] shorter[i],
        ) || rate_change(shorter[i - 1], shorter[i]) by {
            assert(other_change(history[i - 1], history[i]) || rate_change(
                history[i - 1],
                history[i],
            ));
        }
        lemma_history(shorter);
        let last = history.len() - 1;
        assert(other_change(history[last - 1], history[last]) || rate_change(
            history[last - 1],
            history[last],
        ));
    }
}

/// Whatever happened to the registry since the game was set up, the commission
/// rate is within its bounds.
pub proof fn histories_keep_the_bounds(
    authority: Pubkey,
    treasury: Pubkey,
    start_rate: u8,
    start: i64,
    history: Seq<Registry>,
)
    requires
        rate_allowed(start_rate),
        history.len() > 0,
        history[0] == new_registry(authority, treasury, start_rate, start),
        registry_history(history),
    ensures
        registry_inv(history.last()),
{
    lemma_history(history);
}

/// The count of wheels never falls.
pub proof fn wheels_are_counted_on(history: Seq<Registry>)
    requires
        history.len() > 0,
        registry_history(history),
    ensures
        history.last().wheel_count >= history[0].wheel_count,
{
    lemma_history(history);
}

/// Only who set the game up rules it, whatever happened to the registry since: the
/// accounts of a pause or of a change of the rate are accepted when and only when
/// the founder's account is the authority and signed, and a missing signature is
/// told. The treasury is never changed.
pub proof fn only_the_founder_rules(
    founder: Pubkey,
    treasury: Pubkey,
    start_rate: u8,
    start: i64,
    history: Seq<Registry>,
    update: UpdateRegistry,
)
    requires
        history.len() > 0,
        history[0] == new_registry(founder, treasury, start_rate, start),
        registry_history(history),
        update.registry == history.last(),
    ensures
        history.last().authority == founder,
        history.last().treasury == treasury,
        update_registry_accounts_error(update) is None <==> update.authority.key == founder
            && update.authority.is_signer,
        update_registry_accounts_error(update) == (if !update.authority.is_signer {
            Some(AccountsError::NotSigner)
        } else if update.authority.key != founder {
            Some(AccountsError::Refused(ErrorCode::UnauthorizedAuthority))
        } else {
            None
        }),
{
    lemma_history(history);
}

/// Nothing but a change of the commission rate touches the time of the last one.
proof fn lemma_last_change_is_kept(history: Seq<Registry>)
    requires
        history.len() > 0,
        other_changes(history),
    ensures
        history.last().last_rate_change == history[0].last_rate_change,
    decreases history.len(),
{
    if history.len() > 1 {
        let shorter = history.drop_last();
        assert forall|i: int| 0 < i < shorter.len() implies other_change(
            #[trigger] shorter[i - 1],
            #[trigger] shorter[i],
        ) by {
            assert(other_change(history[i - 1], history[i]));
        }
        lemma_last_change_is_kept(shorter);
        let last = history.len() - 1;
        assert(other_change(history[last - 1], history[last]));
    }
}

/// Between two changes of the commission rate more than a day passes, whatever
/// else happens to the registry between them.
pub proof fn rate_changes_are_a_day_apart(
    registry: Registry,
    first_rate: u8,
    first: i64,
    history: Seq<Registry>,
    second_rate: u8,
    second: i64,
)
    requires
        update_commission_rate_error(registry, first_rate, first) is None,
        history.len() > 0,
        history[0] == (Registry {
            commission_rate: first_rate,
            last_rate_change: first,
            ..registry
        }),
        other_changes(history),
        update_commission_rate_error(history.last(), second_rate, second) is None,
    ensures
        second - first > RATE_CHANGE_INTERVAL,
{
    lemma_last_change_is_kept(history);
}

/// The first change of the commission rate comes more than a day after the time
/// that the account held when the game was set up.
pub proof fn the_first_rate_change_waits_a_day(
    authority: Pubkey,
    treasury: Pubkey,
    start_rate: u8,
    start: i64,
    history: Seq<Registry>,
    new_rate: u8,
    now: i64,
)
    requires
        history.len() > 0,
        history[0] == new_registry(authority, treasury, start_rate, start),
        other_changes(history),
        update_commission_rate_error(history.last(), new_rate, now) is None,
    ensures
        now - start > RATE_CHANGE_INTERVAL,
{
    lemma_last_change_is_kept(history);
}

/// A paused game opens no wheel, takes no participant and splits no wheel.
pub proof fn a_paused_game_stands_still(
    registry: Registry,
    wheel: WheelView,
    entry_fee: u64,
    participant: Pubkey,
    left: WheelView,
    right: WheelView,
    treasury_lamports: u64,
    recipient: Pubkey,
)
    requires
        registry.paused,
    ensures
        initialize_wheel_error(registry, wheel, entry_fee) == Some(
            if MIN_ENTRY_FEE <= entry_fee <= MAX_ENTRY_FEE {
                ErrorCode::ProtocolPaused
            } else {
                ErrorCode::InvalidEntryFee
            },
        ),
        join_wheel_error(registry, wheel, participant) == Some(ErrorCode::ProtocolPaused),
        split_wheel_error(registry, wheel, left, right, treasury_lamports, recipient) == Some(
            ErrorCode::ProtocolPaused,
        ),
{
}

/// A paused game stays paused, whatever happens to the registry.
pub proof fn a_paused_game_stays_paused(history: Seq<Registry>)
    requires
        history.len() > 0,
        registry_history(history),
        history[0].paused,
    ensures
        history.last().paused,
{
    lemma_history(history);
}

/// A wheel whose id is not zero keeps its id and its place: neither a new wheel
/// nor a child of a split takes it.
pub proof fn opened_wheels_keep_their_place(
    registry: Registry,
    wheel: WheelView,
    wheel_id: u64,
    entry_fee: u64,
    parent: WheelView,
    is_left: bool,
    participant: Pubkey,
    now: i64,
    left_key: Pubkey,
    right_key: Pubkey,
)
    ensures
        new_wheel(wheel_id, entry_fee, now).id == wheel_id,
        joined(wheel, participant, now).id == wheel.id,
        split_parent(wheel, left_key, right_key).id == wheel.id,
        wheel.id != 0 ==> initialize_wheel_error(registry, wheel, entry_fee) is Some,
        wheel.id != 0 && !registry.paused && MIN_ENTRY_FEE <= entry_fee <= MAX_ENTRY_FEE
            ==> initialize_wheel_error(registry, wheel, entry_fee) == Some(
            ErrorCode::WheelAlreadyInitialized,
        ),
        wheel.id != 0 ==> child_error(wheel, parent, is_left) == Some(
            ErrorCode::WheelAlreadyInitialized,
        ),
{
}

/// The last to join a wheel wins it: the split pays the account of the last seat,
/// which is the seat of water and whose owner filled the wheel.
pub proof fn the_last_participant_wins(
    registry: Registry,
    wheel: WheelView,
    participant: Pubkey,
    now: i64,
    left: WheelView,
    right: WheelView,
    treasury_lamports: u64,
    recipient: Pubkey,
)
    ensures
        wheel.participants.len() == WHEEL_SEATS - 1 ==> ({
            let last = joined(wheel, participant, now).participants[14];
            &&& last.pubkey == participant
            &&& last.element == Element::Water
            &&& joined(wheel, participant, now).status == WheelStatus::Full
        }),
        split_wheel_error(registry, wheel, left, right, treasury_lamports, recipient) is None
            ==> recipient == wheel.participants[14].pubkey,
{
}

proof fn lemma_pool_of(fee: u64, seats: int)
    requires
        fee <= MAX_ENTRY_FEE,
        0 <= seats <= 15,
    ensures
        0 <= fee * seats <= 150_000_000_000,
        fee * seats + fee == fee * (seats + 1),
{
    assert(0 <= fee * seats <= 150_000_000_000 && fee * seats + fee == fee * (seats + 1))
        by (nonlinear_arith)
        requires
            0 <= fee <= 10_000_000_000,
            0 <= seats <= 15,
    ;
}

/// A new wheel is a good one.
pub proof fn new_wheels_are_good(
    registry: Registry,
    place: WheelView,
    wheel_id: u64,
    entry_fee: u64,
    now: i64,
)
    requires
        initialize_wheel_error(registry, place, entry_fee) is None,
    ensures
        wheel_inv(new_wheel(wheel_id, entry_fee, now)),
{
    assert(entry_fee * 0 == 0) by (nonlinear_arith);
}

/// A wheel is opened when and only when its fee is from a hundredth of a SOL to ten
/// SOL, the game runs, its place is free and the wheels can be counted on. So a new
/// game opens its first wheel.
pub proof fn wheels_can_be_opened(
    registry: Registry,
    place: WheelView,
    entry_fee: u64,
    authority: Pubkey,
    treasury: Pubkey,
    rate: u8,
    time: i64,
)
    ensures
        initialize_wheel_error(registry, place, entry_fee) is None <==> {
            &&& 10_000_000 <= entry_fee <= 10_000_000_000
            &&& !registry.paused
            &&& place.id == 0
            &&& registry.wheel_count < u64::MAX
        },
        10_000_000 <= entry_fee <= 10_000_000_000 && place.id == 0 ==> initialize_wheel_error(
            new_registry(authority, treasury, rate, time),
            place,
            entry_fee,
        ) is None,
{
}

/// Both children of a split cost what the split wheel costs.
pub proof fn children_cost_what_their_parent_costs(
    wheel_id: u64,
    parent_key: Pubkey,
    parent: WheelView,
    seats: Seq<CompactParticipant>,
    now: i64,
)
    ensures
        child_wheel(wheel_id, parent_key, parent, seats, now).entry_fee == parent.entry_fee,
{
}

/// The wheel is what a split of the other left, whatever was played on it since.
pub open spec fn is_child_of(wheel: WheelView, parent: WheelView) -> bool {
    exists|wheel_id: u64, key: Pubkey, seats: Seq<CompactParticipant>, now: i64|
        wheel.entry_fee == (#[trigger] child_wheel(wheel_id, key, parent, seats, now)).entry_fee
}

/// The wheels of a family, each a child of the one before it, are all of one price.
pub proof fn families_keep_their_price(family: Seq<WheelView>)
    requires
        family.len() > 0,
        forall|i: int|
            0 < i < family.len() ==> is_child_of(#[trigger] family[i], #[trigger] family[i - 1]),
    ensures
        family.last().entry_fee == family[0].entry_fee,
    decreases family.len(),
{
    if family.len() > 1 {
        let shorter = family.drop_last();
        assert forall|i: int| 0 < i < shorter.len() implies is_child_of(
            #[trigger] shorter[i],
            #[trigger] shorter[i - 1],
        ) by {
            assert(is_child_of(family[i], family[i - 1]));
        }
        families_keep_their_price(shorter);
        let last = family.len() - 1;
        assert(is_child_of(family[last], family[last - 1]));
    }
}

/// A join leaves a good wheel good. Who may join a good wheel is everybody who is
/// not on it, while a seat is free and the game is not paused.
pub proof fn joins_keep_wheels_good(
    registry: Registry,
    wheel: WheelView,
    participant: Pubkey,
    now: i64,
)
    requires
        wheel_inv(wheel),
    ensures
        join_wheel_error(registry, wheel, participant) is None <==> !registry.paused
            && wheel.participants.len() < WHEEL_SEATS && !seated(wheel.participants, participant),
        join_wheel_error(registry, wheel, participant) is None ==> wheel_inv(
            joined(wheel, participant, now),
        ),
{
    lemma_pool_of(wheel.entry_fee, wheel.participants.len() - seeded(wheel));
    if join_wheel_error(registry, wheel, participant) is None {
        let after = joined(wheel, participant, now).participants;
        assert forall|i: int, j: int|
            0 <= i < after.len() && 0 <= j < after.len() && i != j implies #[trigger]
        after[i].pubkey != #[trigger] after[j].pubkey by {
            if i < wheel.participants.len() {
                assert(after[i] == wheel.participants[i]);
            }
            if j < wheel.participants.len() {
                assert(after[j] == wheel.participants[j]);
            }
        }
    }
}

/// Nobody joins a wheel twice: who has just joined is told so, or that the wheel
/// is no longer open.
pub proof fn nobody_joins_twice(
    registry: Registry,
    wheel: WheelView,
    participant: Pubkey,
    now: i64,
)
    ensures
        join_wheel_error(registry, joined(wheel, participant, now), participant) is Some,
        join_wheel_error(registry, wheel, participant) is None ==> join_wheel_error(
            registry,
            joined(wheel, participant, now),
            participant,
        ) == Some(
            if wheel.participants.len() == WHEEL_SEATS - 1 {
                ErrorCode::WheelNotOpen
            } else {
                ErrorCode::AlreadyJoined
            },
        ),
{
    let after = joined(wheel, participant, now).participants;
    assert(after[wheel.participants.len() as int].pubkey == participant);
}

/// A wheel after joins in a row, each at its time.
pub open spec fn joined_by(wheel: WheelView, who: Seq<Pubkey>, when: Seq<i64>) -> WheelView
    decreases who.len(),
{
    if who.len() == 0 {
        wheel
    } else {
        joined(joined_by(wheel, who.drop_last(), when), who.last(), when[who.len() - 1])
    }
}

/// The seats that joins in a row take, after a number of seats taken before.
pub open spec fn seats_taken(before: nat, who: Seq<Pubkey>, when: Seq<i64>) -> Seq<
    CompactParticipant,
> {
    Seq::new(
        who.len(),
        |i: int|
            CompactParticipant {
                pubkey: who[i],
                element: seat_element((before + i) as nat),
                joined_at: low_word(when[i]),
            },
    )
}

/// Nobody joins twice, and nobody who is on the wheel joins.
pub open spec fn newcomers(wheel: WheelView, who: Seq<Pubkey>) -> bool {
    &&& forall|i: int| 0 <= i < who.len() ==> !seated(wheel.participants, #[trigger] who[i])
    &&& forall|i: int, j: int|
        0 <= i < j < who.len() ==> #[trigger] who[i] != #[trigger] who[j]
}

/// What joins of newcomers in a row leave: everybody sits in the order of the
/// joins, on the element of the seat, with the time of the join, the pool holds a
/// fee more for each, the wheel is full with the last seat and open before, and
/// nothing else has changed.
pub proof fn joins_add_up(wheel: WheelView, who: Seq<Pubkey>, when: Seq<i64>)
    requires
        wheel_inv(wheel),
        wheel.status == WheelStatus::Open,
        newcomers(wheel, who),
        wheel.participants.len() + who.len() <= WHEEL_SEATS,
    ensures
        joined_by(wheel, who, when).participants == wheel.participants + seats_taken(
            wheel.participants.len(),
            who,
            when,
        ),
        joined_by(wheel, who, when).total_pool == wheel.total_pool + who.len() * wheel.entry_fee,
        joined_by(wheel, who, when).status == (if wheel.participants.len() + who.len()
            == WHEEL_SEATS {
            WheelStatus::Full
        } else {
            WheelStatus::Open
        }),
        joined_by(wheel, who, when) == (WheelView {
            participants: joined_by(wheel, who, when).participants,
            total_pool: joined_by(wheel, who, when).total_pool,
            status: joined_by(wheel, who, when).status,
            ..wheel
        }),
        wheel_inv(joined_by(wheel, who, when)),
    decreases who.len(),
{
    let count = wheel.participants.len();
    let fee = wheel.entry_fee;
    if who.len() == 0 {
        assert(wheel.participants =~= wheel.participants + seats_taken(count, who, when));
        assert(0 * fee == 0) by (nonlinear_arith);
    } else {
        let earlier = who.drop_last();
        let before = joined_by(wheel, earlier, when);
        assert(newcomers(wheel, earlier)) by {
            assert forall|i: int| 0 <= i < earlier.len() implies !seated(
                wheel.participants,
                #[trigger] earlier[i],
            ) by {
                assert(earlier[i] == who[i]);
            }
            assert forall|i: int, j: int| 0 <= i < j < earlier.len() implies #[trigger] earlier[i]
                != #[trigger] earlier[j] by {
                assert(earlier[i] == who[i] && earlier[j] == who[j]);
            }
        }
        joins_add_up(wheel, earlier, when);
        lemma_newcomer_is_not_seated(wheel, who, when);
        let running = Registry {
            authority: who.last(),
            treasury: who.last(),
            wheel_count: 0,
            commission_rate: 0,
            paused: false,
            last_rate_change: 0,
        };
        joins_keep_wheels_good(running, before, who.last(), when[who.len() - 1]);
        assert(joined_by(wheel, who, when).participants =~= wheel.participants + seats_taken(
            count,
            who,
            when,
        ));
        let n = earlier.len();
        assert(n * fee + fee == (n + 1) * fee) by (nonlinear_arith);
    }
}

/// The last of the newcomers is not on the wheel once the others have joined.
proof fn lemma_newcomer_is_not_seated(wheel: WheelView, who: Seq<Pubkey>, when: Seq<i64>)
    requires
        who.len() > 0,
        newcomers(wheel, who),
        joined_by(wheel, who.drop_last(), when).participants == wheel.participants + seats_taken(
            wheel.participants.len(),
            who.drop_last(),
            when,
        ),
    ensures
        !seated(joined_by(wheel, who.drop_last(), when).participants, who.last()),
{
    let seats = joined_by(wheel, who.drop_last(), when).participants;
    let last = who.len() - 1;
    if seated(seats, who.last()) {
        let i = choose|i: int| 0 <= i < seats.len() && (#[trigger] seats[i]).pubkey == who.last();
        let count = wheel.participants.len();
        if i < count {
            assert(wheel.participants[i].pubkey == who[last]);
        } else {
            assert(who[i - count] == who[last]);
        }
    }
}

/// A new wheel fills seat by seat: up to fifteen joins of different participants in
/// a row are accepted while the game is not paused. After them the participants
/// sit in the order in which they joined, eight on earth, four on air, two on fire
/// and the last on water, and the pool holds a fee for each. Once their fees are
/// paid, a treasury that is none of them has grown by these. With fifteen the wheel
/// is full and refuses everybody.
pub proof fn new_wheels_fill_seat_by_seat(
    registry: Registry,
    place: WheelView,
    wheel_id: u64,
    entry_fee: u64,
    now: i64,
    who: Seq<Pubkey>,
    when: Seq<i64>,
    balances: Map<Pubkey, u64>,
    treasury: Pubkey,
    another: Pubkey,
)
    requires
        initialize_wheel_error(registry, place, entry_fee) is None,
        who.len() <= WHEEL_SEATS,
        forall|i: int, j: int| 0 <= i < j < who.len() ==> #[trigger] who[i] != #[trigger] who[j],
    ensures
        ({
            let start = new_wheel(wheel_id, entry_fee, now);
            let wheel = joined_by(start, who, when);
            &&& forall|n: int|
                0 <= n < who.len() ==> join_wheel_error(
                    registry,
                    joined_by(start, #[trigger] who.take(n), when),
                    who[n],
                ) is None
            &&& wheel.participants.len() == who.len()
            &&& forall|i: int|
                0 <= i < who.len() ==> #[trigger] wheel.participants[i] == (CompactParticipant {
                    pubkey: who[i],
                    element: seat_element(i as nat),
                    joined_at: low_word(when[i]),
                })
            &&& wheel.total_pool == who.len() * entry_fee
            &&& wheel.status == (if who.len() == WHEEL_SEATS {
                WheelStatus::Full
            } else {
                WheelStatus::Open
            })
            &&& !wheel.paid_out
            &&& wheel == (WheelView {
                participants: wheel.participants,
                total_pool: wheel.total_pool,
                status: wheel.status,
                ..start
            })
            &&& who.len() == WHEEL_SEATS ==> join_wheel_error(registry, wheel, another) == Some(
                ErrorCode::WheelNotOpen,
            )
            &&& balances.contains_key(treasury) && !who.contains(treasury) && after_moves(
                balances,
                collection(who, treasury, entry_fee),
            ) is Some ==> after_moves(
                balances,
                collection(who, treasury, entry_fee),
            )->0[treasury] == balances[treasury] + who.len() * entry_fee
        }),
{
    let start = new_wheel(wheel_id, entry_fee, now);
    new_wheels_are_good(registry, place, wheel_id, entry_fee, now);
    joins_add_up(start, who, when);
    assert forall|n: int| 0 <= n < who.len() implies join_wheel_error(
        registry,
        joined_by(start, #[trigger] who.take(n), when),
        who[n],
    ) is None by {
        let earlier = who.take(n);
        let next = who.take(n + 1);
        assert(next.drop_last() =~= earlier);
        assert(next.last() == who[n]);
        assert(newcomers(start, next)) by {
            assert forall|i: int, j: int| 0 <= i < j < next.len() implies #[trigger] next[i]
                != #[trigger] next[j] by {
                assert(next[i] == who[i] && next[j] == who[j]);
            }
        }
        assert(newcomers(start, earlier)) by {
            assert forall|i: int, j: int| 0 <= i < j < earlier.len() implies #[trigger] earlier[i]
                != #[trigger] earlier[j] by {
                assert(earlier[i] == who[i] && earlier[j] == who[j]);
            }
        }
        joins_add_up(start, earlier, when);
        lemma_newcomer_is_not_seated(start, next, when);
        joins_keep_wheels_good(registry, joined_by(start, earlier, when), who[n], when[n]);
    }
    assert(joined_by(start, who, when).participants =~= seats_taken(0, who, when));
    if balances.contains_key(treasury) && after_moves(
        balances,
        collection(who, treasury, entry_fee),
    ) is Some {
        collections_add_up(balances, who, treasury, entry_fee, treasury);
        let n = who.len();
        assert(entry_fee * n == n * entry_fee) by (nonlinear_arith);
    }
}

/// A wheel played from its opening to its split: of fifteen different participants
/// who joined in a row the last is the one to be paid, the pool holds fifteen fees,
/// and the split is never refused for the seats, which both children can fill.
pub proof fn wheels_are_played_to_their_end(
    registry: Registry,
    place: WheelView,
    wheel_id: u64,
    entry_fee: u64,
    now: i64,
    who: Seq<Pubkey>,
    when: Seq<i64>,
    left: WheelView,
    right: WheelView,
    treasury_lamports: u64,
    recipient: Pubkey,
)
    requires
        registry_inv(registry),
        initialize_wheel_error(registry, place, entry_fee) is None,
        who.len() == WHEEL_SEATS,
        forall|i: int, j: int| 0 <= i < j < who.len() ==> #[trigger] who[i] != #[trigger] who[j],
    ensures
        ({
            let full = joined_by(new_wheel(wheel_id, entry_fee, now), who, when);
            let shares = pool_shares(full.total_pool, registry.commission_rate)->Ok_0;
            &&& full.total_pool == 15 * entry_fee
            &&& split_wheel_error(registry, full, left, right, treasury_lamports, recipient) is None
                <==> {
                &&& recipient == who[14]
                &&& shares.payout <= treasury_lamports
                &&& left.id == 0
                &&& right.id == 0
            }
        }),
{
    let start = new_wheel(wheel_id, entry_fee, now);
    new_wheels_are_good(registry, place, wheel_id, entry_fee, now);
    joins_add_up(start, who, when);
    let full = joined_by(start, who, when);
    assert(full.participants =~= seats_taken(0, who, when));
    good_wheels_split(registry, full, left, right, treasury_lamports, recipient);
}

/// On a wheel of fifteen different participants the seats of both children can be
/// filled: each child gets four seats of earth as air, two of air as fire and one
/// of fire as water. Everybody but the winner, on the last seat, is on exactly
/// one child, and nobody twice.
pub proof fn splits_lose_only_the_winner(participants: Seq<CompactParticipant>, is_left: bool)
    requires
        participants.len() == WHEEL_SEATS,
        all_different(participants),
    ensures
        child_seats(participants, is_left) == Ok::<Seq<CompactParticipant>, ErrorCode>(
            Seq::new(
                7,
                |i: int|
                    CompactParticipant {
                        element: child_element(i),
                        ..participants[origin(i, is_left)]
                    },
            ),
        ),
        all_different(child_seats(participants, is_left)->Ok_0),
        !seated(child_seats(participants, is_left)->Ok_0, participants[14].pubkey),
        forall|i: int|
            0 <= i < 14 ==> (seated(
                child_seats(participants, is_left)->Ok_0,
                (#[trigger] participants[i]).pubkey,
            ) <==> exists|seat: int| 0 <= seat < 7 && #[trigger] origin(seat, is_left) == i),
{
    lemma_child_seats(participants, is_left);
    let seats = child_seats(participants, is_left)->Ok_0;
    assert forall|j: int| 0 <= j < 7 implies (#[trigger] seats[j]).pubkey == participants[origin(
        j,
        is_left,
    )].pubkey && 0 <= origin(j, is_left) < 14 by {}
    assert forall|i: int, j: int| 0 <= i < 7 && 0 <= j < 7 && i != j implies #[trigger]
    seats[i].pubkey != #[trigger] seats[j].pubkey by {
        assert(origin(i, is_left) != origin(j, is_left));
    }
    assert forall|i: int| 0 <= i < 14 implies (seated(seats, (#[trigger] participants[i]).pubkey)
        <==> exists|seat: int| 0 <= seat < 7 && #[trigger] origin(seat, is_left) == i) by {
        if exists|seat: int| 0 <= seat < 7 && #[trigger] origin(seat, is_left) == i {
            let seat = choose|seat: int| 0 <= seat < 7 && #[trigger] origin(seat, is_left) == i;
            assert(seats[seat].pubkey == participants[i].pubkey);
        }
        if seated(seats, participants[i].pubkey) {
            let seat = choose|seat: int|
                0 <= seat < seats.len() && (#[trigger] seats[seat]).pubkey
                    == participants[i].pubkey;
            assert(origin(seat, is_left) == i);
        }
    }
}

/// The seats of a child, one by one.
proof fn lemma_child_seats(participants: Seq<CompactParticipant>, is_left: bool)
    requires
        participants.len() == WHEEL_SEATS,
        all_different(participants),
    ensures
        child_seats(participants, is_left) == Ok::<Seq<CompactParticipant>, ErrorCode>(
            Seq::new(
                7,
                |i: int|
                    CompactParticipant {
                        element: child_element(i),
                        ..participants[origin(i, is_left)]
                    },
            ),
        ),
{
    let air_indices = air_seats(is_left);
    let fire_indices = fire_seats(is_left);
    let water_indices = water_seats(is_left);
    let none = Seq::<CompactParticipant>::empty();
    let air = none + taken_over(participants, air_indices, Element::Air);
    let fire = air + taken_over(participants, fire_indices, Element::Fire);
    let water = fire + taken_over(participants, water_indices, Element::Water);
    lemma_reseated(none, participants, air_indices, Element::Air);
    assert forall|k: int| 0 <= k < fire_indices.len() implies !seated(
        air,
        participants[#[trigger] fire_indices[k] as int].pubkey,
    ) by {
        lemma_seated_after(
            none,
            participants,
            air_indices,
            Element::Air,
            participants[fire_indices[k] as int].pubkey,
        );
    }
    lemma_reseated(air, participants, fire_indices, Element::Fire);
    assert forall|k: int| 0 <= k < water_indices.len() implies !seated(
        fire,
        participants[#[trigger] water_indices[k] as int].pubkey,
    ) by {
        let key = participants[water_indices[k] as int].pubkey;
        lemma_seated_after(none, participants, air_indices, Element::Air, key);
        lemma_seated_after(air, participants, fire_indices, Element::Fire, key);
    }
    lemma_reseated(fire, participants, water_indices, Element::Water);
    assert(water =~= Seq::new(
        7,
        |i: int|
            CompactParticipant { element: child_element(i), ..participants[origin(i, is_left)] },
    ));
}

/// The given seats, each with a new element.
pub open spec fn taken_over(
    participants: Seq<CompactParticipant>,
    indices: Seq<usize>,
    element: Element,
) -> Seq<CompactParticipant> {
    Seq::new(
        indices.len(),
        |k: int| CompactParticipant { element, ..participants[indices[k] as int] },
    )
}

/// A seat of the list can be taken over after those before it: the old wheel has
/// it, and its owner neither is on the new wheel nor comes with one of those.
pub open spec fn can_follow(
    seats: Seq<CompactParticipant>,
    participants: Seq<CompactParticipant>,
    indices: Seq<usize>,
    at: int,
) -> bool {
    &&& indices[at] < participants.len()
    &&& !seated(seats, participants[indices[at] as int].pubkey)
    &&& forall|k: int|
        0 <= k < at ==> participants[#[trigger] indices[k] as int].pubkey
            != participants[indices[at] as int].pubkey
}

/// Who is on the new wheel after some seats were taken over: who was before, and
/// the owners of those.
proof fn lemma_seated_after(
    seats: Seq<CompactParticipant>,
    participants: Seq<CompactParticipant>,
    indices: Seq<usize>,
    element: Element,
    key: Pubkey,
)
    ensures
        seated(seats + taken_over(participants, indices, element), key) <==> seated(seats, key)
            || exists|k: int|
            0 <= k < indices.len() && participants[#[trigger] indices[k] as int].pubkey == key,
{
    let after = seats + taken_over(participants, indices, element);
    if seated(after, key) {
        let i = choose|i: int| 0 <= i < after.len() && (#[trigger] after[i]).pubkey == key;
        if i < seats.len() {
            assert(seats[i].pubkey == key);
        } else {
            assert(participants[indices[i - seats.len()] as int].pubkey == key);
        }
    }
    if seated(seats, key) {
        let i = choose|i: int| 0 <= i < seats.len() && (#[trigger] seats[i]).pubkey == key;
        assert(after[i].pubkey == key);
    }
    if exists|k: int|
        0 <= k < indices.len() && participants[#[trigger] indices[k] as int].pubkey == key {
        let k = choose|k: int|
            0 <= k < indices.len() && participants[#[trigger] indices[k] as int].pubkey == key;
        assert(after[seats.len() + k].pubkey == key);
    }
}

proof fn lemma_takes_over(
    seats: Seq<CompactParticipant>,
    participants: Seq<CompactParticipant>,
    indices: Seq<usize>,
    element: Element,
    upto: int,
)
    requires
        0 <= upto <= indices.len(),
        forall|k: int| 0 <= k < upto ==> #[trigger] can_follow(seats, participants, indices, k),
    ensures
        reseated(seats, participants, indices.take(upto), element) == Ok::<
            Seq<CompactParticipant>,
            ErrorCode,
        >(seats + taken_over(participants, indices.take(upto), element)),
    decreases upto,
{
    let all = taken_over(participants, indices.take(upto), element);
    if upto == 0 {
        assert(seats + all =~= seats);
    } else {
        let shorter = indices.take(upto - 1);
        lemma_takes_over(seats, participants, indices, element, upto - 1);
        assert(indices.take(upto).drop_last() =~= shorter);
        assert(can_follow(seats, participants, indices, upto - 1));
        let p = participants[indices[upto - 1] as int];
        lemma_seated_after(seats, participants, shorter, element, p.pubkey);
        assert forall|k: int| 0 <= k < shorter.len() implies participants[
            #[trigger] shorter[k] as int
        ].pubkey != p.pubkey by {
            assert(shorter[k] == indices[k]);
        }
        assert((seats + taken_over(participants, shorter, element)).push(
            CompactParticipant { element, ..p },
        ) =~= seats + all);
    }
}

/// Seats are taken over in turn up to the first that cannot be: the new wheel gets
/// those before it, each with the new element, and the error tells whether that
/// seat is missing or its owner is on the new wheel already. Where there is no
/// such seat, the new wheel gets them all.
pub proof fn reseating_stops_at_the_first_misfit(
    seats: Seq<CompactParticipant>,
    participants: Seq<CompactParticipant>,
    indices: Seq<usize>,
    element: Element,
    at: int,
)
    requires
        0 <= at <= indices.len(),
        forall|k: int| 0 <= k < at ==> #[trigger] can_follow(seats, participants, indices, k),
        at < indices.len() ==> !can_follow(seats, participants, indices, at),
    ensures
        reseated_so_far(seats, participants, indices, element) == seats + taken_over(
            participants,
            indices.take(at),
            element,
        ),
        reseated(seats, participants, indices, element) == (if at == indices.len() {
            Ok::<Seq<CompactParticipant>, ErrorCode>(
                seats + taken_over(participants, indices, element),
            )
        } else if indices[at] >= participants.len() {
            Err(ErrorCode::InvalidIndex)
        } else {
            Err(ErrorCode::DuplicateParticipant)
        }),
{
    lemma_takes_over(seats, participants, indices, element, at);
    if at == indices.len() {
        assert(indices.take(at) =~= indices);
        if at == 0 {
            assert(seats + taken_over(participants, indices, element) =~= seats);
        }
    } else {
        let before = indices.take(at);
        assert(indices.take(at + 1).drop_last() =~= before);
        if indices[at] < participants.len() {
            let key = participants[indices[at] as int].pubkey;
            lemma_seated_after(seats, participants, before, element, key);
            if !seated(seats, key) {
                let k = choose|k: int|
                    0 <= k < at && participants[#[trigger] indices[k] as int].pubkey == key;
                assert(before[k] == indices[k]);
            }
        }
        lemma_first_failed_seat(seats, participants, indices, element, at);
    }
}

/// Taking seats over, as far as it goes, never puts anybody on the new wheel
/// twice.
pub proof fn reseating_keeps_participants_different(
    seats: Seq<CompactParticipant>,
    participants: Seq<CompactParticipant>,
    indices: Seq<usize>,
    element: Element,
)
    requires
        all_different(seats),
    ensures
        all_different(reseated_so_far(seats, participants, indices, element)),
    decreases indices.len(),
{
    if indices.len() > 0 {
        let shorter = indices.drop_last();
        reseating_keeps_participants_different(seats, participants, shorter, element);
        if reseated(seats, participants, indices, element) is Ok {
            let before = reseated(seats, participants, shorter, element)->Ok_0;
            assert(reseated_so_far(seats, participants, shorter, element) == before);
            let after = reseated(seats, participants, indices, element)->Ok_0;
            assert forall|i: int, j: int|
                0 <= i < after.len() && 0 <= j < after.len() && i != j implies #[trigger]
            after[i].pubkey != #[trigger] after[j].pubkey by {
                if i < before.len() {
                    assert(after[i] == before[i]);
                }
                if j < before.len() {
                    assert(after[j] == before[j]);
                }
            }
        }
    }
}

/// Different seats of different participants, none of them on the new wheel yet,
/// can all be taken over.
proof fn lemma_reseated(
    seats: Seq<CompactParticipant>,
    participants: Seq<CompactParticipant>,
    indices: Seq<usize>,
    element: Element,
)
    requires
        all_different(participants),
        forall|k: int| 0 <= k < indices.len() ==> #[trigger] indices[k] < participants.len(),
        forall|k: int, l: int|
            0 <= k < indices.len() && 0 <= l < indices.len() && k != l ==> #[trigger] indices[k]
                != #[trigger] indices[l],
        forall|k: int|
            0 <= k < indices.len() ==> !seated(
                seats,
                participants[#[trigger] indices[k] as int].pubkey,
            ),
    ensures
        reseated(seats, participants, indices, element) == Ok::<Seq<CompactParticipant>, ErrorCode>(
            seats + taken_over(participants, indices, element),
        ),
{
    assert forall|k: int| 0 <= k < indices.len() implies #[trigger] can_follow(
        seats,
        participants,
        indices,
        k,
    ) by {
        assert(indices[k] < participants.len());
        assert forall|l: int| 0 <= l < k implies participants[
            #[trigger] indices[l] as int
        ].pubkey != participants[indices[k] as int].pubkey by {}
    }
    reseating_stops_at_the_first_misfit(
        seats,
        participants,
        indices,
        element,
        indices.len() as int,
    );
}

/// Everybody but the winner goes to one of the two children and not to both.
pub proof fn everybody_else_plays_on_once(participants: Seq<CompactParticipant>, seat: int)
    requires
        participants.len() == WHEEL_SEATS,
        all_different(participants),
        0 <= seat < 14,
    ensures
        child_seats(participants, true) is Ok,
        child_seats(participants, false) is Ok,
        seated(child_seats(participants, true)->Ok_0, participants[seat].pubkey) <==> !seated(
            child_seats(participants, false)->Ok_0,
            participants[seat].pubkey,
        ),
{
    splits_lose_only_the_winner(participants, true);
    splits_lose_only_the_winner(participants, false);
    let key = participants[seat].pubkey;
    if seat < 4 {
        assert(origin(seat, true) == seat);
    } else if seat < 8 {
        assert(origin(seat - 4, false) == seat);
    } else if seat < 10 {
        assert(origin(seat - 4, true) == seat);
    } else if seat < 12 {
        assert(origin(seat - 6, false) == seat);
    } else {
        assert(origin(6, seat == 12) == seat);
    }
}

/// A split leaves a good full wheel good, and both its children.
pub proof fn splits_keep_wheels_good(
    wheel: WheelView,
    wheel_key: Pubkey,
    left: WheelView,
    left_key: Pubkey,
    left_id: u64,
    right: WheelView,
    right_key: Pubkey,
    right_id: u64,
    now: i64,
)
    requires
        wheel_inv(wheel),
        wheel.status == WheelStatus::Full,
        child_error(left, wheel, true) is None,
        child_error(right, wheel, false) is None,
    ensures
        wheel_inv(split_parent(wheel, left_key, right_key)),
        wheel_inv(
            child_wheel(left_id, wheel_key, wheel, child_seats(wheel.participants, true)->Ok_0, now),
        ),
        wheel_inv(
            child_wheel(
                right_id,
                wheel_key,
                wheel,
                child_seats(wheel.participants, false)->Ok_0,
                now,
            ),
        ),
{
    assert(wheel.entry_fee * 0 == 0) by (nonlinear_arith);
    splits_lose_only_the_winner(wheel.participants, true);
    splits_lose_only_the_winner(wheel.participants, false);
}

/// In a good game a full wheel is split whenever the game is not paused, the
/// payout is to go to the last participant, the treasury holds it, the places of
/// the children are free and the generations can be counted on. The winner gets
/// at least seventy percent of the pool.
pub proof fn good_wheels_split(
    registry: Registry,
    wheel: WheelView,
    left: WheelView,
    right: WheelView,
    treasury_lamports: u64,
    recipient: Pubkey,
)
    requires
        registry_inv(registry),
        wheel_inv(wheel),
        wheel.status == WheelStatus::Full,
    ensures
        pool_shares(wheel.total_pool, registry.commission_rate) is Ok,
        ({
            let shares = pool_shares(wheel.total_pool, registry.commission_rate)->Ok_0;
            &&& shares.payout + shares.commission == wheel.total_pool
            &&& shares.payout * 100 >= wheel.total_pool * 70
            &&& split_wheel_error(registry, wheel, left, right, treasury_lamports, recipient) is None
                <==> {
                &&& !registry.paused
                &&& recipient == wheel.participants[14].pubkey
                &&& shares.payout <= treasury_lamports
                &&& left.id == 0
                &&& right.id == 0
                &&& wheel.generation < u32::MAX
            }
        }),
{
    lemma_pool_of(wheel.entry_fee, wheel.participants.len() - seeded(wheel));
    let pool = wheel.total_pool;
    let rate = registry.commission_rate;
    assert(pool * rate <= pool * 30) by (nonlinear_arith)
        requires
            0 <= rate <= 30,
            pool >= 0,
    ;
    shares_add_up(pool, rate);
    splits_lose_only_the_winner(wheel.participants, true);
    splits_lose_only_the_winner(wheel.participants, false);
}

/// A wheel is paid out once: a paid-out wheel is not split, and every split
/// leaves the wheel paid out. Nobody joins a wheel that was split.
pub proof fn wheels_are_paid_out_once(
    registry: Registry,
    wheel: WheelView,
    left: WheelView,
    right: WheelView,
    treasury_lamports: u64,
    recipient: Pubkey,
    participant: Pubkey,
    left_key: Pubkey,
    right_key: Pubkey,
)
    ensures
        wheel.paid_out ==> split_wheel_error(
            registry,
            wheel,
            left,
            right,
            treasury_lamports,
            recipient,
        ) == Some(
            if registry.paused {
                ErrorCode::ProtocolPaused
            } else {
                ErrorCode::AlreadyPaidOut
            },
        ),
        split_parent(wheel, left_key, right_key).paid_out,
        join_wheel_error(registry, split_parent(wheel, left_key, right_key), participant) == Some(
            if registry.paused {
                ErrorCode::ProtocolPaused
            } else {
                ErrorCode::WheelNotOpen
            },
        ),
{
}

/// The payment of a split can be made, moves the payout from the treasury to the
/// winner and nothing else, and leaves the commission in the treasury.
pub proof fn splits_are_paid(
    balances: Map<Pubkey, u64>,
    registry: Registry,
    wheel: WheelView,
    left: WheelView,
    right: WheelView,
    treasury: Pubkey,
    recipient: Pubkey,
    key: Pubkey,
)
    requires
        balances.dom().finite(),
        total(balances) <= u64::MAX,
        balances.contains_key(treasury),
        balances.contains_key(recipient),
        balances.contains_key(key),
        split_wheel_error(registry, wheel, left, right, balances[treasury], recipient) is None,
    ensures
        ({
            let shares = pool_shares(wheel.total_pool, registry.commission_rate)->Ok_0;
            let after = after_moves(balances, split_moves(treasury, recipient, shares));
            &&& shares.payout + shares.commission == wheel.total_pool
            &&& after is Some
            &&& total(after->0) == total(balances)
            &&& after->0[key] == balances[key] + (if key == recipient {
                shares.payout as int
            } else {
                0
            }) - (if key == treasury {
                shares.payout as int
            } else {
                0
            })
        }),
{
    let shares = pool_shares(wheel.total_pool, registry.commission_rate)->Ok_0;
    let moves = split_moves(treasury, recipient, shares);
    reveal_with_fuel(moved_sum, 2);
    reveal_with_fuel(credited, 2);
    reveal_with_fuel(debited, 2);
    assert(moves.drop_last() =~= Seq::<LamportMove>::empty());
    covered_moves_can_be_made(balances, treasury, moves);
    moves_conserve_lamports(balances, moves);
    moves_change_balances(balances, moves, key);
}

} // verus!
