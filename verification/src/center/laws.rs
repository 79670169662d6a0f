//! What holds of the game as a whole.
use super::accounts::{
    refund_wheel_accounts_error, split_wheel_accounts_error, update_registry_accounts_error,
    RefundWheel, SplitWheel, UpdateRegistry,
};
use super::error::ErrorCode;
use super::join::{
    counted_one_more, initialize_wheel_error, join_wheel_error, joined, new_wheel, seat_element,
};
use super::refund::{
    recipient_error, recipients_error, refund_moves, refund_of, refund_wheel_error,
};
use super::registry::{
    new_registry, update_commission_rate_error, MAX_COMMISSION_RATE, MIN_COMMISSION_RATE,
    RATE_CHANGE_INTERVAL,
};
use super::split::{
    child_ids_error, child_wheel, children_error, counted_two_more, distributable, filled,
    join_and_split_error, redistributed, settle_error, settle_moves, split_moves, split_parent,
    split_wheel_error,
};
use super::state::{
    tier_fee, CompactParticipant, GameTier, Registry, RemainingAccount, WheelStatus, WheelView,
    WHEEL_SEATS,
};
use crate::ledger::{
    after_move, after_moves, collection, collections_add_up, covered_moves_can_be_made, credited,
    debited, moved_sum, moves_change_balances, move_conserves_lamports, moves_conserve_lamports,
    total, LamportMove,
};
use crate::pool::{pool_shares, shares_add_up};
use crate::pubkey::Pubkey;
use crate::signer::AccountsError;
use vstd::prelude::*;

verus! {

/// The participants that a wheel had when it was made: none, or the seven that a
/// split left to it.
pub open spec fn seeded(wheel: WheelView) -> nat {
    if wheel.generation == 0 {
        0
    } else {
        7
    }
}

/// What holds of every wheel: the fee is its tier's, the pool holds a fee for
/// each participant who joined it, there are never more than fifteen, an open
/// wheel has a seat free, a full or split one has none, it is paid out when and
/// only when it is split, and it has children only then. On a wheel of the first
/// generation each seat has its element.
pub open spec fn wheel_inv(wheel: WheelView) -> bool {
    &&& wheel.entry_fee == tier_fee(wheel.tier)
    &&& seeded(wheel) <= wheel.participants.len() <= WHEEL_SEATS
    &&& wheel.total_pool == wheel.entry_fee * (wheel.participants.len() - seeded(wheel))
    &&& wheel.status == WheelStatus::Open ==> wheel.participants.len() < WHEEL_SEATS
    &&& wheel.status == WheelStatus::Full ==> wheel.participants.len() == WHEEL_SEATS
    &&& wheel.status == WheelStatus::Split ==> wheel.participants.len() == WHEEL_SEATS
    &&& wheel.paid_out <==> wheel.status == WheelStatus::Split
    &&& wheel.status != WheelStatus::Split ==> wheel.children == seq![
        None::<Pubkey>,
        None::<Pubkey>,
    ]
    &&& wheel.parent is None <==> wheel.generation == 0
    &&& wheel.generation == 0 ==> forall|i: int|
        0 <= i < wheel.participants.len() ==> (#[trigger] wheel.participants[i]).element
            == seat_element(i as nat)
}

/// What holds of the registry: the commission is between one and thirty percent.
pub open spec fn registry_inv(registry: Registry) -> bool {
    MIN_COMMISSION_RATE <= registry.commission_rate <= MAX_COMMISSION_RATE
}

/// The commission rate keeps its bounds from the start of the game on, through
/// every change of the registry.
pub proof fn registry_keeps_its_bounds(
    registry: Registry,
    authority: Pubkey,
    wallet: Pubkey,
    new_rate: u8,
    paused: bool,
    now: i64,
)
    ensures
        registry_inv(new_registry(authority, wallet, now)),
        update_commission_rate_error(registry, new_rate, now) is None ==> registry_inv(
            Registry { commission_rate: new_rate, last_rate_change: now, ..registry },
        ),
        registry_inv(registry) ==> registry_inv(Registry { commission_wallet: wallet, ..registry }),
        registry_inv(registry) ==> registry_inv(Registry { paused, ..registry }),
        registry_inv(registry) ==> registry_inv(counted_one_more(registry)),
        registry_inv(registry) ==> registry_inv(counted_two_more(registry)),
{
}

/// The registry is changed by something else than a change of the commission
/// rate: by a new wallet, by a pause or its end, by a new wheel or by a split.
pub open spec fn other_change(before: Registry, after: Registry) -> bool {
    ||| after == (Registry { commission_wallet: after.commission_wallet, ..before })
    ||| after == (Registry { paused: after.paused, ..before })
    ||| before.wheel_count < u64::MAX && after == counted_one_more(before)
    ||| before.wheel_count + 2 <= u64::MAX && after == counted_two_more(before)
}

/// The registry is changed by a change of the commission rate.
pub open spec fn rate_change(before: Registry, after: Registry) -> bool {
    &&& update_commission_rate_error(
        before,
        after.commission_rate,
        after.last_rate_change,
    ) is None
    &&& after == (Registry {
        commission_rate: after.commission_rate,
        last_rate_change: after.last_rate_change,
        ..before
    })
}

/// Each registry of the list follows from the one before it without a change of
/// the commission rate.
pub open spec fn other_changes(history: Seq<Registry>) -> bool {
    forall|i: int|
        0 < i < history.len() ==> other_change(#[trigger] history[i - 1], #[trigger] history[i])
}

/// Each registry of the list follows from the one before it.
pub open spec fn registry_history(history: Seq<Registry>) -> bool {
    forall|i: int|
        0 < i < history.len() ==> other_change(#[trigger] history[i - 1], #[trigger] history[i])
            || rate_change(history[i - 1], history[i])
}

/// Nothing but a change of the commission rate touches the time of the last one.
proof fn lemma_last_change_is_kept(history: Seq<Registry>)
    requires
        history.len() > 0,
        other_changes(history),
    ensures
        history.last().last_rate_change == history[0].last_rate_change,
    decreases history.len(),
{
    if history.len() > 1 {
        let shorter = history.drop_last();
        assert forall|i: int| 0 < i < shorter.len() implies other_change(
            #[trigger] shorter[i - 1],
            #[trigger] shorter[i],
        ) by {
            assert(other_change(history[i - 1], history[i]));
        }
        lemma_last_change_is_kept(shorter);
        let last = history.len() - 1;
        assert(other_change(history[last - 1], history[last]));
    }
}

/// Between two changes of the commission rate, the first of them made after the
/// start of the clock, a week passes, whatever else happens to the registry
/// between them.
pub proof fn rate_changes_are_a_week_apart(
    registry: Registry,
    first_rate: u8,
    first: i64,
    history: Seq<Registry>,
    second_rate: u8,
    second: i64,
)
    requires
        first > 0,
        update_commission_rate_error(registry, first_rate, first) is None,
        history.len() > 0,
        history[0] == (Registry {
            commission_rate: first_rate,
            last_rate_change: first,
            ..registry
        }),
        other_changes(history),
        update_commission_rate_error(history.last(), second_rate, second) is None,
    ensures
        second - first >= RATE_CHANGE_INTERVAL,
{
    lemma_last_change_is_kept(history);
}

/// The first change of the commission rate comes at least a week after the game
/// was set up, if that was after the start of the clock.
pub proof fn the_first_rate_change_waits_a_week(
    authority: Pubkey,
    wallet: Pubkey,
    start: i64,
    history: Seq<Registry>,
    new_rate: u8,
    now: i64,
)
    requires
        start > 0,
        history.len() > 0,
        history[0] == new_registry(authority, wallet, start),
        other_changes(history),
        update_commission_rate_error(history.last(), new_rate, now) is None,
    ensures
        now - start >= RATE_CHANGE_INTERVAL,
{
    lemma_last_change_is_kept(history);
}

/// Whatever happens to the registry, authority and treasury are kept, the count of
/// wheels never falls, and a commission rate within its bounds stays there.
proof fn lemma_history(history: Seq<Registry>)
    requires
        history.len() > 0,
        registry_history(history),
    ensures
        history.last().authority == history[0].authority,
        history.last().treasury == history[0].treasury,
        history.last().wheel_count >= history[0].wheel_count,
        registry_inv(history[0]) ==> registry_inv(history.last()),
    decreases history.len(),
{
    if history.len() > 1 {
        let shorter = history.drop_last();
        assert forall|i: int| 0 < i < shorter.len() implies other_change(
            #[trigger] shorter[i - 1],
            #[trigger] shorter[i],
        ) || rate_change(shorter[i - 1], shorter[i]) by {
            assert(other_change(history[i - 1], history[i]) || rate_change(
                history[i - 1],
                history[i],
            ));
        }
        lemma_history(shorter);
        let last = history.len() - 1;
        assert(other_change(history[last - 1], history[last]) || rate_change(
            history[last - 1],
            history[last],
        ));
    }
}

/// Whatever happened to the registry since the game was set up, the commission
/// rate is within its bounds.
pub proof fn histories_keep_the_bounds(
    authority: Pubkey,
    wallet: Pubkey,
    start: i64,
    history: Seq<Registry>,
)
    requires
        history.len() > 0,
        history[0] == new_registry(authority, wallet, start),
        registry_history(history),
    ensures
        registry_inv(history.last()),
{
    lemma_history(history);
}

/// Only who set the game up rules it, whatever happened to the registry since:
/// the accounts of a split on request are accepted only if the founder's account
/// is the treasury and signed, those of a refund or of a change to the registry
/// only if it is the authority and signed. A missing signature is told.
pub proof fn only_the_founder_rules(
    founder: Pubkey,
    wallet: Pubkey,
    start: i64,
    history: Seq<Registry>,
    split: SplitWheel,
    refund: RefundWheel,
    update: UpdateRegistry,
)
    requires
        history.len() > 0,
        history[0] == new_registry(founder, wallet, start),
        registry_history(history),
        split.registry == history.last(),
        refund.registry == history.last(),
        update.registry == history.last(),
    ensures
        split_wheel_accounts_error(split) is None ==> split.treasury.key == founder
            && split.treasury.is_signer && split.commission_wallet
            == split.registry.commission_wallet,
        !split.treasury.is_signer ==> split_wheel_accounts_error(split) == Some(
            AccountsError::<ErrorCode>::NotSigner,
        ),
        refund_wheel_accounts_error(refund) is None <==> refund.authority.key == founder
            && refund.authority.is_signer,
        !refund.authority.is_signer ==> refund_wheel_accounts_error(refund) == Some(
            AccountsError::<ErrorCode>::NotSigner,
        ),
        update_registry_accounts_error(update) is None <==> update.authority.key == founder
            && update.authority.is_signer,
        !update.authority.is_signer ==> update_registry_accounts_error(update) == Some(
            AccountsError::<ErrorCode>::NotSigner,
        ),
{
    lemma_history(history);
}

/// A paused game opens no wheel, takes no participant and splits no wheel.
pub proof fn a_paused_game_stands_still(
    registry: Registry,
    wheel: WheelView,
    lamports: u64,
    left: WheelView,
    right: WheelView,
    winner: Pubkey,
    one_id: u64,
    other_id: u64,
)
    requires
        registry.paused,
    ensures
        initialize_wheel_error(registry, one_id) == Some(ErrorCode::ProtocolPaused),
        join_wheel_error(registry, wheel) == Some(ErrorCode::ProtocolPaused),
        join_and_split_error(registry, wheel, winner, one_id, other_id) == Some(
            ErrorCode::ProtocolPaused,
        ),
        split_wheel_error(registry, wheel, lamports, left, right, winner, one_id, other_id) == Some(
            ErrorCode::ProtocolPaused,
        ),
{
}

/// Pausing the game stops no refund.
pub proof fn a_paused_game_still_refunds(
    registry: Registry,
    paused: bool,
    authority: Pubkey,
    wheel: WheelView,
    lamports: u64,
    accounts: Seq<RemainingAccount>,
    gas: u64,
)
    ensures
        refund_wheel_error(
            Registry { paused, ..registry },
            authority,
            wheel,
            lamports,
            accounts,
            gas,
        ) == refund_wheel_error(registry, authority, wheel, lamports, accounts, gas),
{
}

/// The first to join a wheel wins it: whoever joins after, the account that a
/// split pays is that of the first seat.
pub proof fn the_first_participant_wins(
    registry: Registry,
    wheel: WheelView,
    first: Pubkey,
    later: Pubkey,
    lamports: u64,
    left: WheelView,
    right: WheelView,
    winner: Pubkey,
    left_id: u64,
    right_id: u64,
)
    ensures
        wheel.participants.len() == 0 ==> joined(wheel, first).participants[0].pubkey == first,
        wheel.participants.len() > 0 ==> joined(wheel, later).participants[0]
            == wheel.participants[0] && filled(wheel, later).participants[0]
            == wheel.participants[0],
        join_and_split_error(registry, wheel, winner, left_id, right_id) is None ==> winner
            == wheel.participants[0].pubkey,
        split_wheel_error(registry, wheel, lamports, left, right, winner, left_id, right_id) is None
            ==> winner == wheel.participants[0].pubkey,
{
}

/// A running game opens a wheel with the next id and with no other, until the ids
/// are used up. The first wheel of a new game is opened with id zero.
pub proof fn the_next_wheel_can_be_opened(
    registry: Registry,
    wheel_id: u64,
    authority: Pubkey,
    wallet: Pubkey,
    now: i64,
)
    ensures
        initialize_wheel_error(registry, wheel_id) is None <==> !registry.paused && wheel_id
            == registry.wheel_count && registry.wheel_count < u64::MAX,
        initialize_wheel_error(new_registry(authority, wallet, now), 0) is None,
{
}

/// The ids of new wheels are fresh: a new wheel's id is the count of wheels, and
/// the count then passes it.
pub proof fn wheel_ids_are_fresh(
    registry: Registry,
    wheel: WheelView,
    participant: Pubkey,
    wheel_lamports: u64,
    left: WheelView,
    child_rent: u64,
    right: WheelView,
    winner: Pubkey,
    one_id: u64,
    other_id: u64,
)
    ensures
        initialize_wheel_error(registry, one_id) is None ==> registry.wheel_count == one_id
            < counted_one_more(registry).wheel_count,
        join_and_split_error(registry, wheel, winner, one_id, other_id) is None && settle_error(
            registry,
            filled(wheel, participant),
            wheel_lamports,
            left,
            child_rent,
            right,
        ) is None ==> registry.wheel_count == one_id < other_id < counted_two_more(
            registry,
        ).wheel_count,
        split_wheel_error(
            registry,
            wheel,
            wheel_lamports,
            left,
            right,
            winner,
            one_id,
            other_id,
        ) is None ==> registry.wheel_count == one_id < other_id < counted_two_more(
            registry,
        ).wheel_count,
{
}

/// An id that was given is never given again, whatever happened to the registry
/// since: the count of wheels has passed it and never falls, so no wheel is opened
/// with it and no split gives it to a child.
pub proof fn wheel_ids_are_never_given_again(
    history: Seq<Registry>,
    id: u64,
    other_id: u64,
    wheel: WheelView,
    lamports: u64,
    left: WheelView,
    right: WheelView,
    winner: Pubkey,
)
    requires
        history.len() > 0,
        registry_history(history),
        id < history[0].wheel_count,
    ensures
        history.last().wheel_count >= history[0].wheel_count,
        initialize_wheel_error(history.last(), id) == Some(
            if history.last().paused {
                ErrorCode::ProtocolPaused
            } else {
                ErrorCode::InvalidWheelId
            },
        ),
        child_ids_error(history.last(), id, other_id) == Some(ErrorCode::StaleWheelIds),
        child_ids_error(history.last(), other_id, id) == Some(
            if other_id == u64::MAX && history.last().wheel_count == u64::MAX {
                ErrorCode::Overflow
            } else {
                ErrorCode::StaleWheelIds
            },
        ),
        join_and_split_error(history.last(), wheel, winner, id, other_id) == Some(
            if history.last().paused {
                ErrorCode::ProtocolPaused
            } else if wheel.status == WheelStatus::Refunded {
                ErrorCode::WheelRefunded
            } else {
                ErrorCode::StaleWheelIds
            },
        ),
        join_and_split_error(history.last(), wheel, winner, other_id, id) is Some,
        split_wheel_error(history.last(), wheel, lamports, left, right, winner, id, other_id)
            == Some(
            if history.last().paused {
                ErrorCode::ProtocolPaused
            } else {
                ErrorCode::StaleWheelIds
            },
        ),
        split_wheel_error(history.last(), wheel, lamports, left, right, winner, other_id, id) is Some,
{
    lemma_history(history);
}

proof fn lemma_pool_of(fee: u64, seats: int)
    requires
        fee <= 1_000_000_000_000,
        0 <= seats <= 15,
    ensures
        0 <= fee * seats <= 15_000_000_000_000,
        fee * seats + fee == fee * (seats + 1),
{
    assert(0 <= fee * seats <= 15_000_000_000_000 && fee * seats + fee == fee * (seats + 1))
        by (nonlinear_arith)
        requires
            0 <= fee <= 1_000_000_000_000,
            0 <= seats <= 15,
    ;
}

/// A new wheel is a good one.
pub proof fn new_wheels_are_good(wheel_id: u64, tier: GameTier, now: i64)
    ensures
        wheel_inv(new_wheel(wheel_id, tier, now)),
{
    assert(tier_fee(tier) * 0 == 0) by (nonlinear_arith);
}

/// A join leaves a good wheel good. On a good wheel it is never refused because
/// the pool cannot be counted.
pub proof fn joins_keep_wheels_good(registry: Registry, wheel: WheelView, participant: Pubkey)
    requires
        wheel_inv(wheel),
    ensures
        join_wheel_error(registry, wheel) != Some(ErrorCode::Overflow),
        join_wheel_error(registry, wheel) is None ==> wheel_inv(joined(wheel, participant)),
{
    lemma_pool_of(wheel.entry_fee, wheel.participants.len() - seeded(wheel));
}

/// A wheel after joins in a row.
pub open spec fn joined_by(wheel: WheelView, who: Seq<Pubkey>) -> WheelView
    decreases who.len(),
{
    if who.len() == 0 {
        wheel
    } else {
        joined(joined_by(wheel, who.drop_last()), who.last())
    }
}

/// The seats that joins in a row take, after a number of seats taken before.
pub open spec fn seats_taken(before: nat, who: Seq<Pubkey>) -> Seq<CompactParticipant> {
    Seq::new(
        who.len(),
        |i: int|
            CompactParticipant { pubkey: who[i], element: seat_element((before + i) as nat) },
    )
}

/// What joins in a row leave, up to the last seat but one: everybody sits in the
/// order of the joins, on the element of the seat, the pool holds a fee more for
/// each, and nothing else has changed. The next join is refused only because the
/// game is paused, or because one seat is left, which takes another kind of join.
pub proof fn joins_add_up(registry: Registry, wheel: WheelView, who: Seq<Pubkey>)
    requires
        wheel_inv(wheel),
        wheel.status == WheelStatus::Open,
        wheel.participants.len() + who.len() <= WHEEL_SEATS - 1,
    ensures
        joined_by(wheel, who).participants == wheel.participants + seats_taken(
            wheel.participants.len(),
            who,
        ),
        joined_by(wheel, who).total_pool == wheel.total_pool + who.len() * wheel.entry_fee,
        joined_by(wheel, who) == (WheelView {
            participants: joined_by(wheel, who).participants,
            total_pool: joined_by(wheel, who).total_pool,
            ..wheel
        }),
        wheel_inv(joined_by(wheel, who)),
        join_wheel_error(registry, joined_by(wheel, who)) == (if registry.paused {
            Some(ErrorCode::ProtocolPaused)
        } else if wheel.participants.len() + who.len() == WHEEL_SEATS - 1 {
            Some(ErrorCode::UseJoinAndSplitForFinalParticipant)
        } else {
            None
        }),
    decreases who.len(),
{
    let running = Registry { paused: false, ..registry };
    let count = wheel.participants.len();
    let fee = wheel.entry_fee;
    if who.len() == 0 {
        assert(wheel.participants =~= wheel.participants + seats_taken(count, who));
        assert(0 * fee == 0) by (nonlinear_arith);
    } else {
        let earlier = who.drop_last();
        let before = joined_by(wheel, earlier);
        joins_add_up(running, wheel, earlier);
        joins_keep_wheels_good(running, before, who.last());
        assert(joined_by(wheel, who).participants =~= wheel.participants + seats_taken(
            count,
            who,
        ));
        let n = earlier.len();
        assert(n * fee + fee == (n + 1) * fee) by (nonlinear_arith);
    }
    joins_keep_wheels_good(registry, joined_by(wheel, who), registry.authority);
}

/// A new wheel fills seat by seat: up to fourteen joins in a row are accepted while
/// the game is not paused. After them the participants sit in the order in which
/// they joined, eight on earth, four on air and two on fire, the pool holds a fee
/// for each, and the wheel is open and not paid out. Once their fees are paid, the
/// wheel's balance has grown by them. After fourteen, a further join of this kind
/// is refused.
pub proof fn new_wheels_fill_seat_by_seat(
    registry: Registry,
    wheel_id: u64,
    tier: GameTier,
    now: i64,
    who: Seq<Pubkey>,
    balances: Map<Pubkey, u64>,
    wheel_key: Pubkey,
)
    requires
        who.len() <= WHEEL_SEATS - 1,
    ensures
        ({
            let start = new_wheel(wheel_id, tier, now);
            let wheel = joined_by(start, who);
            &&& forall|n: int|
                0 <= n < who.len() ==> join_wheel_error(
                    registry,
                    joined_by(start, #[trigger] who.take(n)),
                ) == (if registry.paused {
                    Some(ErrorCode::ProtocolPaused)
                } else {
                    None
                })
            &&& wheel.participants.len() == who.len()
            &&& forall|i: int|
                0 <= i < who.len() ==> (#[trigger] wheel.participants[i]).pubkey == who[i]
                    && wheel.participants[i].element == seat_element(i as nat)
            &&& wheel.total_pool == who.len() * tier_fee(tier)
            &&& wheel.status == WheelStatus::Open
            &&& !wheel.paid_out
            &&& wheel == (WheelView {
                participants: wheel.participants,
                total_pool: wheel.total_pool,
                ..start
            })
            &&& who.len() == WHEEL_SEATS - 1 && !registry.paused ==> join_wheel_error(
                registry,
                wheel,
            ) == Some(ErrorCode::UseJoinAndSplitForFinalParticipant)
            &&& balances.contains_key(wheel_key) && !who.contains(wheel_key) && after_moves(
                balances,
                collection(who, wheel_key, tier_fee(tier)),
            ) is Some ==> after_moves(
                balances,
                collection(who, wheel_key, tier_fee(tier)),
            )->0[wheel_key] == balances[wheel_key] + who.len() * tier_fee(tier)
        }),
{
    let start = new_wheel(wheel_id, tier, now);
    let fee = tier_fee(tier);
    new_wheels_are_good(wheel_id, tier, now);
    joins_add_up(registry, start, who);
    assert forall|n: int| 0 <= n < who.len() implies join_wheel_error(
        registry,
        joined_by(start, #[trigger] who.take(n)),
    ) == (if registry.paused {
        Some(ErrorCode::ProtocolPaused)
    } else {
        None
    }) by {
        joins_add_up(registry, start, who.take(n));
    }
    assert(joined_by(start, who).participants =~= seats_taken(0, who));
    if balances.contains_key(wheel_key) && after_moves(
        balances,
        collection(who, wheel_key, fee),
    ) is Some {
        collections_add_up(balances, who, wheel_key, fee, wheel_key);
        let n = who.len();
        assert(fee * n == n * fee) by (nonlinear_arith);
    }
}

/// A wheel played from its opening to its split by fifteen joins: the account to be
/// paid is that of the first to join, the pool holds fifteen fees, the second to
/// the eighth go on on the left wheel, and the ninth to the last on the right one.
pub proof fn wheels_are_played_to_their_end(
    registry: Registry,
    wheel_id: u64,
    tier: GameTier,
    now: i64,
    who: Seq<Pubkey>,
    last: Pubkey,
    winner: Pubkey,
    left_id: u64,
    right_id: u64,
)
    requires
        who.len() == WHEEL_SEATS - 1,
    ensures
        ({
            let open = joined_by(new_wheel(wheel_id, tier, now), who);
            let full = filled(open, last);
            let all = who.push(last);
            let left = redistributed(full.participants, true);
            let right = redistributed(full.participants, false);
            &&& join_and_split_error(registry, open, winner, left_id, right_id) is None
                ==> winner == who[0]
            &&& full.total_pool == 15 * tier_fee(tier)
            &&& full.status == WheelStatus::Full
            &&& left.len() == 7 && right.len() == 7
            &&& forall|i: int| 0 <= i < 7 ==> (#[trigger] left[i]).pubkey == all[i + 1]
            &&& forall|i: int| 0 <= i < 7 ==> (#[trigger] right[i]).pubkey == all[i + 8]
        }),
{
    let start = new_wheel(wheel_id, tier, now);
    new_wheels_are_good(wheel_id, tier, now);
    joins_add_up(registry, start, who);
    let open = joined_by(start, who);
    assert(open.participants =~= seats_taken(0, who));
    let fee = tier_fee(tier);
    let n = who.len();
    assert(n * fee + fee == 15 * fee) by (nonlinear_arith)
        requires
            n == 14,
    ;
    let full = filled(open, last);
    let all = who.push(last);
    assert forall|i: int| 0 <= i < 15 implies (#[trigger] full.participants[i]).pubkey
        == all[i] by {}
}

/// A last join leaves a good wheel good, and full. On a good wheel, with an id
/// left to give, it is never refused because the pool cannot be counted.
pub proof fn last_joins_keep_wheels_good(
    registry: Registry,
    wheel: WheelView,
    participant: Pubkey,
    winner: Pubkey,
    left_id: u64,
    right_id: u64,
)
    requires
        wheel_inv(wheel),
    ensures
        join_and_split_error(registry, wheel, winner, left_id, right_id) == Some(
            ErrorCode::Overflow,
        ) ==> registry.wheel_count == u64::MAX,
        join_and_split_error(registry, wheel, winner, left_id, right_id) is None ==> wheel_inv(
            filled(wheel, participant),
        ),
{
    lemma_pool_of(wheel.entry_fee, wheel.participants.len() - seeded(wheel));
}

/// A good open wheel with fourteen participants, of whatever generation and tier,
/// takes the fifteenth when and only when the game runs, the next two ids are asked
/// for and the first participant is named as the winner.
pub proof fn good_wheels_take_their_last_participant(
    registry: Registry,
    wheel: WheelView,
    winner: Pubkey,
    left_id: u64,
    right_id: u64,
)
    requires
        wheel_inv(wheel),
        wheel.status == WheelStatus::Open,
        wheel.participants.len() == 14,
    ensures
        join_and_split_error(registry, wheel, winner, left_id, right_id) is None <==> {
            &&& !registry.paused
            &&& left_id == registry.wheel_count
            &&& right_id == registry.wheel_count + 1
            &&& winner == wheel.participants[0].pubkey
        },
{
    lemma_pool_of(wheel.entry_fee, wheel.participants.len() - seeded(wheel));
}

/// A good open wheel, of whatever generation and tier, takes participants in a
/// running game as long as more than one seat is free.
pub proof fn good_wheels_take_participants(registry: Registry, wheel: WheelView)
    requires
        wheel_inv(wheel),
        wheel.status == WheelStatus::Open,
    ensures
        join_wheel_error(registry, wheel) is None <==> !registry.paused
            && wheel.participants.len() < 14,
{
    lemma_pool_of(wheel.entry_fee, wheel.participants.len() - seeded(wheel));
}

/// Both children of a split cost what the split wheel costs and are of its tier, so
/// the price of a wheel is that of the first wheel from which it comes.
pub proof fn children_cost_what_their_parent_costs(
    wheel_id: u64,
    parent_key: Pubkey,
    parent: WheelView,
    is_left: bool,
    now: i64,
)
    ensures
        child_wheel(wheel_id, parent_key, parent, is_left, now).tier == parent.tier,
        child_wheel(wheel_id, parent_key, parent, is_left, now).entry_fee == parent.entry_fee,
{
}

/// The wheels of a family, each a child of the one before it, are all of one tier
/// and one price.
pub proof fn families_keep_their_price(family: Seq<WheelView>)
    requires
        family.len() > 0,
        forall|i: int|
            0 < i < family.len() ==> is_child_of(#[trigger] family[i], #[trigger] family[i - 1]),
    ensures
        family.last().tier == family[0].tier,
        family.last().entry_fee == family[0].entry_fee,
    decreases family.len(),
{
    if family.len() > 1 {
        let shorter = family.drop_last();
        assert forall|i: int| 0 < i < shorter.len() implies is_child_of(
            #[trigger] shorter[i],
            #[trigger] shorter[i - 1],
        ) by {
            assert(is_child_of(family[i], family[i - 1]));
        }
        families_keep_their_price(shorter);
        let last = family.len() - 1;
        assert(is_child_of(family[last], family[last - 1]));
    }
}

/// The wheel is what a split of the other left, whatever was played on it since.
pub open spec fn is_child_of(wheel: WheelView, parent: WheelView) -> bool {
    exists|wheel_id: u64, key: Pubkey, is_left: bool, now: i64|
        {
            let child = #[trigger] child_wheel(wheel_id, key, parent, is_left, now);
            wheel.tier == child.tier && wheel.entry_fee == child.entry_fee
        }
}

/// A split leaves a good full wheel good, and both its children.
pub proof fn splits_keep_wheels_good(
    wheel: WheelView,
    wheel_key: Pubkey,
    left: WheelView,
    left_key: Pubkey,
    left_id: u64,
    right: WheelView,
    right_key: Pubkey,
    right_id: u64,
    now: i64,
)
    requires
        wheel_inv(wheel),
        wheel.status == WheelStatus::Full,
        children_error(left, right, wheel) is None,
    ensures
        wheel_inv(split_parent(wheel, left_key, right_key)),
        wheel_inv(child_wheel(left_id, wheel_key, wheel, true, now)),
        wheel_inv(child_wheel(right_id, wheel_key, wheel, false, now)),
{
    assert(wheel.entry_fee * 0 == 0) by (nonlinear_arith);
}

/// A refund leaves a good wheel that is not paid out good.
pub proof fn refunds_keep_wheels_good(wheel: WheelView)
    requires
        wheel_inv(wheel),
        !wheel.paid_out,
    ensures
        wheel_inv(WheelView { status: WheelStatus::Refunded, ..wheel }),
{
}

/// The winner leaves and nobody else does: the first seat, the seats of the left
/// wheel and those of the right one are the seats of the split wheel, in order.
/// So the next to win are the second participant and the ninth.
pub proof fn splits_lose_only_the_winner(participants: Seq<CompactParticipant>)
    requires
        participants.len() == WHEEL_SEATS,
    ensures
        redistributed(participants, true).len() == 7,
        redistributed(participants, false).len() == 7,
        seq![participants[0]] + redistributed(participants, true) + redistributed(
            participants,
            false,
        ) == participants,
        redistributed(participants, true)[0] == participants[1],
        redistributed(participants, false)[0] == participants[8],
{
    assert(seq![participants[0]] + redistributed(participants, true) + redistributed(
        participants,
        false,
    ) =~= participants);
}

/// A wheel is paid out once: every split leaves the wheel paid out, and a paid-out
/// wheel is neither split, by either way, nor refunded. Where nothing else is in
/// the way, that it is paid out is the error told.
pub proof fn wheels_are_paid_out_once(
    registry: Registry,
    authority: Pubkey,
    wheel: WheelView,
    lamports: u64,
    left: WheelView,
    left_lamports: u64,
    right: WheelView,
    winner: Pubkey,
    left_id: u64,
    right_id: u64,
    accounts: Seq<RemainingAccount>,
    gas: u64,
    left_key: Pubkey,
    right_key: Pubkey,
)
    ensures
        split_parent(wheel, left_key, right_key).paid_out,
        wheel.paid_out ==> settle_error(
            registry,
            wheel,
            lamports,
            left,
            left_lamports,
            right,
        ) == Some(
            if 2 * left_lamports > u64::MAX {
                ErrorCode::Overflow
            } else {
                ErrorCode::AlreadyPaidOut
            },
        ),
        wheel.paid_out ==> split_wheel_error(
            registry,
            wheel,
            lamports,
            left,
            right,
            winner,
            left_id,
            right_id,
        ) == (if registry.paused {
            Some(ErrorCode::ProtocolPaused)
        } else if child_ids_error(registry, left_id, right_id) is Some {
            child_ids_error(registry, left_id, right_id)
        } else {
            Some(ErrorCode::AlreadyPaidOut)
        }),
        wheel.paid_out ==> refund_wheel_error(
            registry,
            authority,
            wheel,
            lamports,
            accounts,
            gas,
        ) == Some(
            if authority != registry.authority {
                ErrorCode::Unauthorized
            } else if wheel.status == WheelStatus::Refunded {
                ErrorCode::AlreadyRefunded
            } else {
                ErrorCode::AlreadyPaidOut
            },
        ),
{
}

/// A wheel that was split or refunded is at its end: it takes no participant, is
/// not split and not refunded. The error tells which of the two it was, or that
/// the wheel is not open or not full, unless the game is paused, stale ids are
/// asked for or somebody else than the authority asks for a refund.
pub proof fn split_and_refunded_wheels_are_done(
    registry: Registry,
    authority: Pubkey,
    wheel: WheelView,
    lamports: u64,
    left: WheelView,
    right: WheelView,
    winner: Pubkey,
    left_id: u64,
    right_id: u64,
    accounts: Seq<RemainingAccount>,
    gas: u64,
)
    requires
        wheel_inv(wheel),
        wheel.status == WheelStatus::Split || wheel.status == WheelStatus::Refunded,
    ensures
        join_wheel_error(registry, wheel) == Some(
            if registry.paused {
                ErrorCode::ProtocolPaused
            } else if wheel.status == WheelStatus::Refunded {
                ErrorCode::WheelRefunded
            } else {
                ErrorCode::WheelNotOpen
            },
        ),
        join_and_split_error(registry, wheel, winner, left_id, right_id) == (if registry.paused {
            Some(ErrorCode::ProtocolPaused)
        } else if wheel.status == WheelStatus::Refunded {
            Some(ErrorCode::WheelRefunded)
        } else if child_ids_error(registry, left_id, right_id) is Some {
            child_ids_error(registry, left_id, right_id)
        } else {
            Some(ErrorCode::WheelNotOpen)
        }),
        split_wheel_error(registry, wheel, lamports, left, right, winner, left_id, right_id) == (
        if registry.paused {
            Some(ErrorCode::ProtocolPaused)
        } else if child_ids_error(registry, left_id, right_id) is Some {
            child_ids_error(registry, left_id, right_id)
        } else if wheel.status == WheelStatus::Split {
            Some(ErrorCode::AlreadyPaidOut)
        } else {
            Some(ErrorCode::WheelNotFull)
        }),
        refund_wheel_error(registry, authority, wheel, lamports, accounts, gas) == Some(
            if authority != registry.authority {
                ErrorCode::Unauthorized
            } else if wheel.status == WheelStatus::Refunded {
                ErrorCode::AlreadyRefunded
            } else {
                ErrorCode::AlreadyPaidOut
            },
        ),
{
}

/// The balance of a wheel covers its pool, join by join: where it did before and
/// the entry fee was paid in, it does after.
pub proof fn paid_joins_keep_the_pool_covered(wheel: WheelView, lamports: u64, participant: Pubkey)
    requires
        lamports >= wheel.total_pool,
        lamports + wheel.entry_fee <= u64::MAX,
    ensures
        lamports + wheel.entry_fee >= joined(wheel, participant).total_pool,
        lamports + wheel.entry_fee >= filled(wheel, participant).total_pool,
{
}

/// What one move gives to an account.
pub open spec fn credit(m: LamportMove, key: Pubkey) -> int {
    if m.to == key {
        m.lamports as int
    } else {
        0
    }
}

proof fn lemma_two_moves(a: LamportMove, b: LamportMove, key: Pubkey)
    ensures
        moved_sum(seq![a, b]) == a.lamports + b.lamports,
        credited(seq![a, b], key) == credit(a, key) + credit(b, key),
        a.from == b.from ==> debited(seq![a, b], key) == (if a.from == key {
            a.lamports + b.lamports
        } else {
            0
        }),
{
    reveal_with_fuel(moved_sum, 3);
    reveal_with_fuel(credited, 3);
    reveal_with_fuel(debited, 3);
    assert(seq![a, b].drop_last() =~= seq![a]);
    assert(seq![a].drop_last() =~= Seq::<LamportMove>::empty());
}

proof fn lemma_three_moves(a: LamportMove, b: LamportMove, c: LamportMove, key: Pubkey)
    ensures
        moved_sum(seq![a, b, c]) == a.lamports + b.lamports + c.lamports,
        credited(seq![a, b, c], key) == credit(a, key) + credit(b, key) + credit(c, key),
        a.from == b.from && b.from == c.from ==> debited(seq![a, b, c], key) == (if a.from == key {
            a.lamports + b.lamports + c.lamports
        } else {
            0
        }),
{
    lemma_two_moves(a, b, key);
    assert(seq![a, b, c].drop_last() =~= seq![a, b]);
}

/// No lamport of the pool is lost or made when a wheel splits by its last join:
/// payout, commission and the rent given back add up to the pool, which the
/// balance of the wheel covers.
pub proof fn settlements_share_out_the_pool(
    registry: Registry,
    wheel: WheelView,
    wheel_key: Pubkey,
    wheel_lamports: u64,
    left: WheelView,
    child_rent: u64,
    right: WheelView,
    winner: Pubkey,
    wallet: Pubkey,
    participant: Pubkey,
)
    requires
        settle_error(registry, wheel, wheel_lamports, left, child_rent, right) is None,
    ensures
        ({
            let shares = pool_shares(
                distributable(wheel.total_pool, child_rent),
                registry.commission_rate,
            )->Ok_0;
            &&& shares.payout + shares.commission + 2 * child_rent == wheel.total_pool
            &&& moved_sum(
                settle_moves(wheel_key, winner, wallet, participant, shares, child_rent),
            ) == wheel.total_pool <= wheel_lamports
        }),
{
    let shares = pool_shares(
        distributable(wheel.total_pool, child_rent),
        registry.commission_rate,
    )->Ok_0;
    let moves = settle_moves(wheel_key, winner, wallet, participant, shares, child_rent);
    lemma_three_moves(moves[0], moves[1], moves[2], wheel_key);
}

/// No lamport of the pool is lost or made when a full wheel is split: payout and
/// commission add up to the pool, which the balance of the wheel covers.
pub proof fn splits_share_out_the_pool(
    registry: Registry,
    wheel: WheelView,
    wheel_key: Pubkey,
    wheel_lamports: u64,
    left: WheelView,
    right: WheelView,
    winner: Pubkey,
    wallet: Pubkey,
    left_id: u64,
    right_id: u64,
)
    requires
        split_wheel_error(
            registry,
            wheel,
            wheel_lamports,
            left,
            right,
            winner,
            left_id,
            right_id,
        ) is None,
    ensures
        ({
            let shares = pool_shares(wheel.total_pool, registry.commission_rate)->Ok_0;
            &&& shares.payout + shares.commission == wheel.total_pool
            &&& moved_sum(split_moves(wheel_key, winner, wallet, shares)) == wheel.total_pool
                <= wheel_lamports
        }),
{
    let shares = pool_shares(wheel.total_pool, registry.commission_rate)->Ok_0;
    let moves = split_moves(wheel_key, winner, wallet, shares);
    lemma_two_moves(moves[0], moves[1], wheel_key);
}

/// The payments of a wheel that splits by its last join can all be made, and
/// change no balance but by what they give and take: whatever parts an account
/// plays, it gets the payments for all of them, and the wheel pays its pool.
pub proof fn settlements_are_paid(
    balances: Map<Pubkey, u64>,
    registry: Registry,
    wheel: WheelView,
    wheel_key: Pubkey,
    left: WheelView,
    child_rent: u64,
    right: WheelView,
    winner: Pubkey,
    wallet: Pubkey,
    participant: Pubkey,
    key: Pubkey,
)
    requires
        balances.dom().finite(),
        total(balances) <= u64::MAX,
        balances.contains_key(wheel_key),
        balances.contains_key(winner),
        balances.contains_key(wallet),
        balances.contains_key(participant),
        balances.contains_key(key),
        settle_error(registry, wheel, balances[wheel_key], left, child_rent, right) is None,
    ensures
        ({
            let shares = pool_shares(
                distributable(wheel.total_pool, child_rent),
                registry.commission_rate,
            )->Ok_0;
            let after = after_moves(
                balances,
                settle_moves(wheel_key, winner, wallet, participant, shares, child_rent),
            );
            &&& after is Some
            &&& total(after->0) == total(balances)
            &&& after->0[key] == balances[key] + (if key == winner {
                shares.payout as int
            } else {
                0
            }) + (if key == wallet {
                shares.commission as int
            } else {
                0
            }) + (if key == participant {
                2 * child_rent
            } else {
                0
            }) - (if key == wheel_key {
                wheel.total_pool as int
            } else {
                0
            })
        }),
{
    let shares = pool_shares(
        distributable(wheel.total_pool, child_rent),
        registry.commission_rate,
    )->Ok_0;
    let moves = settle_moves(wheel_key, winner, wallet, participant, shares, child_rent);
    lemma_three_moves(moves[0], moves[1], moves[2], key);
    covered_moves_can_be_made(balances, wheel_key, moves);
    moves_conserve_lamports(balances, moves);
    moves_change_balances(balances, moves, key);
}

/// The payments of a full wheel that is split can all be made, and change no
/// balance but by what they give and take.
pub proof fn splits_are_paid(
    balances: Map<Pubkey, u64>,
    registry: Registry,
    wheel: WheelView,
    wheel_key: Pubkey,
    left: WheelView,
    right: WheelView,
    winner: Pubkey,
    wallet: Pubkey,
    left_id: u64,
    right_id: u64,
    key: Pubkey,
)
    requires
        balances.dom().finite(),
        total(balances) <= u64::MAX,
        balances.contains_key(wheel_key),
        balances.contains_key(winner),
        balances.contains_key(wallet),
        balances.contains_key(key),
        split_wheel_error(
            registry,
            wheel,
            balances[wheel_key],
            left,
            right,
            winner,
            left_id,
            right_id,
        ) is None,
    ensures
        ({
            let shares = pool_shares(wheel.total_pool, registry.commission_rate)->Ok_0;
            let after = after_moves(balances, split_moves(wheel_key, winner, wallet, shares));
            &&& after is Some
            &&& total(after->0) == total(balances)
            &&& after->0[key] == balances[key] + (if key == winner {
                shares.payout as int
            } else {
                0
            }) + (if key == wallet {
                shares.commission as int
            } else {
                0
            }) - (if key == wheel_key {
                wheel.total_pool as int
            } else {
                0
            })
        }),
{
    let shares = pool_shares(wheel.total_pool, registry.commission_rate)->Ok_0;
    let moves = split_moves(wheel_key, winner, wallet, shares);
    lemma_two_moves(moves[0], moves[1], key);
    covered_moves_can_be_made(balances, wheel_key, moves);
    moves_conserve_lamports(balances, moves);
    moves_change_balances(balances, moves, key);
}

/// In a good game a filled wheel is always split, unless the rent of its
/// children is above the pool, the wheel does not hold the pool, a child's place
/// is taken, or the wheels or their generations cannot be counted on. The winner
/// gets at least seventy percent of what is shared out.
pub proof fn good_wheels_settle(
    registry: Registry,
    wheel: WheelView,
    wheel_lamports: u64,
    left: WheelView,
    child_rent: u64,
    right: WheelView,
)
    requires
        registry_inv(registry),
        wheel_inv(wheel),
        wheel.status == WheelStatus::Full,
    ensures
        settle_error(registry, wheel, wheel_lamports, left, child_rent, right) is None <==> {
            &&& 2 * child_rent <= wheel.total_pool
            &&& wheel.total_pool <= wheel_lamports
            &&& left.id == 0
            &&& right.id == 0
            &&& wheel.generation < u32::MAX
            &&& registry.wheel_count + 2 <= u64::MAX
        },
        2 * child_rent <= wheel.total_pool ==> ({
            let pool = distributable(wheel.total_pool, child_rent);
            let shares = pool_shares(pool, registry.commission_rate);
            &&& shares is Ok
            &&& shares->Ok_0.payout * 100 >= pool * 70
            &&& shares->Ok_0.commission * 100 <= pool * 30
        }),
{
    lemma_pool_of(wheel.entry_fee, wheel.participants.len() - seeded(wheel));
    if 2 * child_rent <= wheel.total_pool {
        let pool = distributable(wheel.total_pool, child_rent);
        let rate = registry.commission_rate;
        assert(pool * rate <= pool * 30) by (nonlinear_arith)
            requires
                0 <= rate <= 30,
                pool >= 0,
        ;
        shares_add_up(pool, rate);
    }
}

/// In a good game a full wheel is split on request whenever the game is not
/// paused, the next two ids are asked for, the winner is the first participant,
/// the wheel holds its pool, the places of the children are free, and the wheels
/// and their generations can be counted on. The winner gets at least seventy
/// percent of the pool.
pub proof fn good_wheels_split(
    registry: Registry,
    wheel: WheelView,
    wheel_lamports: u64,
    left: WheelView,
    right: WheelView,
    winner: Pubkey,
    left_id: u64,
    right_id: u64,
)
    requires
        registry_inv(registry),
        wheel_inv(wheel),
        wheel.status == WheelStatus::Full,
    ensures
        split_wheel_error(
            registry,
            wheel,
            wheel_lamports,
            left,
            right,
            winner,
            left_id,
            right_id,
        ) is None <==> {
            &&& !registry.paused
            &&& left_id == registry.wheel_count
            &&& right_id == registry.wheel_count + 1
            &&& winner == wheel.participants[0].pubkey
            &&& wheel.total_pool <= wheel_lamports
            &&& left.id == 0
            &&& right.id == 0
            &&& wheel.generation < u32::MAX
            &&& registry.wheel_count + 2 <= u64::MAX
        },
        ({
            let shares = pool_shares(wheel.total_pool, registry.commission_rate);
            &&& shares is Ok
            &&& shares->Ok_0.payout * 100 >= wheel.total_pool * 70
            &&& shares->Ok_0.commission * 100 <= wheel.total_pool * 30
        }),
{
    lemma_pool_of(wheel.entry_fee, wheel.participants.len() - seeded(wheel));
    let pool = wheel.total_pool;
    let rate = registry.commission_rate;
    assert(pool * rate <= pool * 30) by (nonlinear_arith)
        requires
            0 <= rate <= 30,
            pool >= 0,
    ;
    shares_add_up(pool, rate);
}

/// The last join of a good wheel that holds its pool, once paid for, splits it:
/// nothing is in the way but rents above the pool, taken places, and wheels or
/// generations that cannot be counted on.
pub proof fn paid_last_joins_split_the_wheel(
    registry: Registry,
    wheel: WheelView,
    lamports: u64,
    participant: Pubkey,
    winner: Pubkey,
    left_id: u64,
    right_id: u64,
    left: WheelView,
    child_rent: u64,
    right: WheelView,
)
    requires
        registry_inv(registry),
        wheel_inv(wheel),
        join_and_split_error(registry, wheel, winner, left_id, right_id) is None,
        lamports >= wheel.total_pool,
        lamports + wheel.entry_fee <= u64::MAX,
    ensures
        settle_error(
            registry,
            filled(wheel, participant),
            (lamports + wheel.entry_fee) as u64,
            left,
            child_rent,
            right,
        ) is None <==> {
            &&& 2 * child_rent <= wheel.total_pool + wheel.entry_fee
            &&& left.id == 0
            &&& right.id == 0
            &&& wheel.generation < u32::MAX
            &&& registry.wheel_count + 2 <= u64::MAX
        },
{
    last_joins_keep_wheels_good(registry, wheel, participant, winner, left_id, right_id);
    good_wheels_settle(
        registry,
        filled(wheel, participant),
        (lamports + wheel.entry_fee) as u64,
        left,
        child_rent,
        right,
    );
}

/// The last join of a wheel from end to end, the payment of the entry fee and those
/// of the split: all of them can be made, and no lamport is lost or made. The last
/// participant ends with the rent of both children more and the fee less, the
/// wheel with the pool that it had before less, the winner with the payout and the
/// wallet with the commission more. An account that plays several parts gets and
/// gives for all of them.
pub proof fn last_joins_are_paid(
    balances: Map<Pubkey, u64>,
    registry: Registry,
    wheel: WheelView,
    wheel_key: Pubkey,
    participant: Pubkey,
    winner: Pubkey,
    wallet: Pubkey,
    left_id: u64,
    right_id: u64,
    left: WheelView,
    child_rent: u64,
    right: WheelView,
    key: Pubkey,
)
    requires
        balances.dom().finite(),
        total(balances) <= u64::MAX,
        balances.contains_key(wheel_key),
        balances.contains_key(participant),
        balances.contains_key(winner),
        balances.contains_key(wallet),
        balances.contains_key(key),
        balances[participant] >= wheel.entry_fee,
        join_and_split_error(registry, wheel, winner, left_id, right_id) is None,
    ensures
        ({
            let fee = LamportMove {
                from: participant,
                to: wheel_key,
                lamports: wheel.entry_fee,
            };
            let full = filled(wheel, participant);
            let paid = after_move(balances, fee);
            let shares = pool_shares(
                distributable(full.total_pool, child_rent),
                registry.commission_rate,
            )->Ok_0;
            let after = after_moves(
                paid->0,
                settle_moves(wheel_key, winner, wallet, participant, shares, child_rent),
            );
            &&& paid is Some
            &&& settle_error(
                registry,
                full,
                paid->0[wheel_key],
                left,
                child_rent,
                right,
            ) is None ==> {
                &&& after is Some
                &&& total(after->0) == total(balances)
                &&& after->0[key] == balances[key] + (if key == participant {
                    2 * child_rent - wheel.entry_fee
                } else {
                    0
                }) - (if key == wheel_key {
                    wheel.total_pool as int
                } else {
                    0
                }) + (if key == winner {
                    shares.payout as int
                } else {
                    0
                }) + (if key == wallet {
                    shares.commission as int
                } else {
                    0
                })
            }
        }),
{
    let fee = LamportMove { from: participant, to: wheel_key, lamports: wheel.entry_fee };
    let moves = seq![fee];
    assert(moves.drop_last() =~= Seq::<LamportMove>::empty());
    reveal_with_fuel(moved_sum, 2);
    reveal_with_fuel(after_moves, 2);
    covered_moves_can_be_made(balances, participant, moves);
    move_conserves_lamports(balances, fee);
    let paid = after_move(balances, fee)->0;
    let full = filled(wheel, participant);
    if settle_error(registry, full, paid[wheel_key], left, child_rent, right) is None {
        settlements_are_paid(
            paid,
            registry,
            full,
            wheel_key,
            left,
            child_rent,
            right,
            winner,
            wallet,
            participant,
            key,
        );
    }
}

/// What a refund takes off: each participant gets at least nine tenths of the
/// entry fee back, and what is given back and what is kept add up to the fees of
/// all seats.
pub proof fn refunds_keep_a_tenth_at_most(
    registry: Registry,
    authority: Pubkey,
    wheel: WheelView,
    wheel_lamports: u64,
    accounts: Seq<RemainingAccount>,
    gas: u64,
)
    requires
        refund_wheel_error(registry, authority, wheel, wheel_lamports, accounts, gas) is None,
    ensures
        refund_of(wheel, gas) * 10 >= wheel.entry_fee * 9,
        refund_of(wheel, gas) * wheel.participants.len() + gas * wheel.participants.len()
            == wheel.entry_fee * wheel.participants.len(),
{
    let count = wheel.participants.len();
    let refund = refund_of(wheel, gas);
    assert(refund * count + gas * count == wheel.entry_fee * count) by (nonlinear_arith)
        requires
            refund + gas == wheel.entry_fee,
    ;
}

/// A good wheel of the first generation that holds its pool can always pay its
/// refunds. A child cannot promise that: the seven whom a split left to it paid
/// their fees elsewhere.
pub proof fn first_wheels_can_pay_their_refunds(
    registry: Registry,
    authority: Pubkey,
    wheel: WheelView,
    lamports: u64,
    accounts: Seq<RemainingAccount>,
    gas: u64,
)
    requires
        wheel_inv(wheel),
        wheel.generation == 0,
        lamports >= wheel.total_pool,
    ensures
        refund_wheel_error(registry, authority, wheel, lamports, accounts, gas) != Some(
            ErrorCode::InsufficientBalanceForRefund,
        ),
        refund_wheel_error(registry, authority, wheel, lamports, accounts, gas) != Some(
            ErrorCode::Overflow,
        ),
{
    let count = wheel.participants.len();
    let fee = wheel.entry_fee;
    if gas <= fee / 10 {
        let refund = refund_of(wheel, gas);
        assert(refund * count <= fee * count) by (nonlinear_arith)
            requires
                0 <= refund <= fee,
                count >= 0,
        ;
        if accounts.len() == count {
            lemma_recipient_errors(wheel.participants, accounts, 0);
        }
    }
}

/// Only two things can be wrong with the accounts that are to take refunds.
proof fn lemma_recipient_errors(
    participants: Seq<CompactParticipant>,
    accounts: Seq<RemainingAccount>,
    from: int,
)
    ensures
        recipients_error(participants, accounts, from) matches Some(error) ==> error
            == ErrorCode::InvalidRecipient || error == ErrorCode::AccountNotWritable,
    decreases participants.len() - from,
{
    if from < participants.len() {
        lemma_recipient_errors(participants, accounts, from + 1);
    }
}

proof fn lemma_recipients_up_to(
    participants: Seq<CompactParticipant>,
    accounts: Seq<RemainingAccount>,
    from: int,
    at: int,
)
    requires
        0 <= from <= at <= participants.len(),
        forall|i: int|
            from <= i < at ==> recipient_error(#[trigger] participants[i], accounts[i]) is None,
        at < participants.len() ==> recipient_error(participants[at], accounts[at]) is Some,
    ensures
        recipients_error(participants, accounts, from) == (if at < participants.len() {
            recipient_error(participants[at], accounts[at])
        } else {
            None
        }),
    decreases at - from,
{
    if from < at {
        assert(recipient_error(participants[from], accounts[from]) is None);
        lemma_recipients_up_to(participants, accounts, from + 1, at);
    }
}

/// What is wrong with the accounts of a refund is what is wrong with the first that
/// does not fit its seat, and nothing where all of them fit.
pub proof fn the_first_misfit_stops_a_refund(
    participants: Seq<CompactParticipant>,
    accounts: Seq<RemainingAccount>,
    at: int,
)
    requires
        accounts.len() == participants.len(),
        0 <= at <= participants.len(),
        forall|i: int|
            0 <= i < at ==> recipient_error(#[trigger] participants[i], accounts[i]) is None,
        at < participants.len() ==> recipient_error(participants[at], accounts[at]) is Some,
    ensures
        recipients_error(participants, accounts, 0) == (if at < participants.len() {
            recipient_error(participants[at], accounts[at])
        } else {
            None
        }),
{
    lemma_recipients_up_to(participants, accounts, 0, at);
}

proof fn lemma_recipients_from(
    participants: Seq<CompactParticipant>,
    accounts: Seq<RemainingAccount>,
    from: int,
)
    requires
        recipients_error(participants, accounts, from) is None,
    ensures
        forall|i: int|
            from <= i < participants.len() ==> recipient_error(
                #[trigger] participants[i],
                accounts[i],
            ) is None,
    decreases participants.len() - from,
{
    if from < participants.len() {
        lemma_recipients_from(participants, accounts, from + 1);
    }
}

/// The accounts of a refund are accepted when and only when each has the address of
/// its seat's owner and can be written.
pub proof fn refund_accounts_fit_their_seats(
    participants: Seq<CompactParticipant>,
    accounts: Seq<RemainingAccount>,
)
    requires
        accounts.len() == participants.len(),
    ensures
        recipients_error(participants, accounts, 0) is None <==> forall|i: int|
            0 <= i < participants.len() ==> (#[trigger] accounts[i]).key == participants[i].pubkey
                && accounts[i].is_writable,
{
    if recipients_error(participants, accounts, 0) is None {
        lemma_recipients_from(participants, accounts, 0);
        assert forall|i: int| 0 <= i < participants.len() implies (#[trigger] accounts[i]).key
            == participants[i].pubkey && accounts[i].is_writable by {
            assert(recipient_error(participants[i], accounts[i]) is None);
        }
    }
    if forall|i: int|
        0 <= i < participants.len() ==> (#[trigger] accounts[i]).key == participants[i].pubkey
            && accounts[i].is_writable {
        assert forall|i: int| 0 <= i < participants.len() implies recipient_error(
            #[trigger] participants[i],
            accounts[i],
        ) is None by {
            assert(accounts[i].is_writable);
        }
        lemma_recipients_up_to(participants, accounts, 0, participants.len() as int);
    }
}

/// A good wheel that is neither paid out nor refunded and has a participant, be it
/// only one, is refunded when and only when the authority asks, the cost of a
/// refund is a tenth of the fee at most, the wheel holds all refunds, and each seat
/// has its account, in order and writable.
pub proof fn good_wheels_are_refunded(
    registry: Registry,
    authority: Pubkey,
    wheel: WheelView,
    lamports: u64,
    accounts: Seq<RemainingAccount>,
    gas: u64,
)
    requires
        wheel_inv(wheel),
        !wheel.paid_out,
        wheel.status != WheelStatus::Refunded,
        wheel.participants.len() >= 1,
    ensures
        refund_wheel_error(registry, authority, wheel, lamports, accounts, gas) is None <==> {
            &&& authority == registry.authority
            &&& gas * 10 <= wheel.entry_fee
            &&& (wheel.entry_fee - gas) * wheel.participants.len() <= lamports
            &&& accounts.len() == wheel.participants.len()
            &&& forall|i: int|
                0 <= i < wheel.participants.len() ==> (#[trigger] accounts[i]).key
                    == wheel.participants[i].pubkey && accounts[i].is_writable
        },
{
    if accounts.len() == wheel.participants.len() {
        refund_accounts_fit_their_seats(wheel.participants, accounts);
    }
}

/// The seats that an account holds.
pub open spec fn seats_of(participants: Seq<CompactParticipant>, key: Pubkey) -> nat
    decreases participants.len(),
{
    if participants.len() == 0 {
        0
    } else {
        seats_of(participants.drop_last(), key) + if participants.last().pubkey == key {
            1nat
        } else {
            0nat
        }
    }
}

proof fn lemma_refund_sums(
    participants: Seq<CompactParticipant>,
    moves: Seq<LamportMove>,
    wheel_key: Pubkey,
    refund: u64,
    key: Pubkey,
)
    requires
        moves.len() == participants.len(),
        forall|i: int|
            0 <= i < participants.len() ==> #[trigger] moves[i] == (LamportMove {
                from: wheel_key,
                to: participants[i].pubkey,
                lamports: refund,
            }),
    ensures
        moved_sum(moves) == refund * participants.len(),
        credited(moves, key) == refund * seats_of(participants, key),
        debited(moves, key) == (if key == wheel_key {
            refund * participants.len()
        } else {
            0
        }),
    decreases participants.len(),
{
    if participants.len() > 0 {
        let seats = participants.drop_last();
        let shorter = moves.drop_last();
        assert forall|i: int| 0 <= i < seats.len() implies #[trigger] shorter[i] == (LamportMove {
            from: wheel_key,
            to: seats[i].pubkey,
            lamports: refund,
        }) by {
            assert(shorter[i] == moves[i]);
        }
        lemma_refund_sums(seats, shorter, wheel_key, refund, key);
        assert(moves.last() == moves[participants.len() - 1]);
        let n = seats.len();
        let held = seats_of(seats, key);
        assert(refund * n + refund == refund * (n + 1) && refund * held + refund == refund * (held
            + 1)) by (nonlinear_arith);
    } else {
        assert(refund * 0 == 0) by (nonlinear_arith);
    }
}

/// A refund can be paid in full: each account gets one refund for every seat that
/// it holds, the wheel pays them all, and no lamport is lost or made.
pub proof fn refunds_are_paid(
    balances: Map<Pubkey, u64>,
    registry: Registry,
    authority: Pubkey,
    wheel: WheelView,
    wheel_key: Pubkey,
    accounts: Seq<RemainingAccount>,
    gas: u64,
    key: Pubkey,
)
    requires
        balances.dom().finite(),
        total(balances) <= u64::MAX,
        balances.contains_key(wheel_key),
        balances.contains_key(key),
        forall|i: int|
            0 <= i < wheel.participants.len() ==> balances.contains_key(
                (#[trigger] wheel.participants[i]).pubkey,
            ),
        refund_wheel_error(registry, authority, wheel, balances[wheel_key], accounts, gas) is None,
    ensures
        ({
            let refund = refund_of(wheel, gas);
            let after = after_moves(balances, refund_moves(wheel_key, accounts, refund));
            &&& after is Some
            &&& total(after->0) == total(balances)
            &&& after->0[key] == balances[key] + refund * seats_of(wheel.participants, key) - (
            if key == wheel_key {
                refund * wheel.participants.len()
            } else {
                0
            })
        }),
{
    let refund = refund_of(wheel, gas);
    let moves = refund_moves(wheel_key, accounts, refund);
    refund_accounts_fit_their_seats(wheel.participants, accounts);
    assert forall|i: int| 0 <= i < wheel.participants.len() implies #[trigger] moves[i] == (
    LamportMove { from: wheel_key, to: wheel.participants[i].pubkey, lamports: refund }) by {
        assert(accounts[i].key == wheel.participants[i].pubkey);
    }
    lemma_refund_sums(wheel.participants, moves, wheel_key, refund, key);
    covered_moves_can_be_made(balances, wheel_key, moves);
    moves_conserve_lamports(balances, moves);
    moves_change_balances(balances, moves, key);
}

} // verus!
