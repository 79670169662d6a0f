//! What each instruction is for: when it is granted, what it then changes and
//! pays, and what it answers when it is refused.
use super::accounts::{
    initialize_registry_accounts_error, initialize_wheel_accounts_error,
    join_and_split_accounts_error, join_wheel_accounts_error, refund_wheel_accounts_error,
    split_wheel_accounts_error, update_registry_accounts_error, InitializeRegistry,
    InitializeWheel, JoinAndSplit, JoinWheel, RefundWheel, SplitWheel, UpdateRegistry,
};
use super::error::ErrorCode;
use super::join::{initialize_wheel_outcome, join_wheel_outcome, JoinReceipt};
use super::laws::{refund_accounts_fit_their_seats, the_first_misfit_stops_a_refund};
use super::refund::{recipient_error, refund_wheel_outcome, RefundReceipt};
use super::registry::{
    initialize_registry_outcome, pause_protocol_outcome, update_commission_rate_outcome,
    update_commission_wallet_outcome,
};
use super::split::{
    initialize_child_wheel_center_wins_outcome, join_and_split_outcome,
    settle_join_and_split_outcome, split_wheel_outcome, AutoSplitReceipt, PendingSplit,
    SplitReceipt,
};
use super::state::{
    tier_fee, CommissionWalletUpdated, Element, GameTier, Registry, RemainingAccount, Wheel,
    WheelAccount, WheelCreated, WheelStatus,
};
use crate::pubkey::Pubkey;
use crate::signer::AccountsError;
use crate::transfer::is_system_transfer;
use vstd::prelude::*;

verus! {

/// The price of a tier in hundredths of a SOL.
pub open spec fn price(tier: GameTier) -> int {
    match tier {
        GameTier::EmberWolf => 1,
        GameTier::SkyWalker => 10,
        GameTier::Flamecaster => 100,
        GameTier::StormWarrior => 500,
        GameTier::TideWarlord => 1_000,
        GameTier::StoneTitan => 5_000,
        GameTier::VoidReaper => 10_000,
        GameTier::AstralEmperor => 50_000,
        GameTier::CelestialOverlord => 100_000,
    }
}

/// The fee of a tier is its price, a hundredth of a SOL being ten million lamports.
pub proof fn tiers_have_their_price(tier: GameTier)
    ensures
        tier_fee(tier) == price(tier) * 10_000_000,
{
}

/// Setting the game up is never refused: who does it becomes authority and
/// treasury, no wheel is counted, fifteen percent go to the given wallet, the game
/// runs, and the rate counts as changed now.
pub proof fn setting_up(
    before: InitializeRegistry,
    wallet: Pubkey,
    now: i64,
    after: InitializeRegistry,
    done: Result<(), ErrorCode>,
)
    requires
        initialize_registry_outcome(before, wallet, now, after, done),
    ensures
        done is Ok,
        after.authority == before.authority,
        after.registry.authority == before.authority.key,
        after.registry.treasury == before.authority.key,
        after.registry.commission_wallet == wallet,
        after.registry.wheel_count == 0,
        after.registry.commission_rate == 15,
        !after.registry.paused,
        after.registry.last_rate_change == now,
{
}

/// The registries differ in nothing but the commission rate and its time.
pub open spec fn same_but_rate(a: Registry, b: Registry) -> bool {
    &&& a.authority == b.authority
    &&& a.treasury == b.treasury
    &&& a.commission_wallet == b.commission_wallet
    &&& a.wheel_count == b.wheel_count
    &&& a.paused == b.paused
}

/// The registries differ in nothing but the count of wheels.
pub open spec fn same_but_count(a: Registry, b: Registry) -> bool {
    &&& a.authority == b.authority
    &&& a.treasury == b.treasury
    &&& a.commission_wallet == b.commission_wallet
    &&& a.commission_rate == b.commission_rate
    &&& a.paused == b.paused
    &&& a.last_rate_change == b.last_rate_change
}

/// A rate from one to thirty percent is set when the last change is a week ago, or
/// was made no later than the start of the clock, and the time between can be
/// counted. Nothing else changes.
pub proof fn changing_the_rate(
    before: UpdateRegistry,
    rate: u8,
    now: i64,
    after: UpdateRegistry,
    done: Result<(), ErrorCode>,
)
    requires
        update_commission_rate_outcome(before, rate, now, after, done),
    ensures
        ({
            let last = before.registry.last_rate_change;
            let allowed = 1 <= rate <= 30;
            let countable = i64::MIN <= now - last <= i64::MAX;
            let due = last <= 0 || now - last >= 604_800;
            &&& done is Ok <==> allowed && countable && due
            &&& !allowed ==> done == Err::<(), ErrorCode>(ErrorCode::InvalidCommissionRate)
            &&& allowed && !countable ==> done == Err::<(), ErrorCode>(ErrorCode::Underflow)
            &&& allowed && countable && !due ==> done == Err::<(), ErrorCode>(
                ErrorCode::RateLimitExceeded,
            )
            &&& done is Err ==> after == before
            &&& done is Ok ==> {
                &&& after.registry.commission_rate == rate
                &&& after.registry.last_rate_change == now
                &&& same_but_rate(after.registry, before.registry)
                &&& after.authority == before.authority
            }
        }),
{
}

/// A new wallet is always set, and both wallets, who asked and when are told.
/// Nothing else changes.
pub proof fn changing_the_wallet(
    before: UpdateRegistry,
    wallet: Pubkey,
    now: i64,
    after: UpdateRegistry,
    event: Result<CommissionWalletUpdated, ErrorCode>,
)
    requires
        update_commission_wallet_outcome(before, wallet, now, after, event),
    ensures
        event is Ok,
        event->Ok_0.old_wallet == before.registry.commission_wallet,
        event->Ok_0.new_wallet == wallet,
        event->Ok_0.updated_by == before.authority.key,
        event->Ok_0.timestamp == now,
        after.registry.commission_wallet == wallet,
        after.registry.authority == before.registry.authority,
        after.registry.treasury == before.registry.treasury,
        after.registry.wheel_count == before.registry.wheel_count,
        after.registry.commission_rate == before.registry.commission_rate,
        after.registry.paused == before.registry.paused,
        after.registry.last_rate_change == before.registry.last_rate_change,
        after.authority == before.authority,
{
}

/// The game is paused or runs as asked. Nothing else changes.
pub proof fn pausing(
    before: UpdateRegistry,
    paused: bool,
    after: UpdateRegistry,
    done: Result<(), ErrorCode>,
)
    requires
        pause_protocol_outcome(before, paused, after, done),
    ensures
        done is Ok,
        after.registry.paused == paused,
        same_but_rate(after.registry, Registry { paused, ..before.registry }),
        after.registry.commission_rate == before.registry.commission_rate,
        after.registry.last_rate_change == before.registry.last_rate_change,
        after.authority == before.authority,
{
}

/// A wheel is opened in a running game with the id that comes next, the first with
/// zero, unless the ids are used up. It costs the price of its tier, and has no
/// parent, no children, no participants and no pool.
pub proof fn opening_a_wheel(
    before: InitializeWheel,
    wheel_id: u64,
    tier: GameTier,
    now: i64,
    after: InitializeWheel,
    event: Result<WheelCreated, ErrorCode>,
)
    requires
        initialize_wheel_outcome(before, wheel_id, tier, now, after, event),
    ensures
        ({
            let count = before.registry.wheel_count;
            let wheel = after.wheel.wheel;
            &&& event is Ok <==> !before.registry.paused && wheel_id == count && count < u64::MAX
            &&& before.registry.paused ==> event == Err::<WheelCreated, ErrorCode>(
                ErrorCode::ProtocolPaused,
            )
            &&& !before.registry.paused && wheel_id != count ==> event == Err::<
                WheelCreated,
                ErrorCode,
            >(ErrorCode::InvalidWheelId)
            &&& !before.registry.paused && wheel_id == count && count == u64::MAX ==> event == Err::<
                WheelCreated,
                ErrorCode,
            >(ErrorCode::Overflow)
            &&& event is Err ==> after == before
            &&& event is Ok ==> {
                &&& wheel.id == wheel_id
                &&& wheel.parent is None
                &&& wheel.children@.len() == 2
                &&& wheel.children@[0] is None && wheel.children@[1] is None
                &&& wheel.participants@.len() == 0
                &&& wheel.status == WheelStatus::Open
                &&& wheel.entry_fee == price(tier) * 10_000_000
                &&& wheel.total_pool == 0
                &&& wheel.generation == 0
                &&& wheel.created_at == now
                &&& !wheel.paid_out
                &&& wheel.tier == tier
                &&& after.wheel.key == before.wheel.key
                &&& after.wheel.lamports == before.wheel.lamports
                &&& after.registry.wheel_count == count + 1
                &&& same_but_count(after.registry, before.registry)
                &&& after.authority == before.authority
                &&& event->Ok_0.wheel_id == wheel_id
                &&& event->Ok_0.tier == tier
                &&& event->Ok_0.entry_fee == wheel.entry_fee
                &&& event->Ok_0.timestamp == now
            }
        }),
{
}

/// The wheels differ in nothing but seats, pool and status.
pub open spec fn same_but_play(a: Wheel, b: Wheel) -> bool {
    &&& a.id == b.id
    &&& a.parent == b.parent
    &&& a.children@ == b.children@
    &&& a.entry_fee == b.entry_fee
    &&& a.generation == b.generation
    &&& a.created_at == b.created_at
    &&& a.paid_out == b.paid_out
    &&& a.tier == b.tier
}

/// Whatever its generation, tier and pool, an open wheel of a running game takes a
/// participant on each of its first fourteen seats, as long as the pool can be
/// counted: on earth for the first eight, on air for four, on fire for two. The
/// fee goes from the participant to the wheel and is added to the pool.
pub proof fn joining(before: JoinWheel, after: JoinWheel, receipt: Result<JoinReceipt, ErrorCode>)
    requires
        join_wheel_outcome(before, after, receipt),
    ensures
        ({
            let wheel = before.wheel.wheel;
            let seats = wheel.participants@;
            let running = !before.registry.paused;
            let open = wheel.status == WheelStatus::Open;
            let refunded = wheel.status == WheelStatus::Refunded;
            let room = seats.len() < 14;
            let countable = wheel.total_pool + wheel.entry_fee <= u64::MAX;
            &&& receipt is Ok <==> running && open && room && countable
            &&& receipt is Err ==> after == before
            &&& !running ==> receipt == Err::<JoinReceipt, ErrorCode>(ErrorCode::ProtocolPaused)
            &&& running && refunded ==> receipt == Err::<JoinReceipt, ErrorCode>(
                ErrorCode::WheelRefunded,
            )
            &&& running && !refunded && !open ==> receipt == Err::<JoinReceipt, ErrorCode>(
                ErrorCode::WheelNotOpen,
            )
            &&& running && open && !room ==> receipt == Err::<JoinReceipt, ErrorCode>(
                ErrorCode::UseJoinAndSplitForFinalParticipant,
            )
            &&& running && open && room && !countable ==> receipt == Err::<JoinReceipt, ErrorCode>(
                ErrorCode::Overflow,
            )
            &&& receipt is Ok ==> {
                let now = after.wheel.wheel;
                let event = receipt->Ok_0.event;
                &&& now.participants@.len() == seats.len() + 1
                &&& now.participants@.drop_last() == seats
                &&& now.participants@.last().pubkey == before.participant.key
                &&& now.participants@.last().element == event.element
                &&& event.element == (if seats.len() < 8 {
                    Element::Earth
                } else if seats.len() < 12 {
                    Element::Air
                } else {
                    Element::Fire
                })
                &&& now.total_pool - wheel.total_pool == wheel.entry_fee
                &&& now.status == WheelStatus::Open
                &&& same_but_play(now, wheel)
                &&& is_system_transfer(
                    receipt->Ok_0.instruction,
                    before.participant.key,
                    before.wheel.key,
                    wheel.entry_fee,
                )
                &&& event.wheel_id == wheel.id
                &&& event.participant == before.participant.key
                &&& event.entry_fee == wheel.entry_fee
                &&& event.participant_count == seats.len() + 1
                &&& after.wheel.key == before.wheel.key
                &&& after.wheel.lamports == before.wheel.lamports
                &&& after.participant == before.participant
                &&& after.registry == before.registry
                &&& after.treasury == before.treasury
            }
        }),
{
    if receipt is Ok {
        assert(after.wheel.wheel.participants@.drop_last() =~= before.wheel.wheel.participants@);
    }
}

/// Whatever its generation, tier and pool, an open wheel of a running game with
/// fourteen participants takes the fifteenth, if the next two ids and the first
/// participant as winner are named and the pool can be counted. The fee goes from
/// the participant to the wheel and is added to the pool, and the wheel is full.
pub proof fn joining_last(
    before: JoinAndSplit,
    left_id: u64,
    right_id: u64,
    after: JoinAndSplit,
    pending: Result<PendingSplit, ErrorCode>,
)
    requires
        join_and_split_outcome(before, left_id, right_id, after, pending),
    ensures
        ({
            let wheel = before.wheel.wheel;
            let seats = wheel.participants@;
            let count = before.registry.wheel_count;
            let running = !before.registry.paused;
            let refunded = wheel.status == WheelStatus::Refunded;
            let open = wheel.status == WheelStatus::Open;
            let next = left_id == count && right_id == count + 1;
            let winner = before.center_winner == seats[0].pubkey;
            let countable = wheel.total_pool + wheel.entry_fee <= u64::MAX;
            let early = running && !refunded;
            &&& pending is Ok <==> running && open && next && seats.len() == 14 && winner
                && countable
            &&& pending is Err ==> after == before
            &&& !running ==> pending == Err::<PendingSplit, ErrorCode>(ErrorCode::ProtocolPaused)
            &&& running && refunded ==> pending == Err::<PendingSplit, ErrorCode>(
                ErrorCode::WheelRefunded,
            )
            &&& early && left_id == count && count == u64::MAX ==> pending == Err::<
                PendingSplit,
                ErrorCode,
            >(ErrorCode::Overflow)
            &&& early && !next && !(left_id == count && count == u64::MAX) ==> pending == Err::<
                PendingSplit,
                ErrorCode,
            >(ErrorCode::StaleWheelIds)
            &&& early && next && !open ==> pending == Err::<PendingSplit, ErrorCode>(
                ErrorCode::WheelNotOpen,
            )
            &&& running && next && open && seats.len() != 14 ==> pending == Err::<
                PendingSplit,
                ErrorCode,
            >(ErrorCode::NotFinalParticipant)
            &&& running && next && open && seats.len() == 14 && !winner ==> pending == Err::<
                PendingSplit,
                ErrorCode,
            >(ErrorCode::InvalidCenterWinner)
            &&& running && next && open && seats.len() == 14 && winner && !countable ==> pending
                == Err::<PendingSplit, ErrorCode>(ErrorCode::Overflow)
            &&& pending is Ok ==> {
                let now = after.wheel.wheel;
                &&& now.participants@.len() == 15
                &&& now.participants@.drop_last() == seats
                &&& now.participants@.last().pubkey == before.participant.key
                &&& now.participants@.last().element == Element::Fire
                &&& now.total_pool - wheel.total_pool == wheel.entry_fee
                &&& now.status == WheelStatus::Full
                &&& same_but_play(now, wheel)
                &&& is_system_transfer(
                    pending->Ok_0.instruction,
                    before.participant.key,
                    before.wheel.key,
                    wheel.entry_fee,
                )
                &&& pending->Ok_0.center_winner == seats[0].pubkey
                &&& pending->Ok_0.element == Element::Fire
                &&& pending->Ok_0.entry_fee == wheel.entry_fee
                &&& pending->Ok_0.left_id == left_id
                &&& pending->Ok_0.right_id == right_id
                &&& after.wheel.key == before.wheel.key
                &&& after.wheel.lamports == before.wheel.lamports
                &&& after.participant == before.participant
                &&& after.registry == before.registry
                &&& after.treasury == before.treasury
                &&& after.commission_wallet == before.commission_wallet
                &&& after.center_winner == before.center_winner
                &&& after.left_wheel == before.left_wheel
                &&& after.right_wheel == before.right_wheel
            }
        }),
{
    if pending is Ok {
        assert(after.wheel.wheel.participants@.drop_last() =~= before.wheel.wheel.participants@);
    }
}

/// A child takes over from its parent all but what is its own: it costs what the
/// parent costs, in the same tier, and is one generation further. It starts open,
/// without children or pool, and seats those of the parent's seven seats from the
/// second on, or on the right from the ninth on, that are taken.
pub open spec fn is_child(
    child: Wheel,
    wheel_id: u64,
    parent_key: Pubkey,
    parent: Wheel,
    is_left: bool,
    now: i64,
) -> bool {
    let first: int = if is_left {
        1
    } else {
        8
    };
    &&& child.id == wheel_id
    &&& child.parent == Some(parent_key)
    &&& child.children@.len() == 2 && child.children@[0] is None && child.children@[1] is None
    &&& child.status == WheelStatus::Open
    &&& child.tier == parent.tier
    &&& child.entry_fee == parent.entry_fee
    &&& child.total_pool == 0
    &&& child.generation == parent.generation + 1
    &&& child.created_at == now
    &&& !child.paid_out
    &&& child.participants@.len() <= 7
    &&& forall|i: int|
        0 <= i < child.participants@.len() ==> first + i < parent.participants@.len()
            && #[trigger] child.participants@[i] == parent.participants@[first + i]
    &&& child.participants@.len() < 7 ==> first + child.participants@.len()
        >= parent.participants@.len()
}

/// A child is made in a free place, whatever the parent's tier and fee, as long as
/// the generations can be counted.
pub proof fn making_a_child(
    place: Wheel,
    wheel_id: u64,
    parent: WheelAccount,
    is_left: bool,
    now: i64,
    child: Result<Wheel, ErrorCode>,
)
    requires
        initialize_child_wheel_center_wins_outcome(place, wheel_id, parent, is_left, now, child),
    ensures
        child is Ok <==> place.id == 0 && parent.wheel.generation < u32::MAX,
        place.id != 0 ==> child == Err::<Wheel, ErrorCode>(ErrorCode::WheelAlreadyInitialized),
        place.id == 0 && parent.wheel.generation == u32::MAX ==> child == Err::<Wheel, ErrorCode>(
            ErrorCode::Overflow,
        ),
        child is Ok ==> is_child(child->Ok_0, wheel_id, parent.key, parent.wheel, is_left, now),
{
}

/// The commission is the rate's part of the pool, rounded down.
pub open spec fn is_commission(commission: int, pool: int, rate: int) -> bool {
    commission * 100 <= pool * rate < (commission + 1) * 100
}

/// The wheel is closed by its split: paid out, with both children known, and
/// otherwise as it was.
pub open spec fn is_split(after: Wheel, before: Wheel, left: Pubkey, right: Pubkey) -> bool {
    &&& after.status == WheelStatus::Split
    &&& after.paid_out
    &&& after.children@.len() == 2 && after.children@[0] == Some(left) && after.children@[1]
        == Some(right)
    &&& after.id == before.id
    &&& after.parent == before.parent
    &&& after.participants@ == before.participants@
    &&& after.entry_fee == before.entry_fee
    &&& after.total_pool == before.total_pool
    &&& after.generation == before.generation
    &&& after.created_at == before.created_at
    &&& after.tier == before.tier
}

/// A wheel whose last fee was paid is split unless it was paid out, the rent of two
/// children is above the pool, the commission cannot be reckoned, the balance does
/// not cover the pool, a child's place is taken, or wheels or generations cannot be
/// counted on. The winner, the commission and the rent of both children, back to
/// the last participant, are paid out of the pool and use it up.
pub proof fn settling(
    before: JoinAndSplit,
    pending: PendingSplit,
    now: i64,
    after: JoinAndSplit,
    receipt: Result<AutoSplitReceipt, ErrorCode>,
)
    requires
        settle_join_and_split_outcome(before, pending, now, after, receipt),
    ensures
        ({
            let wheel = before.wheel.wheel;
            let rents = 2 * before.left_wheel.lamports;
            let shared = wheel.total_pool - rents;
            let rate = before.registry.commission_rate;
            let unpaid = rents <= u64::MAX && !wheel.paid_out;
            let reckoned = unpaid && rents <= wheel.total_pool && shared * rate <= u64::MAX
                && shared * rate < (shared + 1) * 100;
            let covered = reckoned && before.wheel.lamports >= wheel.total_pool;
            let left_free = covered && before.left_wheel.wheel.id == 0;
            let generations = left_free && wheel.generation < u32::MAX;
            let free = generations && before.right_wheel.wheel.id == 0;
            &&& receipt is Ok <==> free && before.registry.wheel_count + 2 <= u64::MAX
            &&& receipt is Err ==> after == before
            &&& rents > u64::MAX ==> receipt == Err::<AutoSplitReceipt, ErrorCode>(
                ErrorCode::Overflow,
            )
            &&& rents <= u64::MAX && wheel.paid_out ==> receipt == Err::<
                AutoSplitReceipt,
                ErrorCode,
            >(ErrorCode::AlreadyPaidOut)
            &&& unpaid && rents > wheel.total_pool ==> receipt == Err::<
                AutoSplitReceipt,
                ErrorCode,
            >(ErrorCode::Underflow)
            &&& unpaid && rents <= wheel.total_pool && shared * rate > u64::MAX ==> receipt
                == Err::<AutoSplitReceipt, ErrorCode>(ErrorCode::Overflow)
            &&& unpaid && rents <= wheel.total_pool && shared * rate <= u64::MAX && !reckoned
                ==> receipt == Err::<AutoSplitReceipt, ErrorCode>(ErrorCode::Underflow)
            &&& reckoned && !covered ==> receipt == Err::<AutoSplitReceipt, ErrorCode>(
                ErrorCode::InsufficientTreasuryBalance,
            )
            &&& covered && !left_free ==> receipt == Err::<AutoSplitReceipt, ErrorCode>(
                ErrorCode::WheelAlreadyInitialized,
            )
            &&& left_free && !generations ==> receipt == Err::<AutoSplitReceipt, ErrorCode>(
                ErrorCode::Overflow,
            )
            &&& generations && !free ==> receipt == Err::<AutoSplitReceipt, ErrorCode>(
                ErrorCode::WheelAlreadyInitialized,
            )
            &&& free && before.registry.wheel_count + 2 > u64::MAX ==> receipt == Err::<
                AutoSplitReceipt,
                ErrorCode,
            >(ErrorCode::Overflow)
            &&& receipt is Ok ==> {
                let moves = receipt->Ok_0.moves@;
                let told = receipt->Ok_0.split;
                let join = receipt->Ok_0.joined;
                &&& moves.len() == 3
                &&& moves[0].from == before.wheel.key && moves[1].from == before.wheel.key
                    && moves[2].from == before.wheel.key
                &&& moves[0].to == before.center_winner
                &&& moves[1].to == before.commission_wallet
                &&& moves[2].to == before.participant.key
                &&& moves[2].lamports == rents
                &&& moves[0].lamports + moves[1].lamports == shared
                &&& is_commission(moves[1].lamports as int, shared, rate as int)
                &&& told.payout_amount == moves[0].lamports
                &&& told.commission_amount == moves[1].lamports
                &&& told.parent_wheel_id == wheel.id
                &&& told.left_wheel_id == pending.left_id
                &&& told.right_wheel_id == pending.right_id
                &&& told.center_winner == pending.center_winner
                &&& told.timestamp == now
                &&& join.wheel_id == wheel.id
                &&& join.participant == before.participant.key
                &&& join.element == pending.element
                &&& join.entry_fee == pending.entry_fee
                &&& join.participant_count == 15
                &&& is_split(
                    after.wheel.wheel,
                    wheel,
                    before.left_wheel.key,
                    before.right_wheel.key,
                )
                &&& is_child(
                    after.left_wheel.wheel,
                    pending.left_id,
                    before.wheel.key,
                    wheel,
                    true,
                    now,
                )
                &&& is_child(
                    after.right_wheel.wheel,
                    pending.right_id,
                    before.wheel.key,
                    wheel,
                    false,
                    now,
                )
                &&& after.registry.wheel_count == before.registry.wheel_count + 2
                &&& same_but_count(after.registry, before.registry)
                &&& after.wheel.key == before.wheel.key
                &&& after.wheel.lamports == before.wheel.lamports
                &&& after.left_wheel.key == before.left_wheel.key
                &&& after.left_wheel.lamports == before.left_wheel.lamports
                &&& after.right_wheel.key == before.right_wheel.key
                &&& after.right_wheel.lamports == before.right_wheel.lamports
                &&& after.participant == before.participant
                &&& after.treasury == before.treasury
                &&& after.commission_wallet == before.commission_wallet
                &&& after.center_winner == before.center_winner
            }
        }),
{
}

/// A full wheel with fifteen participants of a running game is split on request, if
/// the next two ids and the first participant as winner are named, unless it was
/// paid out, the commission cannot be reckoned, the balance does not cover the
/// pool, a child's place is taken, or wheels or generations cannot be counted on.
/// Payout and commission are paid out of the pool and use it up.
pub proof fn splitting(
    before: SplitWheel,
    left_id: u64,
    right_id: u64,
    now: i64,
    after: SplitWheel,
    receipt: Result<SplitReceipt, ErrorCode>,
)
    requires
        split_wheel_outcome(before, left_id, right_id, now, after, receipt),
    ensures
        ({
            let wheel = before.parent_wheel.wheel;
            let seats = wheel.participants@;
            let pool = wheel.total_pool;
            let rate = before.registry.commission_rate;
            let count = before.registry.wheel_count;
            let running = !before.registry.paused;
            let last_id = left_id == count && count == u64::MAX;
            let next = running && left_id == count && right_id == count + 1;
            let unpaid = next && !wheel.paid_out;
            let full = unpaid && wheel.status == WheelStatus::Full;
            let seated = full && seats.len() == 15;
            let won = seated && before.center_winner == seats[0].pubkey;
            let small = won && pool * rate <= u64::MAX;
            let reckoned = small && pool * rate < (pool + 1) * 100;
            let covered = reckoned && before.parent_wheel.lamports >= pool;
            let left_free = covered && before.left_wheel.wheel.id == 0;
            let generations = left_free && wheel.generation < u32::MAX;
            let free = generations && before.right_wheel.wheel.id == 0;
            &&& receipt is Ok <==> free && count + 2 <= u64::MAX
            &&& receipt is Err ==> after == before
            &&& !running ==> receipt == Err::<SplitReceipt, ErrorCode>(ErrorCode::ProtocolPaused)
            &&& running && last_id ==> receipt == Err::<SplitReceipt, ErrorCode>(
                ErrorCode::Overflow,
            )
            &&& running && !last_id && !next ==> receipt == Err::<SplitReceipt, ErrorCode>(
                ErrorCode::StaleWheelIds,
            )
            &&& next && !unpaid ==> receipt == Err::<SplitReceipt, ErrorCode>(
                ErrorCode::AlreadyPaidOut,
            )
            &&& unpaid && !full ==> receipt == Err::<SplitReceipt, ErrorCode>(
                ErrorCode::WheelNotFull,
            )
            &&& full && !seated ==> receipt == Err::<SplitReceipt, ErrorCode>(
                ErrorCode::InvalidParticipantCount,
            )
            &&& seated && !won ==> receipt == Err::<SplitReceipt, ErrorCode>(
                ErrorCode::InvalidCenterWinner,
            )
            &&& won && !small ==> receipt == Err::<SplitReceipt, ErrorCode>(ErrorCode::Overflow)
            &&& small && !reckoned ==> receipt == Err::<SplitReceipt, ErrorCode>(
                ErrorCode::Underflow,
            )
            &&& reckoned && !covered ==> receipt == Err::<SplitReceipt, ErrorCode>(
                ErrorCode::InsufficientTreasuryBalance,
            )
            &&& covered && !left_free ==> receipt == Err::<SplitReceipt, ErrorCode>(
                ErrorCode::WheelAlreadyInitialized,
            )
            &&& left_free && !generations ==> receipt == Err::<SplitReceipt, ErrorCode>(
                ErrorCode::Overflow,
            )
            &&& generations && !free ==> receipt == Err::<SplitReceipt, ErrorCode>(
                ErrorCode::WheelAlreadyInitialized,
            )
            &&& free && count + 2 > u64::MAX ==> receipt == Err::<SplitReceipt, ErrorCode>(
                ErrorCode::Overflow,
            )
            &&& receipt is Ok ==> {
                let moves = receipt->Ok_0.moves@;
                let told = receipt->Ok_0.event;
                &&& moves.len() == 2
                &&& moves[0].from == before.parent_wheel.key && moves[1].from
                    == before.parent_wheel.key
                &&& moves[0].to == seats[0].pubkey
                &&& moves[1].to == before.commission_wallet
                &&& moves[0].lamports + moves[1].lamports == pool
                &&& is_commission(moves[1].lamports as int, pool as int, rate as int)
                &&& told.payout_amount == moves[0].lamports
                &&& told.commission_amount == moves[1].lamports
                &&& told.parent_wheel_id == wheel.id
                &&& told.left_wheel_id == left_id
                &&& told.right_wheel_id == right_id
                &&& told.center_winner == seats[0].pubkey
                &&& told.timestamp == now
                &&& is_split(
                    after.parent_wheel.wheel,
                    wheel,
                    before.left_wheel.key,
                    before.right_wheel.key,
                )
                &&& is_child(
                    after.left_wheel.wheel,
                    left_id,
                    before.parent_wheel.key,
                    wheel,
                    true,
                    now,
                )
                &&& is_child(
                    after.right_wheel.wheel,
                    right_id,
                    before.parent_wheel.key,
                    wheel,
                    false,
                    now,
                )
                &&& after.registry.wheel_count == count + 2
                &&& same_but_count(after.registry, before.registry)
                &&& after.parent_wheel.key == before.parent_wheel.key
                &&& after.parent_wheel.lamports == before.parent_wheel.lamports
                &&& after.left_wheel.key == before.left_wheel.key
                &&& after.left_wheel.lamports == before.left_wheel.lamports
                &&& after.right_wheel.key == before.right_wheel.key
                &&& after.right_wheel.lamports == before.right_wheel.lamports
                &&& after.authority == before.authority
                &&& after.treasury == before.treasury
                &&& after.commission_wallet == before.commission_wallet
                &&& after.center_winner == before.center_winner
            }
        }),
{
}

/// The authority has a wheel that was neither refunded nor paid out refunded, even
/// one with a single participant, whatever its status and generation, if the cost
/// of a refund is a tenth of the fee at most, the balance covers all refunds, and
/// the accounts are those of the seats, in order and writable. Each seat gets the
/// fee less the cost. `at` is the first account that does not fit.
pub proof fn refunding(
    before: RefundWheel,
    accounts: Seq<RemainingAccount>,
    gas: u64,
    now: i64,
    after: RefundWheel,
    receipt: Result<RefundReceipt, ErrorCode>,
    at: int,
)
    requires
        refund_wheel_outcome(before, accounts, gas, now, after, receipt),
        0 <= at <= before.wheel.wheel.participants@.len(),
        forall|i: int|
            0 <= i < at ==> (#[trigger] accounts[i]).key
                == before.wheel.wheel.participants@[i].pubkey && accounts[i].is_writable,
        at < before.wheel.wheel.participants@.len() ==> accounts[at].key
            != before.wheel.wheel.participants@[at].pubkey || !accounts[at].is_writable,
    ensures
        ({
            let wheel = before.wheel.wheel;
            let seats = wheel.participants@;
            let count = seats.len();
            let refund = wheel.entry_fee - gas;
            let asked = before.authority.key == before.registry.authority;
            let kept = asked && wheel.status != WheelStatus::Refunded;
            let unpaid = kept && !wheel.paid_out;
            let cheap = unpaid && 10 * gas <= wheel.entry_fee;
            let seated = cheap && count > 0;
            let small = seated && refund * count <= u64::MAX;
            let covered = small && before.wheel.lamports >= refund * count;
            let matched = covered && accounts.len() == count;
            &&& receipt is Ok <==> matched && at == count
            &&& receipt is Err ==> after == before
            &&& !asked ==> receipt == Err::<RefundReceipt, ErrorCode>(ErrorCode::Unauthorized)
            &&& asked && !kept ==> receipt == Err::<RefundReceipt, ErrorCode>(
                ErrorCode::AlreadyRefunded,
            )
            &&& kept && !unpaid ==> receipt == Err::<RefundReceipt, ErrorCode>(
                ErrorCode::AlreadyPaidOut,
            )
            &&& unpaid && !cheap ==> receipt == Err::<RefundReceipt, ErrorCode>(
                ErrorCode::GasCostTooHigh,
            )
            &&& cheap && !seated ==> receipt == Err::<RefundReceipt, ErrorCode>(
                ErrorCode::NoParticipantsToRefund,
            )
            &&& seated && !small ==> receipt == Err::<RefundReceipt, ErrorCode>(
                ErrorCode::Overflow,
            )
            &&& small && !covered ==> receipt == Err::<RefundReceipt, ErrorCode>(
                ErrorCode::InsufficientBalanceForRefund,
            )
            &&& covered && !matched ==> receipt == Err::<RefundReceipt, ErrorCode>(
                ErrorCode::InvalidParticipantCount,
            )
            &&& matched && at < count ==> receipt == Err::<RefundReceipt, ErrorCode>(
                if accounts[at].key != seats[at].pubkey {
                    ErrorCode::InvalidRecipient
                } else {
                    ErrorCode::AccountNotWritable
                },
            )
            &&& receipt is Ok ==> {
                let moves = receipt->Ok_0.moves@;
                let told = receipt->Ok_0.event;
                &&& moves.len() == count
                &&& forall|i: int|
                    0 <= i < count ==> (#[trigger] moves[i]).from == before.wheel.key && moves[i].to
                        == seats[i].pubkey && moves[i].lamports == refund
                &&& told.wheel_id == wheel.id
                &&& told.participant_count == count
                &&& told.refund_per_participant == refund
                &&& told.total_refunded == refund * count
                &&& told.gas_cost_per_refund == gas
                &&& told.total_gas_deducted == gas * count
                &&& told.previous_status == wheel.status
                &&& told.timestamp == now
                &&& after.wheel.wheel.status == WheelStatus::Refunded
                &&& after.wheel.wheel.participants@ == seats
                &&& after.wheel.wheel.total_pool == wheel.total_pool
                &&& same_but_play(after.wheel.wheel, wheel)
                &&& after.wheel.key == before.wheel.key
                &&& after.wheel.lamports == before.wheel.lamports
                &&& after.registry == before.registry
                &&& after.authority == before.authority
            }
        }),
{
    let seats = before.wheel.wheel.participants@;
    if accounts.len() == seats.len() {
        assert forall|i: int| 0 <= i < at implies recipient_error(
            #[trigger] seats[i],
            accounts[i],
        ) is None by {
            assert(accounts[i].is_writable);
        }
        the_first_misfit_stops_a_refund(seats, accounts, at);
        refund_accounts_fit_their_seats(seats, accounts);
    }
}

/// Who sets the game up or opens a wheel has to sign, and nothing else is asked.
pub proof fn founding_accounts(start: InitializeRegistry, open: InitializeWheel)
    ensures
        initialize_registry_accounts_error(start) == (if start.authority.is_signer {
            None
        } else {
            Some(AccountsError::<ErrorCode>::NotSigner)
        }),
        initialize_wheel_accounts_error(open) == (if open.authority.is_signer {
            None
        } else {
            Some(AccountsError::<ErrorCode>::NotSigner)
        }),
{
}

/// The accounts of a change to the registry and of a refund: the registry's
/// authority asks and signs, and nothing else is asked.
pub proof fn ruling_accounts(update: UpdateRegistry, refund: RefundWheel)
    ensures
        update_registry_accounts_error(update) is None <==> update.authority.is_signer
            && update.authority.key == update.registry.authority,
        !update.authority.is_signer ==> update_registry_accounts_error(update) == Some(
            AccountsError::<ErrorCode>::NotSigner,
        ),
        update.authority.is_signer && update.authority.key != update.registry.authority
            ==> update_registry_accounts_error(update) == Some(
            AccountsError::Refused(ErrorCode::Unauthorized),
        ),
        refund_wheel_accounts_error(refund) is None <==> refund.authority.is_signer
            && refund.authority.key == refund.registry.authority,
        !refund.authority.is_signer ==> refund_wheel_accounts_error(refund) == Some(
            AccountsError::<ErrorCode>::NotSigner,
        ),
        refund.authority.is_signer && refund.authority.key != refund.registry.authority
            ==> refund_wheel_accounts_error(refund) == Some(
            AccountsError::Refused(ErrorCode::Unauthorized),
        ),
{
}

/// The accounts of both ways to join: the participant signs, the wheel is open, the
/// treasury, and for a last join the commission wallet, are the registry's. What is
/// told is the first of these that fails.
pub proof fn joining_accounts(join: JoinWheel, last: JoinAndSplit)
    ensures
        ({
            let signed = join.participant.is_signer;
            let open = join.wheel.wheel.status == WheelStatus::Open;
            let treasury = join.treasury == join.registry.treasury;
            let error = join_wheel_accounts_error(join);
            &&& error is None <==> signed && open && treasury
            &&& !signed ==> error == Some(AccountsError::<ErrorCode>::NotSigner)
            &&& signed && !open ==> error == Some(AccountsError::Refused(ErrorCode::WheelNotOpen))
            &&& signed && open && !treasury ==> error == Some(
                AccountsError::Refused(ErrorCode::InvalidTreasury),
            )
        }),
        ({
            let signed = last.participant.is_signer;
            let open = last.wheel.wheel.status == WheelStatus::Open;
            let treasury = last.treasury == last.registry.treasury;
            let wallet = last.commission_wallet == last.registry.commission_wallet;
            let error = join_and_split_accounts_error(last);
            &&& error is None <==> signed && open && treasury && wallet
            &&& !signed ==> error == Some(AccountsError::<ErrorCode>::NotSigner)
            &&& signed && !open ==> error == Some(AccountsError::Refused(ErrorCode::WheelNotOpen))
            &&& signed && open && !treasury ==> error == Some(
                AccountsError::Refused(ErrorCode::InvalidTreasury),
            )
            &&& signed && open && treasury && !wallet ==> error == Some(
                AccountsError::Refused(ErrorCode::InvalidCommissionWallet),
            )
        }),
{
}

/// The accounts of a split on request: who asks and the treasury sign, the wheel is
/// full and not paid out, and treasury and commission wallet are the registry's.
/// What is told is the first of these that fails.
pub proof fn splitting_accounts(split: SplitWheel)
    ensures
        ({
            let signed = split.authority.is_signer && split.treasury.is_signer;
            let full = signed && split.parent_wheel.wheel.status == WheelStatus::Full;
            let unpaid = full && !split.parent_wheel.wheel.paid_out;
            let treasury = unpaid && split.treasury.key == split.registry.treasury;
            let wallet = treasury && split.commission_wallet == split.registry.commission_wallet;
            let error = split_wheel_accounts_error(split);
            &&& error is None <==> wallet
            &&& !signed ==> error == Some(AccountsError::<ErrorCode>::NotSigner)
            &&& signed && !full ==> error == Some(AccountsError::Refused(ErrorCode::WheelNotFull))
            &&& full && !unpaid ==> error == Some(AccountsError::Refused(ErrorCode::AlreadyPaidOut))
            &&& unpaid && !treasury ==> error == Some(
                AccountsError::Refused(ErrorCode::InvalidTreasury),
            )
            &&& treasury && !wallet ==> error == Some(
                AccountsError::Refused(ErrorCode::InvalidCommissionWallet),
            )
        }),
{
}

} // verus!
