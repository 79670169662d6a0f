use elemental_loom::center::accounts::{
    InitializeRegistry, InitializeWheel, JoinAndSplit, JoinWheel, RefundWheel, SplitWheel,
    UpdateRegistry,
};
use elemental_loom::center::error::ErrorCode;
use elemental_loom::center::join::{initialize_wheel, join_wheel};
use elemental_loom::center::refund::refund_wheel;
use elemental_loom::center::registry::{
    initialize_registry, pause_protocol, update_commission_rate, update_commission_wallet,
};
use elemental_loom::center::split::{
    initialize_child_wheel_center_wins, join_and_split, settle_join_and_split, split_wheel,
};
use elemental_loom::center::state::{
    CommissionWalletUpdated, CompactParticipant, Element, GameTier, ParticipantJoined, Registry,
    RemainingAccount, Wheel, WheelAccount, WheelAutoSplit, WheelCreated, WheelRefunded, WheelSplit,
    WheelStatus,
};
use elemental_loom::ledger::{LamportMove, Ledger};
use elemental_loom::pubkey::Pubkey;
use elemental_loom::signer::{AccountsError, SignerAccount};

const AUTHORITY: u8 = 200;
const WALLET: u8 = 201;
const WHEEL: u8 = 210;
const LEFT: u8 = 211;
const RIGHT: u8 = 212;
const FEE: u64 = 10_000_000;

fn key(n: u8) -> Pubkey {
    Pubkey { bytes: [n; 32] }
}

fn signed(n: u8) -> SignerAccount {
    SignerAccount { key: key(n), is_signer: true }
}

fn registry() -> Registry {
    Registry {
        authority: key(AUTHORITY),
        treasury: key(AUTHORITY),
        commission_wallet: key(WALLET),
        wheel_count: 1,
        commission_rate: 15,
        paused: false,
        last_rate_change: 1_000,
    }
}

fn empty_wheel() -> Wheel {
    Wheel {
        id: 0,
        parent: None,
        children: [None, None],
        participants: vec![],
        status: WheelStatus::Open,
        entry_fee: 0,
        total_pool: 0,
        generation: 0,
        created_at: 0,
        paid_out: false,
        tier: GameTier::EmberWolf,
    }
}

fn element_of(seat: u8) -> Element {
    match seat {
        0..=7 => Element::Earth,
        8..=11 => Element::Air,
        _ => Element::Fire,
    }
}

/// A wheel of the first generation with that many participants, keyed from one.
fn wheel_of(count: u8) -> Wheel {
    let mut wheel = empty_wheel();
    wheel.id = 7;
    wheel.entry_fee = FEE;
    wheel.total_pool = FEE * count as u64;
    for seat in 0..count {
        wheel.participants.push(CompactParticipant {
            pubkey: key(seat + 1),
            element: element_of(seat),
        });
    }
    wheel
}

fn at(n: u8, lamports: u64, wheel: Wheel) -> WheelAccount {
    WheelAccount { key: key(n), lamports, wheel }
}

fn joining(count: u8, participant: u8) -> JoinWheel {
    JoinWheel {
        wheel: at(WHEEL, 5_000, wheel_of(count)),
        participant: signed(participant),
        registry: registry(),
        treasury: key(AUTHORITY),
    }
}

fn last_joining() -> JoinAndSplit {
    JoinAndSplit {
        wheel: at(WHEEL, 5_000 + 14 * FEE, wheel_of(14)),
        participant: signed(15),
        registry: registry(),
        treasury: key(AUTHORITY),
        commission_wallet: key(WALLET),
        center_winner: key(1),
        left_wheel: at(LEFT, 1_000, empty_wheel()),
        right_wheel: at(RIGHT, 1_000, empty_wheel()),
    }
}

fn splitting() -> SplitWheel {
    let mut parent = wheel_of(15);
    parent.status = WheelStatus::Full;
    SplitWheel {
        parent_wheel: at(WHEEL, 5_000 + 15 * FEE, parent),
        left_wheel: at(LEFT, 1_000, empty_wheel()),
        right_wheel: at(RIGHT, 1_000, empty_wheel()),
        registry: registry(),
        authority: signed(AUTHORITY),
        treasury: signed(AUTHORITY),
        commission_wallet: key(WALLET),
        center_winner: key(1),
    }
}

fn refunding(count: u8) -> (RefundWheel, Vec<RemainingAccount>) {
    let accounts = (0..count)
        .map(|seat| RemainingAccount { key: key(seat + 1), is_writable: true })
        .collect();
    let ctx = RefundWheel {
        wheel: at(WHEEL, 5_000 + FEE * count as u64, wheel_of(count)),
        registry: registry(),
        authority: signed(AUTHORITY),
    };
    (ctx, accounts)
}

#[test]
fn a_registry_starts_with_fifteen_percent() {
    let mut ctx = InitializeRegistry { registry: registry(), authority: signed(9) };
    assert_eq!(initialize_registry(&mut ctx, key(8), 77), Ok(()));
    assert_eq!(
        ctx.registry,
        Registry {
            authority: key(9),
            treasury: key(9),
            commission_wallet: key(8),
            wheel_count: 0,
            commission_rate: 15,
            paused: false,
            last_rate_change: 77,
        }
    );
}

#[test]
fn commission_rates_keep_their_bounds() {
    let mut ctx = UpdateRegistry { registry: registry(), authority: signed(AUTHORITY) };
    ctx.registry.last_rate_change = 0;
    assert_eq!(update_commission_rate(&mut ctx, 0, 5), Err(ErrorCode::InvalidCommissionRate));
    assert_eq!(update_commission_rate(&mut ctx, 31, 5), Err(ErrorCode::InvalidCommissionRate));
    assert_eq!(ctx.registry.commission_rate, 15);
    assert_eq!(update_commission_rate(&mut ctx, 30, 5), Ok(()));
    assert_eq!(ctx.registry.commission_rate, 30);
    assert_eq!(ctx.registry.last_rate_change, 5);
    assert_eq!(update_commission_rate(&mut ctx, 1, 604_805), Ok(()));
    assert_eq!(ctx.registry.commission_rate, 1);
}

#[test]
fn commission_rates_change_once_a_week() {
    let mut ctx = UpdateRegistry { registry: registry(), authority: signed(AUTHORITY) };
    assert_eq!(
        update_commission_rate(&mut ctx, 20, 1_000 + 604_799),
        Err(ErrorCode::RateLimitExceeded)
    );
    assert_eq!(ctx.registry, registry());
    assert_eq!(update_commission_rate(&mut ctx, 20, 1_000 + 604_800), Ok(()));
    assert_eq!(update_commission_rate(&mut ctx, 21, 1_000 + 604_801), Err(ErrorCode::RateLimitExceeded));
}

#[test]
fn times_too_far_apart_are_refused() {
    let mut ctx = UpdateRegistry { registry: registry(), authority: signed(AUTHORITY) };
    assert_eq!(update_commission_rate(&mut ctx, 20, i64::MIN), Err(ErrorCode::Underflow));
    ctx.registry.last_rate_change = -2;
    assert_eq!(update_commission_rate(&mut ctx, 20, i64::MAX), Err(ErrorCode::Underflow));
    assert_eq!(update_commission_rate(&mut ctx, 20, -1), Ok(()));
}

#[test]
fn the_commission_wallet_can_be_changed() {
    let mut ctx = UpdateRegistry { registry: registry(), authority: signed(AUTHORITY) };
    assert_eq!(
        update_commission_wallet(&mut ctx, key(50), 12),
        Ok(CommissionWalletUpdated {
            old_wallet: key(WALLET),
            new_wallet: key(50),
            updated_by: key(AUTHORITY),
            timestamp: 12,
        })
    );
    assert_eq!(ctx.registry, Registry { commission_wallet: key(50), ..registry() });
}

#[test]
fn only_the_authority_rules_the_registry() {
    let mut ctx = UpdateRegistry { registry: registry(), authority: signed(AUTHORITY) };
    assert_eq!(ctx.check_accounts(), Ok(()));
    ctx.authority = signed(3);
    assert_eq!(ctx.check_accounts(), Err(AccountsError::Refused(ErrorCode::Unauthorized)));
}

#[test]
fn a_paused_game_stands_still() {
    let mut rule = UpdateRegistry { registry: registry(), authority: signed(AUTHORITY) };
    assert_eq!(pause_protocol(&mut rule, true), Ok(()));
    assert!(rule.registry.paused);
    let paused = rule.registry;
    let mut open = InitializeWheel {
        wheel: at(WHEEL, 0, empty_wheel()),
        registry: paused,
        authority: signed(4),
    };
    assert_eq!(
        initialize_wheel(&mut open, 1, GameTier::EmberWolf, 0),
        Err(ErrorCode::ProtocolPaused)
    );
    let mut join = joining(3, 40);
    join.registry = paused;
    assert_eq!(join_wheel(&mut join), Err(ErrorCode::ProtocolPaused));
    let mut last = last_joining();
    last.registry = paused;
    assert_eq!(join_and_split(&mut last, 1, 2), Err(ErrorCode::ProtocolPaused));
    let mut split = splitting();
    split.registry = paused;
    assert_eq!(split_wheel(&mut split, 1, 2, 0), Err(ErrorCode::ProtocolPaused));
    assert_eq!(pause_protocol(&mut rule, false), Ok(()));
    assert_eq!(rule.registry, registry());
}

#[test]
fn a_wheel_opens_with_the_next_id() {
    let mut ctx = InitializeWheel {
        wheel: at(WHEEL, 0, wheel_of(3)),
        registry: registry(),
        authority: signed(4),
    };
    assert_eq!(
        initialize_wheel(&mut ctx, 2, GameTier::SkyWalker, 0),
        Err(ErrorCode::InvalidWheelId)
    );
    assert_eq!(
        initialize_wheel(&mut ctx, 1, GameTier::SkyWalker, 9),
        Ok(WheelCreated {
            wheel_id: 1,
            tier: GameTier::SkyWalker,
            entry_fee: 100_000_000,
            timestamp: 9,
        })
    );
    let mut expected = empty_wheel();
    expected.id = 1;
    expected.entry_fee = 100_000_000;
    expected.tier = GameTier::SkyWalker;
    expected.created_at = 9;
    assert_eq!(ctx.wheel.wheel, expected);
    assert_eq!(ctx.registry.wheel_count, 2);
    ctx.registry.wheel_count = u64::MAX;
    assert_eq!(
        initialize_wheel(&mut ctx, u64::MAX, GameTier::SkyWalker, 9),
        Err(ErrorCode::Overflow)
    );
}

#[test]
fn every_tier_has_its_fee() {
    assert_eq!(GameTier::EmberWolf.entry_fee(), 10_000_000);
    assert_eq!(GameTier::SkyWalker.entry_fee(), 100_000_000);
    assert_eq!(GameTier::Flamecaster.entry_fee(), 1_000_000_000);
    assert_eq!(GameTier::StormWarrior.entry_fee(), 5_000_000_000);
    assert_eq!(GameTier::TideWarlord.entry_fee(), 10_000_000_000);
    assert_eq!(GameTier::StoneTitan.entry_fee(), 50_000_000_000);
    assert_eq!(GameTier::VoidReaper.entry_fee(), 100_000_000_000);
    assert_eq!(GameTier::AstralEmperor.entry_fee(), 500_000_000_000);
    assert_eq!(GameTier::CelestialOverlord.entry_fee(), 1_000_000_000_000);
}

#[test]
fn joining_fills_the_wheel_seat_by_seat() {
    let mut ctx = joining(0, 1);
    for seat in 0..14u8 {
        ctx.participant = signed(seat + 1);
        assert_eq!(ctx.check_accounts(), Ok(()));
        let receipt = join_wheel(&mut ctx).unwrap();
        assert_eq!(
            receipt.event,
            ParticipantJoined {
                wheel_id: 7,
                participant: key(seat + 1),
                element: element_of(seat),
                entry_fee: FEE,
                participant_count: seat + 1,
            }
        );
        assert_eq!(receipt.instruction.accounts[0].pubkey, key(seat + 1));
        assert_eq!(receipt.instruction.accounts[1].pubkey, key(WHEEL));
    }
    assert_eq!(ctx.wheel.wheel, wheel_of(14));
    ctx.participant = signed(15);
    assert_eq!(join_wheel(&mut ctx), Err(ErrorCode::UseJoinAndSplitForFinalParticipant));
    assert_eq!(ctx.wheel.wheel, wheel_of(14));
}

#[test]
fn joins_are_refused_where_they_must_be() {
    let mut refunded = joining(3, 40);
    refunded.wheel.wheel.status = WheelStatus::Refunded;
    assert_eq!(join_wheel(&mut refunded), Err(ErrorCode::WheelRefunded));
    assert_eq!(refunded.check_accounts(), Err(AccountsError::Refused(ErrorCode::WheelNotOpen)));
    let mut split = joining(3, 40);
    split.wheel.wheel.status = WheelStatus::Split;
    assert_eq!(join_wheel(&mut split), Err(ErrorCode::WheelNotOpen));
    let mut rich = joining(3, 40);
    rich.wheel.wheel.total_pool = u64::MAX - FEE + 1;
    assert_eq!(join_wheel(&mut rich), Err(ErrorCode::Overflow));
    assert_eq!(rich.wheel.wheel.participants.len(), 3);
    let mut stranger = joining(3, 40);
    stranger.treasury = key(5);
    assert_eq!(stranger.check_accounts(), Err(AccountsError::Refused(ErrorCode::InvalidTreasury)));
}

#[test]
fn a_participant_may_join_again() {
    let mut ctx = joining(1, 1);
    assert!(join_wheel(&mut ctx).is_ok());
    assert_eq!(ctx.wheel.wheel.participants[1].pubkey, key(1));
}

#[test]
fn the_last_join_splits_the_wheel() {
    let mut ctx = last_joining();
    assert_eq!(ctx.check_accounts(), Ok(()));
    let pending = join_and_split(&mut ctx, 1, 2).unwrap();
    assert_eq!(pending.center_winner, key(1));
    assert_eq!(pending.element, Element::Fire);
    assert_eq!(pending.entry_fee, FEE);
    assert_eq!(pending.instruction.accounts[0].pubkey, key(15));
    assert_eq!(pending.instruction.accounts[1].pubkey, key(WHEEL));
    let mut full = wheel_of(15);
    full.status = WheelStatus::Full;
    assert_eq!(ctx.wheel.wheel, full);

    ctx.wheel.lamports += FEE;
    let receipt = settle_join_and_split(&mut ctx, &pending, 99).unwrap();
    let shared = 15 * FEE - 2_000;
    let commission = shared * 15 / 100;
    assert_eq!(commission, 22_499_700);
    let payout = shared - commission;
    assert_eq!(
        receipt.moves,
        vec![
            LamportMove { from: key(WHEEL), to: key(1), lamports: payout },
            LamportMove { from: key(WHEEL), to: key(WALLET), lamports: commission },
            LamportMove { from: key(WHEEL), to: key(15), lamports: 2_000 },
        ]
    );
    assert_eq!(
        receipt.joined,
        ParticipantJoined {
            wheel_id: 7,
            participant: key(15),
            element: Element::Fire,
            entry_fee: FEE,
            participant_count: 15,
        }
    );
    assert_eq!(
        receipt.split,
        WheelAutoSplit {
            parent_wheel_id: 7,
            left_wheel_id: 1,
            right_wheel_id: 2,
            center_winner: key(1),
            payout_amount: payout,
            commission_amount: commission,
            timestamp: 99,
        }
    );
    let mut parent = wheel_of(15);
    parent.status = WheelStatus::Split;
    parent.paid_out = true;
    parent.children = [Some(key(LEFT)), Some(key(RIGHT))];
    assert_eq!(ctx.wheel.wheel, parent);
    let mut left = empty_wheel();
    left.id = 1;
    left.parent = Some(key(WHEEL));
    left.participants = parent.participants[1..8].to_vec();
    left.entry_fee = FEE;
    left.generation = 1;
    left.created_at = 99;
    assert_eq!(ctx.left_wheel.wheel, left);
    let mut right = left.clone();
    right.id = 2;
    right.participants = parent.participants[8..15].to_vec();
    assert_eq!(ctx.right_wheel.wheel, right);
    assert_eq!(ctx.registry.wheel_count, 3);

    let mut ledger = Ledger::new();
    ledger.record(key(WHEEL), ctx.wheel.lamports);
    ledger.record(key(1), 10);
    ledger.record(key(WALLET), 20);
    ledger.record(key(15), 30);
    assert!(ledger.apply(&receipt.moves));
    assert_eq!(ledger.balance(key(WHEEL)), Some(5_000));
    assert_eq!(ledger.balance(key(1)), Some(10 + payout));
    assert_eq!(ledger.balance(key(WALLET)), Some(20 + commission));
    assert_eq!(ledger.balance(key(15)), Some(2_030));
}

#[test]
fn an_account_in_several_parts_gets_all_its_payments() {
    let mut ctx = last_joining();
    ctx.participant = signed(1);
    ctx.registry.commission_wallet = key(1);
    ctx.commission_wallet = key(1);
    let pending = join_and_split(&mut ctx, 1, 2).unwrap();
    ctx.wheel.lamports += FEE;
    let receipt = settle_join_and_split(&mut ctx, &pending, 99).unwrap();
    let mut ledger = Ledger::new();
    ledger.record(key(WHEEL), ctx.wheel.lamports);
    ledger.record(key(1), 1);
    assert!(ledger.apply(&receipt.moves));
    assert_eq!(ledger.balance(key(1)), Some(15 * FEE + 1));
    assert_eq!(ledger.balance(key(WHEEL)), Some(5_000));
}

#[test]
fn last_joins_are_refused_where_they_must_be() {
    let cases: Vec<(fn(&mut JoinAndSplit), ErrorCode)> = vec![
        (|c| c.wheel.wheel.status = WheelStatus::Refunded, ErrorCode::WheelRefunded),
        (|c| c.registry.wheel_count = 9, ErrorCode::StaleWheelIds),
        (|c| c.wheel.wheel.status = WheelStatus::Full, ErrorCode::WheelNotOpen),
        (|c| c.wheel.wheel = wheel_of(13), ErrorCode::NotFinalParticipant),
        (|c| c.wheel.wheel = wheel_of(15), ErrorCode::NotFinalParticipant),
        (|c| c.center_winner = key(2), ErrorCode::InvalidCenterWinner),
        (|c| c.wheel.wheel.total_pool = u64::MAX, ErrorCode::Overflow),
    ];
    for (spoil, error) in cases {
        let mut ctx = last_joining();
        spoil(&mut ctx);
        let before = ctx.clone();
        assert_eq!(join_and_split(&mut ctx, 1, 2), Err(error));
        assert_eq!(ctx, before);
    }
    let mut ctx = last_joining();
    assert_eq!(join_and_split(&mut ctx, 1, 3), Err(ErrorCode::StaleWheelIds));
    ctx.registry.wheel_count = u64::MAX;
    assert_eq!(join_and_split(&mut ctx, u64::MAX, 0), Err(ErrorCode::Overflow));
}

#[test]
fn last_join_accounts_are_checked() {
    let mut ctx = last_joining();
    ctx.commission_wallet = key(3);
    assert_eq!(ctx.check_accounts(), Err(AccountsError::Refused(ErrorCode::InvalidCommissionWallet)));
    ctx.treasury = key(3);
    assert_eq!(ctx.check_accounts(), Err(AccountsError::Refused(ErrorCode::InvalidTreasury)));
    ctx.wheel.wheel.status = WheelStatus::Full;
    assert_eq!(ctx.check_accounts(), Err(AccountsError::Refused(ErrorCode::WheelNotOpen)));
}

#[test]
fn settlements_are_refused_where_they_must_be() {
    let cases: Vec<(fn(&mut JoinAndSplit), ErrorCode)> = vec![
        (|c| c.left_wheel.lamports = u64::MAX / 2 + 1, ErrorCode::Overflow),
        (|c| c.wheel.wheel.paid_out = true, ErrorCode::AlreadyPaidOut),
        (|c| c.left_wheel.lamports = 15 * FEE / 2 + 1, ErrorCode::Underflow),
        (|c| c.wheel.wheel.total_pool = u64::MAX, ErrorCode::Overflow),
        (|c| c.registry.commission_rate = 101, ErrorCode::Underflow),
        (|c| c.wheel.lamports = 15 * FEE - 1, ErrorCode::InsufficientTreasuryBalance),
        (|c| c.left_wheel.wheel.id = 1, ErrorCode::WheelAlreadyInitialized),
        (|c| c.right_wheel.wheel.id = 1, ErrorCode::WheelAlreadyInitialized),
        (|c| c.wheel.wheel.generation = u32::MAX, ErrorCode::Overflow),
        (|c| c.registry.wheel_count = u64::MAX - 1, ErrorCode::Overflow),
    ];
    for (spoil, error) in cases {
        let mut ctx = last_joining();
        let pending = join_and_split(&mut ctx, 1, 2).unwrap();
        ctx.wheel.lamports += FEE;
        spoil(&mut ctx);
        let before = ctx.clone();
        assert_eq!(settle_join_and_split(&mut ctx, &pending, 0), Err(error));
        assert_eq!(ctx, before);
    }
}

#[test]
fn a_wheel_is_paid_out_once() {
    let mut ctx = last_joining();
    let pending = join_and_split(&mut ctx, 1, 2).unwrap();
    ctx.wheel.lamports += FEE;
    assert!(settle_join_and_split(&mut ctx, &pending, 0).is_ok());
    ctx.left_wheel.wheel = empty_wheel();
    ctx.right_wheel.wheel = empty_wheel();
    assert_eq!(settle_join_and_split(&mut ctx, &pending, 0), Err(ErrorCode::AlreadyPaidOut));
    assert_eq!(join_and_split(&mut ctx, 3, 4), Err(ErrorCode::WheelNotOpen));
    let (mut refund, accounts) = refunding(15);
    refund.wheel = ctx.wheel.clone();
    assert_eq!(refund_wheel(&mut refund, &accounts, 0, 0), Err(ErrorCode::AlreadyPaidOut));
    let mut split = splitting();
    split.parent_wheel = ctx.wheel.clone();
    assert_eq!(split_wheel(&mut split, 1, 2, 0), Err(ErrorCode::AlreadyPaidOut));
}

#[test]
fn a_full_wheel_is_split() {
    let mut ctx = splitting();
    assert_eq!(ctx.check_accounts(), Ok(()));
    let receipt = split_wheel(&mut ctx, 1, 2, 31).unwrap();
    let commission = 22_500_000;
    let payout = 127_500_000;
    assert_eq!(
        receipt.moves,
        vec![
            LamportMove { from: key(WHEEL), to: key(1), lamports: payout },
            LamportMove { from: key(WHEEL), to: key(WALLET), lamports: commission },
        ]
    );
    assert_eq!(
        receipt.event,
        WheelSplit {
            parent_wheel_id: 7,
            left_wheel_id: 1,
            right_wheel_id: 2,
            center_winner: key(1),
            payout_amount: payout,
            commission_amount: commission,
            timestamp: 31,
        }
    );
    let seats = wheel_of(15).participants;
    assert_eq!(ctx.parent_wheel.wheel.status, WheelStatus::Split);
    assert!(ctx.parent_wheel.wheel.paid_out);
    assert_eq!(ctx.parent_wheel.wheel.children, [Some(key(LEFT)), Some(key(RIGHT))]);
    assert_eq!(ctx.left_wheel.wheel.participants, seats[1..8].to_vec());
    assert_eq!(ctx.right_wheel.wheel.participants, seats[8..15].to_vec());
    assert_eq!(ctx.registry.wheel_count, 3);
}

#[test]
fn splits_are_refused_where_they_must_be() {
    let cases: Vec<(fn(&mut SplitWheel), ErrorCode)> = vec![
        (|c| c.registry.wheel_count = 0, ErrorCode::StaleWheelIds),
        (|c| c.parent_wheel.wheel.paid_out = true, ErrorCode::AlreadyPaidOut),
        (|c| c.parent_wheel.wheel.status = WheelStatus::Open, ErrorCode::WheelNotFull),
        (
            |c| {
                c.parent_wheel.wheel.participants.pop();
            },
            ErrorCode::InvalidParticipantCount,
        ),
        (|c| c.center_winner = key(15), ErrorCode::InvalidCenterWinner),
        (|c| c.parent_wheel.wheel.total_pool = u64::MAX, ErrorCode::Overflow),
        (|c| c.registry.commission_rate = 255, ErrorCode::Underflow),
        (|c| c.parent_wheel.lamports = 0, ErrorCode::InsufficientTreasuryBalance),
        (|c| c.right_wheel.wheel.id = 5, ErrorCode::WheelAlreadyInitialized),
    ];
    for (spoil, error) in cases {
        let mut ctx = splitting();
        spoil(&mut ctx);
        let before = ctx.clone();
        assert_eq!(split_wheel(&mut ctx, 1, 2, 0), Err(error));
        assert_eq!(ctx, before);
    }
    let mut ctx = splitting();
    ctx.registry.wheel_count = u64::MAX - 1;
    assert_eq!(split_wheel(&mut ctx, u64::MAX - 1, u64::MAX, 0), Err(ErrorCode::Overflow));
}

#[test]
fn split_accounts_are_checked() {
    let mut ctx = splitting();
    ctx.commission_wallet = key(3);
    assert_eq!(ctx.check_accounts(), Err(AccountsError::Refused(ErrorCode::InvalidCommissionWallet)));
    ctx.treasury = signed(3);
    assert_eq!(ctx.check_accounts(), Err(AccountsError::Refused(ErrorCode::InvalidTreasury)));
    ctx.parent_wheel.wheel.paid_out = true;
    assert_eq!(ctx.check_accounts(), Err(AccountsError::Refused(ErrorCode::AlreadyPaidOut)));
    ctx.parent_wheel.wheel.status = WheelStatus::Split;
    assert_eq!(ctx.check_accounts(), Err(AccountsError::Refused(ErrorCode::WheelNotFull)));
}

#[test]
fn a_child_takes_the_seats_there_are() {
    let parent = at(WHEEL, 0, wheel_of(10));
    let left = initialize_child_wheel_center_wins(&empty_wheel(), 4, &parent, true, 8).unwrap();
    assert_eq!(left.participants, parent.wheel.participants[1..8].to_vec());
    let right = initialize_child_wheel_center_wins(&empty_wheel(), 5, &parent, false, 8).unwrap();
    assert_eq!(right.participants, parent.wheel.participants[8..10].to_vec());
    let bare = at(WHEEL, 0, wheel_of(0));
    let child = initialize_child_wheel_center_wins(&empty_wheel(), 5, &bare, true, 8).unwrap();
    assert!(child.participants.is_empty());
}

#[test]
fn a_refund_gives_the_fees_back() {
    let (mut ctx, accounts) = refunding(3);
    assert_eq!(ctx.check_accounts(), Ok(()));
    let receipt = refund_wheel(&mut ctx, &accounts, FEE / 10, 44).unwrap();
    let refund = 9_000_000;
    assert_eq!(
        receipt.event,
        WheelRefunded {
            wheel_id: 7,
            participant_count: 3,
            refund_per_participant: refund,
            total_refunded: 27_000_000,
            gas_cost_per_refund: 1_000_000,
            total_gas_deducted: 3_000_000,
            previous_status: WheelStatus::Open,
            timestamp: 44,
        }
    );
    assert_eq!(ctx.wheel.wheel.status, WheelStatus::Refunded);
    let mut ledger = Ledger::new();
    ledger.record(key(WHEEL), ctx.wheel.lamports);
    for seat in 0..3u8 {
        ledger.record(key(seat + 1), 1);
    }
    assert!(ledger.apply(&receipt.moves));
    assert_eq!(ledger.balance(key(WHEEL)), Some(3_005_000));
    for seat in 0..3u8 {
        assert_eq!(ledger.balance(key(seat + 1)), Some(refund + 1));
    }
    assert_eq!(refund_wheel(&mut ctx, &accounts, 0, 45), Err(ErrorCode::AlreadyRefunded));
}

#[test]
fn a_participant_with_two_seats_is_refunded_twice() {
    let (mut ctx, mut accounts) = refunding(2);
    ctx.wheel.wheel.participants[1].pubkey = key(1);
    accounts[1].key = key(1);
    let receipt = refund_wheel(&mut ctx, &accounts, 0, 0).unwrap();
    let mut ledger = Ledger::new();
    ledger.record(key(WHEEL), ctx.wheel.lamports);
    ledger.record(key(1), 0);
    assert!(ledger.apply(&receipt.moves));
    assert_eq!(ledger.balance(key(1)), Some(2 * FEE));
}

#[test]
fn refunds_are_refused_where_they_must_be() {
    let cases: Vec<(fn(&mut RefundWheel, &mut Vec<RemainingAccount>), ErrorCode)> = vec![
        (|c, _| c.authority = signed(1), ErrorCode::Unauthorized),
        (|c, _| c.wheel.wheel.status = WheelStatus::Refunded, ErrorCode::AlreadyRefunded),
        (|c, _| c.wheel.wheel.paid_out = true, ErrorCode::AlreadyPaidOut),
        (|c, _| c.wheel.wheel.entry_fee = 9, ErrorCode::GasCostTooHigh),
        (|c, _| c.wheel.wheel.participants.clear(), ErrorCode::NoParticipantsToRefund),
        (|c, _| c.wheel.wheel.entry_fee = u64::MAX, ErrorCode::Overflow),
        (|c, _| c.wheel.lamports = 3, ErrorCode::InsufficientBalanceForRefund),
        (
            |_, a| {
                a.pop();
            },
            ErrorCode::InvalidParticipantCount,
        ),
        (|_, a| a[2].key = key(1), ErrorCode::InvalidRecipient),
        (|_, a| a[1].is_writable = false, ErrorCode::AccountNotWritable),
        (
            |_, a| {
                a[1].is_writable = false;
                a[2].key = key(1);
            },
            ErrorCode::AccountNotWritable,
        ),
        (
            |_, a| {
                a[1].is_writable = false;
                a[1].key = key(1);
            },
            ErrorCode::InvalidRecipient,
        ),
    ];
    for (spoil, error) in cases {
        let (mut ctx, mut accounts) = refunding(3);
        spoil(&mut ctx, &mut accounts);
        let before = ctx.clone();
        assert_eq!(refund_wheel(&mut ctx, &accounts, 1, 0), Err(error));
        assert_eq!(ctx, before);
    }
    let (mut ctx, _) = refunding(3);
    ctx.authority = signed(1);
    assert_eq!(ctx.check_accounts(), Err(AccountsError::Refused(ErrorCode::Unauthorized)));
}

#[test]
fn center_errors_have_numbers_and_texts() {
    assert_eq!(ErrorCode::ProtocolPaused.number(), 6000);
    assert_eq!(ErrorCode::WheelRefunded.number(), 6029);
    assert_eq!(ErrorCode::Overflow.message(), "Overflow in calculation");
    assert_eq!(
        ErrorCode::StaleWheelIds.message(),
        "Child wheel IDs are stale - another split occurred. Please retry with updated IDs"
    );
}

#[test]
fn a_paused_game_still_refunds() {
    let (mut ctx, accounts) = refunding(3);
    ctx.registry.paused = true;
    assert_eq!(refund_wheel(&mut ctx, &accounts, 0, 0).unwrap().event.total_refunded, 3 * FEE);
}

#[test]
fn the_first_to_join_wins() {
    let mut wheel = joining(0, 77);
    assert!(join_wheel(&mut wheel).is_ok());
    for seat in 1..14u8 {
        wheel.participant = signed(seat);
        assert!(join_wheel(&mut wheel).is_ok());
    }
    let mut last = last_joining();
    last.wheel = wheel.wheel;
    assert_eq!(join_and_split(&mut last, 1, 2), Err(ErrorCode::InvalidCenterWinner));
    last.center_winner = key(77);
    let pending = join_and_split(&mut last, 1, 2).unwrap();
    last.wheel.lamports = 15 * FEE;
    let receipt = settle_join_and_split(&mut last, &pending, 0).unwrap();
    assert_eq!(receipt.moves[0].to, key(77));
    assert_eq!(receipt.split.center_winner, key(77));
    assert_eq!(last.left_wheel.wheel.participants[0].pubkey, key(1));
    assert_eq!(last.right_wheel.wheel.participants[0].pubkey, key(8));
}

#[test]
fn a_first_wheel_pays_its_refunds_out_of_its_pool() {
    for gas in [0, FEE / 10] {
        let (mut ctx, accounts) = refunding(14);
        ctx.wheel.lamports = 14 * FEE;
        assert!(refund_wheel(&mut ctx, &accounts, gas, 0).is_ok());
    }
    let (mut child, accounts) = refunding(7);
    child.wheel.wheel.generation = 1;
    child.wheel.wheel.parent = Some(key(WHEEL));
    child.wheel.wheel.total_pool = 0;
    child.wheel.lamports = 5_000;
    assert_eq!(
        refund_wheel(&mut child, &accounts, 0, 0),
        Err(ErrorCode::InsufficientBalanceForRefund)
    );
}

#[test]
fn wheel_ids_are_never_used_again() {
    let mut open = InitializeWheel {
        wheel: at(WHEEL, 0, empty_wheel()),
        registry: registry(),
        authority: signed(4),
    };
    assert!(initialize_wheel(&mut open, 1, GameTier::EmberWolf, 0).is_ok());
    assert_eq!(
        initialize_wheel(&mut open, 1, GameTier::EmberWolf, 0),
        Err(ErrorCode::InvalidWheelId)
    );
    let mut split = splitting();
    split.registry = open.registry;
    assert_eq!(split_wheel(&mut split, 1, 2, 0), Err(ErrorCode::StaleWheelIds));
    assert!(split_wheel(&mut split, 2, 3, 0).is_ok());
    assert_eq!(split.registry.wheel_count, 4);
}

#[test]
fn accounts_have_to_sign() {
    let unsigned = SignerAccount { key: key(AUTHORITY), is_signer: false };
    let start = InitializeRegistry { registry: registry(), authority: unsigned };
    assert_eq!(start.check_accounts(), Err(AccountsError::NotSigner));
    let rule = UpdateRegistry { registry: registry(), authority: unsigned };
    assert_eq!(rule.check_accounts(), Err(AccountsError::NotSigner));
    let mut open = InitializeWheel {
        wheel: at(WHEEL, 0, empty_wheel()),
        registry: registry(),
        authority: unsigned,
    };
    assert_eq!(open.check_accounts(), Err(AccountsError::NotSigner));
    open.authority.is_signer = true;
    assert_eq!(open.check_accounts(), Ok(()));
    let mut join = joining(3, 40);
    join.participant.is_signer = false;
    assert_eq!(join.check_accounts(), Err(AccountsError::NotSigner));
    let mut last = last_joining();
    last.participant.is_signer = false;
    assert_eq!(last.check_accounts(), Err(AccountsError::NotSigner));
    let (mut refund, _) = refunding(3);
    refund.authority.is_signer = false;
    assert_eq!(refund.check_accounts(), Err(AccountsError::NotSigner));
}

#[test]
fn a_split_on_request_needs_the_signature_of_the_treasury() {
    let mut ctx = splitting();
    ctx.treasury.is_signer = false;
    assert_eq!(ctx.check_accounts(), Err(AccountsError::NotSigner));
    ctx.parent_wheel.wheel.status = WheelStatus::Open;
    assert_eq!(ctx.check_accounts(), Err(AccountsError::NotSigner));
    let mut stranger = splitting();
    stranger.authority = signed(9);
    assert_eq!(stranger.check_accounts(), Ok(()));
    stranger.treasury = signed(9);
    assert_eq!(
        stranger.check_accounts(),
        Err(AccountsError::Refused(ErrorCode::InvalidTreasury))
    );
}

#[test]
fn a_week_between_rate_changes_is_not_cut_short() {
    let mut start = InitializeRegistry { registry: registry(), authority: signed(AUTHORITY) };
    assert_eq!(initialize_registry(&mut start, key(WALLET), 1_000), Ok(()));
    let mut ctx = UpdateRegistry { registry: start.registry, authority: signed(AUTHORITY) };
    assert!(update_commission_wallet(&mut ctx, key(50), 2_000).is_ok());
    assert_eq!(pause_protocol(&mut ctx, true), Ok(()));
    assert_eq!(update_commission_rate(&mut ctx, 20, 605_799), Err(ErrorCode::RateLimitExceeded));
    assert_eq!(update_commission_rate(&mut ctx, 20, 605_800), Ok(()));
    assert_eq!(pause_protocol(&mut ctx, false), Ok(()));
    assert_eq!(update_commission_rate(&mut ctx, 21, 1_210_599), Err(ErrorCode::RateLimitExceeded));
    assert_eq!(update_commission_rate(&mut ctx, 21, 1_210_600), Ok(()));
}

#[test]
fn a_last_join_is_paid_from_end_to_end() {
    let mut ctx = last_joining();
    let pending = join_and_split(&mut ctx, 1, 2).unwrap();
    let mut ledger = Ledger::new();
    ledger.record(key(WHEEL), 5_000 + 14 * FEE);
    ledger.record(key(1), 0);
    ledger.record(key(WALLET), 0);
    ledger.record(key(15), 2 * FEE);
    assert!(ledger.apply_move(LamportMove {
        from: key(15),
        to: key(WHEEL),
        lamports: pending.entry_fee,
    }));
    ctx.wheel.lamports = ledger.balance(key(WHEEL)).unwrap();
    let receipt = settle_join_and_split(&mut ctx, &pending, 0).unwrap();
    assert!(ledger.apply(&receipt.moves));
    assert_eq!(ledger.balance(key(15)), Some(FEE + 2_000));
    assert_eq!(ledger.balance(key(WHEEL)), Some(5_000));
    assert_eq!(ledger.balance(key(1)), Some(127_498_300));
    assert_eq!(ledger.balance(key(WALLET)), Some(22_499_700));
}

#[test]
fn a_new_wheel_fills_seat_by_seat() {
    let mut open = InitializeWheel {
        wheel: at(WHEEL, 700, empty_wheel()),
        registry: registry(),
        authority: signed(4),
    };
    assert!(initialize_wheel(&mut open, 1, GameTier::SkyWalker, 9).is_ok());
    let fee = 100_000_000;
    let mut ledger = Ledger::new();
    ledger.record(key(WHEEL), 700);
    let mut ctx = joining(0, 1);
    ctx.wheel = open.wheel;
    for n in 0..14u8 {
        ctx.participant = signed(n + 1);
        ledger.record(key(n + 1), 2 * fee);
        assert!(join_wheel(&mut ctx).is_ok());
        let payment = LamportMove { from: key(n + 1), to: key(WHEEL), lamports: fee };
        assert!(ledger.apply_move(payment));
        let count = n as u64 + 1;
        assert_eq!(ctx.wheel.wheel.participants.len() as u64, count);
        assert_eq!(ctx.wheel.wheel.participants[n as usize].pubkey, key(n + 1));
        assert_eq!(ctx.wheel.wheel.participants[n as usize].element, element_of(n));
        assert_eq!(ctx.wheel.wheel.total_pool, count * fee);
        assert_eq!(ctx.wheel.wheel.status, WheelStatus::Open);
        assert!(!ctx.wheel.wheel.paid_out);
        assert_eq!(ledger.balance(key(WHEEL)), Some(700 + count * fee));
        assert_eq!(ledger.balance(key(n + 1)), Some(fee));
    }
    ctx.participant = signed(15);
    assert_eq!(join_wheel(&mut ctx), Err(ErrorCode::UseJoinAndSplitForFinalParticipant));
}

#[test]
fn a_given_id_is_refused_after_other_changes() {
    let mut open = InitializeWheel {
        wheel: at(WHEEL, 0, empty_wheel()),
        registry: registry(),
        authority: signed(4),
    };
    assert!(initialize_wheel(&mut open, 1, GameTier::EmberWolf, 0).is_ok());
    let mut rule = UpdateRegistry { registry: open.registry, authority: signed(AUTHORITY) };
    assert!(update_commission_rate(&mut rule, 20, 700_000).is_ok());
    assert!(update_commission_wallet(&mut rule, key(WALLET), 0).is_ok());
    let mut split = splitting();
    split.registry = rule.registry;
    assert!(split_wheel(&mut split, 2, 3, 0).is_ok());
    open.registry = split.registry;
    for id in 0..4 {
        assert_eq!(
            initialize_wheel(&mut open, id, GameTier::EmberWolf, 0),
            Err(ErrorCode::InvalidWheelId)
        );
        let mut last = last_joining();
        last.registry = split.registry;
        assert_eq!(join_and_split(&mut last, id, id + 1), Err(ErrorCode::StaleWheelIds));
        assert_eq!(join_and_split(&mut last, 4, id), Err(ErrorCode::StaleWheelIds));
    }
    assert!(initialize_wheel(&mut open, 4, GameTier::EmberWolf, 0).is_ok());
}
