use elemental_loom::ledger::{LamportMove, Ledger};
use elemental_loom::pubkey::Pubkey;
use elemental_loom::signer::{AccountsError, SignerAccount};
use elemental_loom::water::accounts::{
    InitializeRegistry, InitializeWheel, JoinWheel, SplitWheel, UpdateRegistry,
};
use elemental_loom::water::error::ErrorCode;
use elemental_loom::water::join::{initialize_wheel, join_wheel};
use elemental_loom::water::registry::{initialize_registry, pause_protocol, update_commission_rate};
use elemental_loom::water::split::{add_participants_safely, initialize_child_wheel, split_wheel};
use elemental_loom::water::state::{
    CommissionRateChanged, CompactParticipant, Element, FundedAccount, ParticipantJoined,
    ProtocolPaused, Registry, Wheel, WheelAccount, WheelSplit, WheelStatus,
};

const AUTHORITY: u8 = 200;
const TREASURY: u8 = 201;
const WHEEL: u8 = 210;
const LEFT: u8 = 211;
const RIGHT: u8 = 212;
const FEE: u64 = 10_000_000;

fn key(n: u8) -> Pubkey {
    Pubkey { bytes: [n; 32] }
}

fn signed(n: u8) -> SignerAccount {
    SignerAccount { key: key(n), is_signer: true }
}

fn registry() -> Registry {
    Registry {
        authority: key(AUTHORITY),
        treasury: key(TREASURY),
        wheel_count: 1,
        commission_rate: 10,
        paused: false,
        last_rate_change: 0,
    }
}

fn empty_wheel() -> Wheel {
    Wheel {
        id: 0,
        parent: None,
        children: [None, None],
        participants: vec![],
        status: WheelStatus::Open,
        entry_fee: 0,
        total_pool: 0,
        generation: 0,
        created_at: 0,
        paid_out: false,
    }
}

fn element_of(seat: u8) -> Element {
    match seat {
        0..=7 => Element::Earth,
        8..=11 => Element::Air,
        12..=13 => Element::Fire,
        _ => Element::Water,
    }
}

/// A wheel of the first generation with that many participants, keyed from one.
fn wheel_of(count: u8) -> Wheel {
    let mut wheel = empty_wheel();
    wheel.id = 7;
    wheel.entry_fee = FEE;
    wheel.total_pool = FEE * count as u64;
    for seat in 0..count {
        wheel.participants.push(CompactParticipant {
            pubkey: key(seat + 1),
            element: element_of(seat),
            joined_at: 100 + seat as u32,
        });
    }
    if count == 15 {
        wheel.status = WheelStatus::Full;
    }
    wheel
}

fn at(n: u8, wheel: Wheel) -> WheelAccount {
    WheelAccount { key: key(n), wheel }
}

fn joining(count: u8, participant: u8) -> JoinWheel {
    JoinWheel {
        wheel: at(WHEEL, wheel_of(count)),
        participant: signed(participant),
        registry: registry(),
        treasury: key(TREASURY),
    }
}

fn splitting() -> SplitWheel {
    SplitWheel {
        parent_wheel: at(WHEEL, wheel_of(15)),
        left_wheel: at(LEFT, empty_wheel()),
        right_wheel: at(RIGHT, empty_wheel()),
        registry: registry(),
        authority: signed(AUTHORITY),
        treasury: FundedAccount { key: key(TREASURY), lamports: 200_000_000 },
        water_recipient: key(15),
    }
}

#[test]
fn a_registry_starts_with_the_given_rate() {
    let start = Registry { last_rate_change: 3, ..registry() };
    let mut ctx = InitializeRegistry { registry: start, authority: signed(9) };
    assert_eq!(initialize_registry(&mut ctx, 4, key(8)), Err(ErrorCode::InvalidCommissionRate));
    assert_eq!(initialize_registry(&mut ctx, 31, key(8)), Err(ErrorCode::InvalidCommissionRate));
    assert_eq!(ctx.registry, start);
    assert_eq!(initialize_registry(&mut ctx, 5, key(8)), Ok(()));
    assert_eq!(
        ctx.registry,
        Registry {
            authority: key(9),
            treasury: key(8),
            wheel_count: 0,
            commission_rate: 5,
            paused: false,
            last_rate_change: 3,
        }
    );
}

#[test]
fn commission_rates_change_once_a_day() {
    let mut ctx = UpdateRegistry { registry: registry(), authority: signed(AUTHORITY) };
    assert_eq!(update_commission_rate(&mut ctx, 4, 1), Err(ErrorCode::InvalidCommissionRate));
    assert_eq!(update_commission_rate(&mut ctx, 31, 1), Err(ErrorCode::InvalidCommissionRate));
    assert_eq!(update_commission_rate(&mut ctx, 30, 86_400), Err(ErrorCode::RateLimitExceeded));
    assert_eq!(ctx.registry, registry());
    assert_eq!(
        update_commission_rate(&mut ctx, 30, 86_401),
        Ok(CommissionRateChanged { old_rate: 10, new_rate: 30, timestamp: 86_401 })
    );
    assert_eq!(ctx.registry.commission_rate, 30);
    assert_eq!(ctx.registry.last_rate_change, 86_401);
    assert_eq!(update_commission_rate(&mut ctx, 5, 172_801), Err(ErrorCode::RateLimitExceeded));
    assert!(update_commission_rate(&mut ctx, 5, 172_802).is_ok());
}

#[test]
fn only_the_authority_rules_the_water_registry() {
    let mut ctx = UpdateRegistry { registry: registry(), authority: signed(AUTHORITY) };
    assert_eq!(ctx.check_accounts(), Ok(()));
    ctx.authority = signed(3);
    assert_eq!(ctx.check_accounts(), Err(AccountsError::Refused(ErrorCode::UnauthorizedAuthority)));
}

#[test]
fn a_paused_water_game_stands_still() {
    let mut rule = UpdateRegistry { registry: registry(), authority: signed(AUTHORITY) };
    assert_eq!(
        pause_protocol(&mut rule, 6),
        Ok(ProtocolPaused { authority: key(AUTHORITY), timestamp: 6 })
    );
    assert_eq!(rule.registry, Registry { paused: true, ..registry() });
    let mut open = InitializeWheel {
        wheel: at(WHEEL, empty_wheel()),
        registry: rule.registry,
        authority: signed(4),
    };
    assert_eq!(initialize_wheel(&mut open, 1, FEE, 0), Err(ErrorCode::ProtocolPaused));
    let mut join = joining(3, 40);
    join.registry = rule.registry;
    assert_eq!(join_wheel(&mut join, 0), Err(ErrorCode::ProtocolPaused));
    let mut split = splitting();
    split.registry = rule.registry;
    assert_eq!(split_wheel(&mut split, 1, 2, 0), Err(ErrorCode::ProtocolPaused));
}

#[test]
fn a_wheel_opens_with_a_fee_in_bounds() {
    let mut ctx = InitializeWheel {
        wheel: at(WHEEL, empty_wheel()),
        registry: registry(),
        authority: signed(4),
    };
    assert_eq!(initialize_wheel(&mut ctx, 5, 9_999_999, 0), Err(ErrorCode::InvalidEntryFee));
    assert_eq!(initialize_wheel(&mut ctx, 5, 10_000_000_001, 0), Err(ErrorCode::InvalidEntryFee));
    ctx.registry.wheel_count = u64::MAX;
    assert_eq!(initialize_wheel(&mut ctx, 5, FEE, 0), Err(ErrorCode::Overflow));
    ctx.registry = registry();
    assert_eq!(initialize_wheel(&mut ctx, 5, 10_000_000_000, 8), Ok(()));
    let mut expected = empty_wheel();
    expected.id = 5;
    expected.entry_fee = 10_000_000_000;
    expected.created_at = 8;
    assert_eq!(ctx.wheel.wheel, expected);
    assert_eq!(ctx.registry.wheel_count, 2);
    assert_eq!(initialize_wheel(&mut ctx, 6, FEE, 8), Err(ErrorCode::WheelAlreadyInitialized));
    assert_eq!(ctx.wheel.wheel, expected);
}

#[test]
fn joining_fills_the_water_wheel() {
    let mut ctx = joining(0, 1);
    for seat in 0..15u8 {
        ctx.participant = signed(seat + 1);
        assert_eq!(ctx.check_accounts(), Ok(()));
        let receipt = join_wheel(&mut ctx, 100 + seat as i64).unwrap();
        assert_eq!(
            receipt.event,
            ParticipantJoined {
                wheel_id: 7,
                participant: key(seat + 1),
                element: element_of(seat),
                entry_fee: FEE,
                participant_count: seat + 1,
            }
        );
        assert_eq!(receipt.instruction.accounts[0].pubkey, key(seat + 1));
        assert_eq!(receipt.instruction.accounts[1].pubkey, key(TREASURY));
        assert_eq!(receipt.instruction.data[4..], FEE.to_le_bytes());
    }
    assert_eq!(ctx.wheel.wheel, wheel_of(15));
    ctx.participant = signed(16);
    assert_eq!(join_wheel(&mut ctx, 0), Err(ErrorCode::WheelNotOpen));
    assert_eq!(ctx.check_accounts(), Err(AccountsError::Refused(ErrorCode::WheelNotOpen)));
}

#[test]
fn nobody_joins_a_water_wheel_twice() {
    let mut ctx = joining(4, 20);
    assert!(join_wheel(&mut ctx, 0).is_ok());
    let before = ctx.clone();
    assert_eq!(join_wheel(&mut ctx, 0), Err(ErrorCode::AlreadyJoined));
    assert_eq!(ctx, before);
}

#[test]
fn water_joins_are_refused_where_they_must_be() {
    let mut full = joining(15, 40);
    full.wheel.wheel.status = WheelStatus::Open;
    assert_eq!(join_wheel(&mut full, 0), Err(ErrorCode::WheelFull));
    let mut rich = joining(3, 40);
    rich.wheel.wheel.total_pool = u64::MAX;
    assert_eq!(join_wheel(&mut rich, 0), Err(ErrorCode::Overflow));
    let mut stranger = joining(3, 40);
    stranger.treasury = key(5);
    assert_eq!(stranger.check_accounts(), Err(AccountsError::Refused(ErrorCode::InvalidTreasury)));
}

#[test]
fn join_times_keep_their_low_word() {
    let mut ctx = joining(0, 1);
    assert!(join_wheel(&mut ctx, 0x1_0000_0005).is_ok());
    ctx.participant = signed(2);
    assert!(join_wheel(&mut ctx, -1).is_ok());
    assert_eq!(ctx.wheel.wheel.participants[0].joined_at, 5);
    assert_eq!(ctx.wheel.wheel.participants[1].joined_at, u32::MAX);
}

#[test]
fn a_full_water_wheel_is_split() {
    let mut ctx = splitting();
    assert_eq!(ctx.check_accounts(), Ok(()));
    let receipt = split_wheel(&mut ctx, 3, 4, 31).unwrap();
    let payout = 135_000_000;
    assert_eq!(
        receipt.moves,
        vec![LamportMove { from: key(TREASURY), to: key(15), lamports: payout }]
    );
    assert_eq!(
        receipt.event,
        WheelSplit {
            parent_wheel_id: 7,
            left_wheel_id: 3,
            right_wheel_id: 4,
            water_winner: key(15),
            payout_amount: payout,
            commission_amount: 15_000_000,
            timestamp: 31,
        }
    );
    let mut parent = wheel_of(15);
    parent.status = WheelStatus::Split;
    parent.paid_out = true;
    parent.children = [Some(key(LEFT)), Some(key(RIGHT))];
    assert_eq!(ctx.parent_wheel.wheel, parent);
    assert_eq!(ctx.registry, registry());
    let elements = [
        Element::Air,
        Element::Air,
        Element::Air,
        Element::Air,
        Element::Fire,
        Element::Fire,
        Element::Water,
    ];
    let halves = [
        (&ctx.left_wheel.wheel, 3u64, [0usize, 1, 2, 3, 8, 9, 12]),
        (&ctx.right_wheel.wheel, 4u64, [4usize, 5, 6, 7, 10, 11, 13]),
    ];
    for (child, id, origins) in halves {
        let mut expected = empty_wheel();
        expected.id = id;
        expected.parent = Some(key(WHEEL));
        expected.entry_fee = FEE;
        expected.generation = 1;
        expected.created_at = 31;
        for (seat, origin) in origins.iter().enumerate() {
            let mut p = parent.participants[*origin];
            p.element = elements[seat];
            expected.participants.push(p);
        }
        assert_eq!(*child, expected);
    }

    let mut ledger = Ledger::new();
    ledger.record(key(TREASURY), 200_000_000);
    ledger.record(key(15), 1);
    assert!(ledger.apply(&receipt.moves));
    assert_eq!(ledger.balance(key(TREASURY)), Some(65_000_000));
    assert_eq!(ledger.balance(key(15)), Some(135_000_001));
}

#[test]
fn a_water_wheel_is_paid_out_once() {
    let mut ctx = splitting();
    assert!(split_wheel(&mut ctx, 3, 4, 0).is_ok());
    ctx.left_wheel.wheel = empty_wheel();
    ctx.right_wheel.wheel = empty_wheel();
    assert_eq!(split_wheel(&mut ctx, 3, 4, 0), Err(ErrorCode::AlreadyPaidOut));
}

#[test]
fn water_splits_are_refused_where_they_must_be() {
    let cases: Vec<(fn(&mut SplitWheel), ErrorCode)> = vec![
        (|c| c.parent_wheel.wheel.paid_out = true, ErrorCode::AlreadyPaidOut),
        (|c| c.parent_wheel.wheel.status = WheelStatus::Open, ErrorCode::WheelNotFull),
        (
            |c| {
                c.parent_wheel.wheel.participants.pop();
            },
            ErrorCode::InvalidParticipantCount,
        ),
        (
            |c| c.parent_wheel.wheel.participants[14].element = Element::Fire,
            ErrorCode::InvalidWaterParticipant,
        ),
        (|c| c.water_recipient = key(1), ErrorCode::InvalidRecipient),
        (|c| c.parent_wheel.wheel.total_pool = u64::MAX, ErrorCode::Overflow),
        (|c| c.registry.commission_rate = 101, ErrorCode::Underflow),
        (|c| c.treasury.lamports = 134_999_999, ErrorCode::InsufficientTreasuryBalance),
        (|c| c.left_wheel.wheel.id = 5, ErrorCode::WheelAlreadyInitialized),
        (|c| c.parent_wheel.wheel.generation = u32::MAX, ErrorCode::Overflow),
        (
            |c| c.parent_wheel.wheel.participants[13].pubkey = key(11),
            ErrorCode::DuplicateParticipant,
        ),
    ];
    for (spoil, error) in cases {
        let mut ctx = splitting();
        spoil(&mut ctx);
        let before = ctx.clone();
        assert_eq!(split_wheel(&mut ctx, 3, 4, 0), Err(error));
        assert_eq!(ctx, before);
    }
}

#[test]
fn water_split_accounts_are_checked() {
    let mut ctx = splitting();
    ctx.treasury.key = key(3);
    assert_eq!(ctx.check_accounts(), Err(AccountsError::Refused(ErrorCode::InvalidTreasury)));
    ctx.parent_wheel.wheel.paid_out = true;
    assert_eq!(ctx.check_accounts(), Err(AccountsError::Refused(ErrorCode::AlreadyPaidOut)));
    ctx.parent_wheel.wheel.status = WheelStatus::Split;
    assert_eq!(ctx.check_accounts(), Err(AccountsError::Refused(ErrorCode::WheelNotFull)));
}

#[test]
fn children_need_all_the_seats() {
    let parent = at(WHEEL, wheel_of(13));
    assert!(initialize_child_wheel(&empty_wheel(), 3, &parent, true, 0).is_ok());
    assert_eq!(
        initialize_child_wheel(&empty_wheel(), 3, &parent, false, 0),
        Err(ErrorCode::InvalidIndex)
    );
    assert_eq!(
        initialize_child_wheel(&wheel_of(0), 3, &parent, true, 0),
        Err(ErrorCode::WheelAlreadyInitialized)
    );
}

#[test]
fn participants_are_added_once() {
    let parent = wheel_of(5);
    let mut wheel = empty_wheel();
    assert_eq!(add_participants_safely(&mut wheel, &parent, &[4, 2], Element::Fire), Ok(()));
    let mut expected = empty_wheel();
    for seat in [4usize, 2] {
        let mut p = parent.participants[seat];
        p.element = Element::Fire;
        expected.participants.push(p);
    }
    assert_eq!(wheel, expected);
}

#[test]
fn a_failed_addition_leaves_those_before_it() {
    let parent = wheel_of(5);
    let air = |seat: usize| {
        let mut p = parent.participants[seat];
        p.element = Element::Air;
        p
    };
    let mut wheel = empty_wheel();
    wheel.participants.push(air(2));
    assert_eq!(
        add_participants_safely(&mut wheel, &parent, &[0, 2, 9], Element::Air),
        Err(ErrorCode::DuplicateParticipant)
    );
    assert_eq!(wheel.participants, vec![air(2), air(0)]);
    let mut wheel = empty_wheel();
    assert_eq!(
        add_participants_safely(&mut wheel, &parent, &[0, 1, 9, 0], Element::Air),
        Err(ErrorCode::InvalidIndex)
    );
    assert_eq!(wheel.participants, vec![air(0), air(1)]);
    let mut wheel = empty_wheel();
    assert_eq!(
        add_participants_safely(&mut wheel, &parent, &[3, 3], Element::Air),
        Err(ErrorCode::DuplicateParticipant)
    );
    assert_eq!(wheel.participants, vec![air(3)]);
}

#[test]
fn water_errors_have_numbers_and_texts() {
    assert_eq!(ErrorCode::WheelNotOpen.number(), 6000);
    assert_eq!(ErrorCode::RateLimitExceeded.number(), 6019);
    assert_eq!(ErrorCode::InvalidEntryFee.message(), "Invalid entry fee (0.01-10 SOL)");
    assert_eq!(ErrorCode::Underflow.message(), "Underflow error");
}

#[test]
fn a_paused_water_game_stays_paused() {
    let mut ctx = UpdateRegistry { registry: registry(), authority: signed(AUTHORITY) };
    assert!(pause_protocol(&mut ctx, 0).is_ok());
    assert!(update_commission_rate(&mut ctx, 20, 100_000).is_ok());
    assert!(ctx.registry.paused);
    assert!(pause_protocol(&mut ctx, 0).is_ok());
    assert!(ctx.registry.paused);
}

#[test]
fn an_opened_wheel_keeps_its_place() {
    let mut ctx = InitializeWheel {
        wheel: at(WHEEL, wheel_of(3)),
        registry: registry(),
        authority: signed(4),
    };
    assert_eq!(initialize_wheel(&mut ctx, 8, FEE, 0), Err(ErrorCode::WheelAlreadyInitialized));
    assert_eq!(
        initialize_child_wheel(&ctx.wheel.wheel, 8, &at(LEFT, wheel_of(15)), true, 0),
        Err(ErrorCode::WheelAlreadyInitialized)
    );
    ctx.wheel.wheel.id = 0;
    assert_eq!(initialize_wheel(&mut ctx, 8, FEE, 0), Ok(()));
    assert!(ctx.wheel.wheel.participants.is_empty());
}

#[test]
fn the_last_to_join_wins() {
    let mut join = joining(14, 77);
    assert!(join_wheel(&mut join, 0).is_ok());
    let mut split = splitting();
    split.parent_wheel = join.wheel;
    assert_eq!(split_wheel(&mut split, 3, 4, 0), Err(ErrorCode::InvalidRecipient));
    split.water_recipient = key(77);
    let receipt = split_wheel(&mut split, 3, 4, 0).unwrap();
    assert_eq!(receipt.event.water_winner, key(77));
    assert_eq!(receipt.moves[0].to, key(77));
    for child in [&split.left_wheel.wheel, &split.right_wheel.wheel] {
        assert!(child.participants.iter().all(|p| p.pubkey != key(77)));
    }
}

#[test]
fn a_rate_change_tells_both_rates() {
    let mut ctx = UpdateRegistry { registry: registry(), authority: signed(AUTHORITY) };
    assert_eq!(
        update_commission_rate(&mut ctx, 20, 1_700_000_000),
        Ok(CommissionRateChanged { old_rate: 10, new_rate: 20, timestamp: 1_700_000_000 })
    );
    assert_eq!(ctx.registry.commission_rate, 20);
}

#[test]
fn a_day_between_rate_changes_is_not_cut_short() {
    let mut ctx = UpdateRegistry { registry: registry(), authority: signed(AUTHORITY) };
    assert!(update_commission_rate(&mut ctx, 20, 100_000).is_ok());
    assert!(pause_protocol(&mut ctx, 100_001).is_ok());
    assert_eq!(update_commission_rate(&mut ctx, 21, 186_400), Err(ErrorCode::RateLimitExceeded));
    assert!(update_commission_rate(&mut ctx, 21, 186_401).is_ok());
}

#[test]
fn water_accounts_have_to_sign() {
    let unsigned = SignerAccount { key: key(AUTHORITY), is_signer: false };
    let start = InitializeRegistry { registry: registry(), authority: unsigned };
    assert_eq!(start.check_accounts(), Err(AccountsError::NotSigner));
    let rule = UpdateRegistry { registry: registry(), authority: unsigned };
    assert_eq!(rule.check_accounts(), Err(AccountsError::NotSigner));
    let mut open = InitializeWheel {
        wheel: at(WHEEL, empty_wheel()),
        registry: registry(),
        authority: unsigned,
    };
    assert_eq!(open.check_accounts(), Err(AccountsError::NotSigner));
    open.authority.is_signer = true;
    assert_eq!(open.check_accounts(), Ok(()));
    let mut join = joining(3, 40);
    join.participant.is_signer = false;
    assert_eq!(join.check_accounts(), Err(AccountsError::NotSigner));
    let mut split = splitting();
    split.authority.is_signer = false;
    assert_eq!(split.check_accounts(), Err(AccountsError::NotSigner));
}

#[test]
fn a_new_water_wheel_fills_seat_by_seat() {
    let mut open = InitializeWheel {
        wheel: at(WHEEL, empty_wheel()),
        registry: registry(),
        authority: signed(4),
    };
    assert_eq!(initialize_wheel(&mut open, 5, FEE, 9), Ok(()));
    let mut ledger = Ledger::new();
    ledger.record(key(TREASURY), 700);
    let mut ctx = joining(0, 1);
    ctx.wheel = open.wheel;
    for n in 0..15u8 {
        ctx.participant = signed(n + 1);
        ledger.record(key(n + 1), 2 * FEE);
        assert!(join_wheel(&mut ctx, 50 + n as i64).is_ok());
        let payment = LamportMove { from: key(n + 1), to: key(TREASURY), lamports: FEE };
        assert!(ledger.apply_move(payment));
        let count = n as u64 + 1;
        let seat = ctx.wheel.wheel.participants[n as usize];
        assert_eq!(seat.pubkey, key(n + 1));
        assert_eq!(seat.element, element_of(n));
        assert_eq!(seat.joined_at, 50 + n as u32);
        assert_eq!(ctx.wheel.wheel.total_pool, count * FEE);
        assert_eq!(ctx.wheel.wheel.status == WheelStatus::Full, count == 15);
        assert_eq!(ledger.balance(key(TREASURY)), Some(700 + count * FEE));
    }
    ctx.participant = signed(16);
    assert_eq!(join_wheel(&mut ctx, 0), Err(ErrorCode::WheelNotOpen));
}

#[test]
fn only_the_founder_rules_the_water_game() {
    let mut start = InitializeRegistry { registry: registry(), authority: signed(9) };
    assert_eq!(initialize_registry(&mut start, 10, key(8)), Ok(()));
    let mut rule = UpdateRegistry { registry: start.registry, authority: signed(9) };
    assert!(update_commission_rate(&mut rule, 20, 100_000).is_ok());
    assert!(pause_protocol(&mut rule, 100_001).is_ok());
    assert_eq!(rule.check_accounts(), Ok(()));
    assert_eq!(rule.registry.authority, key(9));
    assert_eq!(rule.registry.treasury, key(8));
    rule.authority.is_signer = false;
    assert_eq!(rule.check_accounts(), Err(AccountsError::NotSigner));
    rule.authority = signed(8);
    assert_eq!(
        rule.check_accounts(),
        Err(AccountsError::Refused(ErrorCode::UnauthorizedAuthority))
    );
}
