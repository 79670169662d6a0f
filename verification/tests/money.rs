use elemental_loom::center::accounts::JoinWheel;
use elemental_loom::center::join::join_wheel;
use elemental_loom::center::state::{GameTier, Registry, Wheel, WheelAccount, WheelStatus};
use elemental_loom::ledger::{LamportMove, Ledger};
use elemental_loom::pool::{share_pool, PoolShares, ShareError};
use elemental_loom::pubkey::Pubkey;
use elemental_loom::signer::SignerAccount;
use elemental_loom::transfer::AccountMeta;

fn key(n: u8) -> Pubkey {
    Pubkey { bytes: [n; 32] }
}

#[test]
fn addresses_are_equal_when_all_bytes_are() {
    let mut bytes = [7u8; 32];
    assert!(Pubkey { bytes } == key(7));
    bytes[31] = 8;
    assert!(Pubkey { bytes } != key(7));
    bytes = [7u8; 32];
    bytes[0] = 0;
    assert!(Pubkey { bytes } != key(7));
}

#[test]
fn a_pool_is_shared_by_the_rate() {
    assert_eq!(share_pool(1_000, 15), Ok(PoolShares { commission: 150, payout: 850 }));
    assert_eq!(share_pool(999, 15), Ok(PoolShares { commission: 149, payout: 850 }));
    assert_eq!(share_pool(0, 30), Ok(PoolShares { commission: 0, payout: 0 }));
    assert_eq!(share_pool(7, 100), Ok(PoolShares { commission: 7, payout: 0 }));
}

#[test]
fn a_pool_that_cannot_be_shared_is_refused() {
    assert_eq!(share_pool(u64::MAX, 2), Err(ShareError::Overflow));
    assert_eq!(share_pool(1_000, 101), Err(ShareError::Underflow));
    assert_eq!(share_pool(u64::MAX, 1), Ok(PoolShares {
        commission: u64::MAX / 100,
        payout: u64::MAX - u64::MAX / 100,
    }));
}

#[test]
fn a_ledger_remembers_balances() {
    let mut ledger = Ledger::new();
    assert_eq!(ledger.balance(key(1)), None);
    ledger.record(key(1), 5);
    ledger.record(key(2), 6);
    ledger.record(key(1), 7);
    assert_eq!(ledger.balance(key(1)), Some(7));
    assert_eq!(ledger.balance(key(2)), Some(6));
    assert_eq!(ledger.balance(key(3)), None);
}

#[test]
fn moves_conserve_the_sum_of_balances() {
    let mut ledger = Ledger::new();
    ledger.record(key(1), 100);
    ledger.record(key(2), 10);
    ledger.record(key(3), 0);
    let moves = vec![
        LamportMove { from: key(1), to: key(2), lamports: 60 },
        LamportMove { from: key(1), to: key(3), lamports: 40 },
        LamportMove { from: key(2), to: key(2), lamports: 70 },
    ];
    assert!(ledger.apply(&moves));
    assert_eq!(ledger.balance(key(1)), Some(0));
    assert_eq!(ledger.balance(key(2)), Some(70));
    assert_eq!(ledger.balance(key(3)), Some(40));
}

#[test]
fn moves_that_cannot_all_be_made_change_nothing() {
    let mut ledger = Ledger::new();
    ledger.record(key(1), 100);
    ledger.record(key(2), u64::MAX - 10);
    let short = vec![
        LamportMove { from: key(1), to: key(2), lamports: 5 },
        LamportMove { from: key(1), to: key(2), lamports: 96 },
    ];
    assert!(!ledger.apply(&short));
    let too_much = vec![LamportMove { from: key(1), to: key(2), lamports: 11 }];
    assert!(!ledger.apply(&too_much));
    let unknown = vec![LamportMove { from: key(1), to: key(9), lamports: 1 }];
    assert!(!ledger.apply(&unknown));
    assert!(!ledger.apply_move(LamportMove { from: key(9), to: key(1), lamports: 0 }));
    assert_eq!(ledger.balance(key(1)), Some(100));
    assert_eq!(ledger.balance(key(2)), Some(u64::MAX - 10));
    assert!(ledger.apply_move(LamportMove { from: key(1), to: key(2), lamports: 10 }));
    assert_eq!(ledger.balance(key(2)), Some(u64::MAX));
}

#[test]
fn entry_fees_are_paid_by_a_system_transfer() {
    let fee = 0x0102_0304_0506_0708u64;
    let mut ctx = JoinWheel {
        wheel: WheelAccount {
            key: key(2),
            lamports: 0,
            wheel: Wheel {
                id: 4,
                parent: None,
                children: [None, None],
                participants: vec![],
                status: WheelStatus::Open,
                entry_fee: fee,
                total_pool: 0,
                generation: 0,
                created_at: 0,
                paid_out: false,
                tier: GameTier::EmberWolf,
            },
        },
        participant: SignerAccount { key: key(3), is_signer: true },
        registry: Registry {
            authority: key(1),
            treasury: key(1),
            commission_wallet: key(1),
            wheel_count: 5,
            commission_rate: 15,
            paused: false,
            last_rate_change: 0,
        },
        treasury: key(1),
    };
    let instruction = join_wheel(&mut ctx).unwrap().instruction;
    assert_eq!(instruction.program_id, key(0));
    assert_eq!(
        instruction.accounts,
        vec![
            AccountMeta { pubkey: key(3), is_signer: true, is_writable: true },
            AccountMeta { pubkey: key(2), is_signer: false, is_writable: true },
        ]
    );
    assert_eq!(instruction.data, vec![2, 0, 0, 0, 8, 7, 6, 5, 4, 3, 2, 1]);
}
