//! The accounts of the game and what is told of their changes.
use crate::pubkey::Pubkey;
use vstd::prelude::*;

verus! {

/// The number of seats on a wheel.
pub const WHEEL_SEATS: usize = 15;

/// What the whole game shares.
#[derive(Clone, Copy, Debug, PartialEq, Eq)]
pub struct Registry {
    pub authority: Pubkey,
    pub treasury: Pubkey,
    pub commission_wallet: Pubkey,
    pub wheel_count: u64,
    pub commission_rate: u8,
    pub paused: bool,
    pub last_rate_change: i64,
}

/// One wheel and those who sit on it, in the order in which they joined.
#[derive(Clone, Debug, PartialEq, Eq)]
pub struct Wheel {
    pub id: u64,
    pub parent: Option<Pubkey>,
    pub children: [Option<Pubkey>; 2],
    pub participants: Vec<CompactParticipant>,
    pub status: WheelStatus,
    pub entry_fee: u64,
    pub total_pool: u64,
    pub generation: u32,
    pub created_at: i64,
    pub paid_out: bool,
    pub tier: GameTier,
}

/// A participant's seat.
#[derive(Clone, Copy, Debug, PartialEq, Eq)]
pub struct CompactParticipant {
    pub pubkey: Pubkey,
    pub element: Element,
}

#[derive(Clone, Copy, Debug, PartialEq, Eq, Structural)]
pub enum WheelStatus {
    Open,
    Full,
    Split,
    Refunded,
}

#[derive(Clone, Copy, Debug, PartialEq, Eq, Structural)]
pub enum Element {
    Earth,
    Air,
    Fire,
    Water,
}

/// The price classes of a wheel.
#[derive(Clone, Copy, Debug, PartialEq, Eq, Structural)]
pub enum GameTier {
    EmberWolf,
    SkyWalker,
    Flamecaster,
    StormWarrior,
    TideWarlord,
    StoneTitan,
    VoidReaper,
    AstralEmperor,
    CelestialOverlord,
}

/// A wheel in its account: the address, the balance and the content.
#[derive(Clone, Debug, PartialEq, Eq)]
pub struct WheelAccount {
    pub key: Pubkey,
    pub lamports: u64,
    pub wheel: Wheel,
}

/// An account that follows those an instruction names.
#[derive(Clone, Copy, Debug, PartialEq, Eq)]
pub struct RemainingAccount {
    pub key: Pubkey,
    pub is_writable: bool,
}

/// A wheel as contracts speak of it.
pub struct WheelView {
    pub id: u64,
    pub parent: Option<Pubkey>,
    pub children: Seq<Option<Pubkey>>,
    pub participants: Seq<CompactParticipant>,
    pub status: WheelStatus,
    pub entry_fee: u64,
    pub total_pool: u64,
    pub generation: u32,
    pub created_at: i64,
    pub paid_out: bool,
    pub tier: GameTier,
}

impl View for Wheel {
    type V = WheelView;

    open spec fn view(&self) -> WheelView {
        WheelView {
            id: self.id,
            parent: self.parent,
            children: self.children@,
            participants: self.participants@,
            status: self.status,
            entry_fee: self.entry_fee,
            total_pool: self.total_pool,
            generation: self.generation,
            created_at: self.created_at,
            paid_out: self.paid_out,
            tier: self.tier,
        }
    }
}

/// The entry fee of a tier in lamports, of which a SOL has a thousand million:
/// 0.01, 0.1, 1, 5, 10, 50, 100, 500 and 1000 SOL.
pub open spec fn tier_fee(tier: GameTier) -> u64 {
    match tier {
        GameTier::EmberWolf => 10_000_000,
        GameTier::SkyWalker => 100_000_000,
        GameTier::Flamecaster => 1_000_000_000,
        GameTier::StormWarrior => 5_000_000_000,
        GameTier::TideWarlord => 10_000_000_000,
        GameTier::StoneTitan => 50_000_000_000,
        GameTier::VoidReaper => 100_000_000_000,
        GameTier::AstralEmperor => 500_000_000_000,
        GameTier::CelestialOverlord => 1_000_000_000_000,
    }
}

impl GameTier {
    /// The entry fee of the tier in lamports.
    pub fn entry_fee(&self) -> (fee: u64)
        ensures
            fee == tier_fee(*self),
    {
        match self {
            GameTier::EmberWolf => 10_000_000,
            GameTier::SkyWalker => 100_000_000,
            GameTier::Flamecaster => 1_000_000_000,
            GameTier::StormWarrior => 5_000_000_000,
            GameTier::TideWarlord => 10_000_000_000,
            GameTier::StoneTitan => 50_000_000_000,
            GameTier::VoidReaper => 100_000_000_000,
            GameTier::AstralEmperor => 500_000_000_000,
            GameTier::CelestialOverlord => 1_000_000_000_000,
        }
    }
}

#[derive(Clone, Copy, Debug, PartialEq, Eq)]
pub struct WheelCreated {
    pub wheel_id: u64,
    pub tier: GameTier,
    pub entry_fee: u64,
    pub timestamp: i64,
}

#[derive(Clone, Copy, Debug, PartialEq, Eq)]
pub struct ParticipantJoined {
    pub wheel_id: u64,
    pub participant: Pubkey,
    pub element: Element,
    pub entry_fee: u64,
    pub participant_count: u8,
}

#[derive(Clone, Copy, Debug, PartialEq, Eq)]
pub struct WheelSplit {
    pub parent_wheel_id: u64,
    pub left_wheel_id: u64,
    pub right_wheel_id: u64,
    pub center_winner: Pubkey,
    pub payout_amount: u64,
    pub commission_amount: u64,
    pub timestamp: i64,
}

#[derive(Clone, Copy, Debug, PartialEq, Eq)]
pub struct WheelAutoSplit {
    pub parent_wheel_id: u64,
    pub left_wheel_id: u64,
    pub right_wheel_id: u64,
    pub center_winner: Pubkey,
    pub payout_amount: u64,
    pub commission_amount: u64,
    pub timestamp: i64,
}

#[derive(Clone, Copy, Debug, PartialEq, Eq)]
pub struct WheelRefunded {
    pub wheel_id: u64,
    pub participant_count: u32,
    pub refund_per_participant: u64,
    pub total_refunded: u64,
    pub gas_cost_per_refund: u64,
    pub total_gas_deducted: u64,
    pub previous_status: WheelStatus,
    pub timestamp: i64,
}

#[derive(Clone, Copy, Debug, PartialEq, Eq)]
pub struct CommissionWalletUpdated {
    pub old_wallet: Pubkey,
    pub new_wallet: Pubkey,
    pub updated_by: Pubkey,
    pub timestamp: i64,
}

} // verus!
