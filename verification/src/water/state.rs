//! The accounts of the game and what is told of their changes.
use crate::pubkey::Pubkey;
use vstd::prelude::*;

verus! {

/// The number of seats on a wheel.
pub const WHEEL_SEATS: usize = 15;

/// What the whole game shares.
#[derive(Clone, Copy, Debug, PartialEq, Eq)]
pub struct Registry {
    pub authority: Pubkey,
    pub treasury: Pubkey,
    pub wheel_count: u64,
    pub commission_rate: u8,
    pub paused: bool,
    pub last_rate_change: i64,
}

/// One wheel and those who sit on it, in the order of their seats.
#[derive(Clone, Debug, PartialEq, Eq)]
pub struct Wheel {
    pub id: u64,
    pub parent: Option<Pubkey>,
    pub children: [Option<Pubkey>; 2],
    pub participants: Vec<CompactParticipant>,
    pub status: WheelStatus,
    pub entry_fee: u64,
    pub total_pool: u64,
    pub generation: u32,
    pub created_at: i64,
    pub paid_out: bool,
}

/// A participant's seat. The time of the join is kept in thirty-two bits.
#[derive(Clone, Copy, Debug, PartialEq, Eq)]
pub struct CompactParticipant {
    pub pubkey: Pubkey,
    pub element: Element,
    pub joined_at: u32,
}

#[derive(Clone, Copy, Debug, PartialEq, Eq, Structural)]
pub enum WheelStatus {
    Open,
    Full,
    Split,
}

#[derive(Clone, Copy, Debug, PartialEq, Eq, Structural)]
pub enum Element {
    Earth,
    Air,
    Fire,
    Water,
}

/// A wheel in its account: the address and the content.
#[derive(Clone, Debug, PartialEq, Eq)]
pub struct WheelAccount {
    pub key: Pubkey,
    pub wheel: Wheel,
}

/// An account of which an instruction reads the balance.
#[derive(Clone, Copy, Debug, PartialEq, Eq)]
pub struct FundedAccount {
    pub key: Pubkey,
    pub lamports: u64,
}

/// A wheel as contracts speak of it.
pub struct WheelView {
    pub id: u64,
    pub parent: Option<Pubkey>,
    pub children: Seq<Option<Pubkey>>,
    pub participants: Seq<CompactParticipant>,
    pub status: WheelStatus,
    pub entry_fee: u64,
    pub total_pool: u64,
    pub generation: u32,
    pub created_at: i64,
    pub paid_out: bool,
}

impl View for Wheel {
    type V = WheelView;

    open spec fn view(&self) -> WheelView {
        WheelView {
            id: self.id,
            parent: self.parent,
            children: self.children@,
            participants: self.participants@,
            status: self.status,
            entry_fee: self.entry_fee,
            total_pool: self.total_pool,
            generation: self.generation,
            created_at: self.created_at,
            paid_out: self.paid_out,
        }
    }
}

/// Somebody's address is among the participants.
pub open spec fn seated(participants: Seq<CompactParticipant>, key: Pubkey) -> bool {
    exists|i: int| 0 <= i < participants.len() && (#[trigger] participants[i]).pubkey == key
}

/// Tells whether somebody's address is among the participants.
pub(crate) fn is_seated(participants: &Vec<CompactParticipant>, key: Pubkey) -> (found: bool)
    ensures
        found == seated(participants@, key),
{
    let mut i: usize = 0;
    while i < participants.len()
        invariant
            i <= participants@.len(),
            forall|j: int| 0 <= j < i ==> (#[trigger] participants@[j]).pubkey != key,
        decreases participants@.len() - i,
    {
        if participants[i].pubkey == key {
            return true;
        }
        i = i + 1;
    }
    false
}

#[derive(Clone, Copy, Debug, PartialEq, Eq)]
pub struct ParticipantJoined {
    pub wheel_id: u64,
    pub participant: Pubkey,
    pub element: Element,
    pub entry_fee: u64,
    pub participant_count: u8,
}

#[derive(Clone, Copy, Debug, PartialEq, Eq)]
pub struct WheelSplit {
    pub parent_wheel_id: u64,
    pub left_wheel_id: u64,
    pub right_wheel_id: u64,
    pub water_winner: Pubkey,
    pub payout_amount: u64,
    pub commission_amount: u64,
    pub timestamp: i64,
}

#[derive(Clone, Copy, Debug, PartialEq, Eq)]
pub struct CommissionRateChanged {
    pub old_rate: u8,
    pub new_rate: u8,
    pub timestamp: i64,
}

#[derive(Clone, Copy, Debug, PartialEq, Eq)]
pub struct ProtocolPaused {
    pub authority: Pubkey,
    pub timestamp: i64,
}

} // verus!
