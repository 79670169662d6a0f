//! Giving the entry fees of a wheel back.
use super::accounts::RefundWheel;
use super::error::ErrorCode;
use super::state::{
    CompactParticipant, Registry, RemainingAccount, WheelRefunded, WheelStatus, WheelView,
};
use crate::ledger::LamportMove;
use crate::pubkey::Pubkey;
use vstd::prelude::*;

verus! {

/// What follows from a refund: the lamports to be moved, in turn, and what is
/// told of it.
#[derive(Clone, Debug, PartialEq, Eq)]
pub struct RefundReceipt {
    pub moves: Vec<LamportMove>,
    pub event: WheelRefunded,
}

/// What is wrong with the account that is to take one participant's refund.
pub open spec fn recipient_error(
    participant: CompactParticipant,
    account: RemainingAccount,
) -> Option<ErrorCode> {
    if account.key != participant.pubkey {
        Some(ErrorCode::InvalidRecipient)
    } else if !account.is_writable {
        Some(ErrorCode::AccountNotWritable)
    } else {
        None
    }
}

/// What is wrong with the first account, from seat `from` on, that cannot take
/// the refund of its seat.
pub open spec fn recipients_error(
    participants: Seq<CompactParticipant>,
    accounts: Seq<RemainingAccount>,
    from: int,
) -> Option<ErrorCode>
    decreases participants.len() - from,
{
    if from >= participants.len() {
        None
    } else {
        match recipient_error(participants[from], accounts[from]) {
            Some(error) => Some(error),
            None => recipients_error(participants, accounts, from + 1),
        }
    }
}

/// What one participant gets back: the entry fee less the cost of the refund.
pub open spec fn refund_of(wheel: WheelView, gas_cost_per_refund: u64) -> u64 {
    (wheel.entry_fee - gas_cost_per_refund) as u64
}

/// Why a refund is refused.
pub open spec fn refund_wheel_error(
    registry: Registry,
    authority: Pubkey,
    wheel: WheelView,
    wheel_lamports: u64,
    accounts: Seq<RemainingAccount>,
    gas_cost_per_refund: u64,
) -> Option<ErrorCode> {
    let count = wheel.participants.len();
    if authority != registry.authority {
        Some(ErrorCode::Unauthorized)
    } else if wheel.status == WheelStatus::Refunded {
        Some(ErrorCode::AlreadyRefunded)
    } else if wheel.paid_out {
        Some(ErrorCode::AlreadyPaidOut)
    } else if gas_cost_per_refund > wheel.entry_fee / 10 {
        Some(ErrorCode::GasCostTooHigh)
    } else if count == 0 {
        Some(ErrorCode::NoParticipantsToRefund)
    } else if refund_of(wheel, gas_cost_per_refund) * count > u64::MAX {
        Some(ErrorCode::Overflow)
    } else if wheel_lamports < refund_of(wheel, gas_cost_per_refund) * count {
        Some(ErrorCode::InsufficientBalanceForRefund)
    } else if accounts.len() != count {
        Some(ErrorCode::InvalidParticipantCount)
    } else {
        recipients_error(wheel.participants, accounts, 0)
    }
}

/// The payments of a refund: the same to each participant, in the order of seats.
pub open spec fn refund_moves(wheel: Pubkey, accounts: Seq<RemainingAccount>, refund: u64) -> Seq<
    LamportMove,
> {
    Seq::new(
        accounts.len(),
        |i: int| LamportMove { from: wheel, to: accounts[i].key, lamports: refund },
    )
}

/// What comes of a refund: what is left and what is returned.
pub open spec fn refund_wheel_outcome(
    before: RefundWheel,
    remaining_accounts: Seq<RemainingAccount>,
    gas_cost_per_refund: u64,
    now: i64,
    after: RefundWheel,
    receipt: Result<RefundReceipt, ErrorCode>,
) -> bool {
    match refund_wheel_error(
        before.registry,
        before.authority.key,
        before.wheel.wheel@,
        before.wheel.lamports,
        remaining_accounts,
        gas_cost_per_refund,
    ) {
        Some(error) => receipt == Err::<RefundReceipt, ErrorCode>(error) && after == before,
        None => {
            let wheel = before.wheel.wheel@;
            let count = wheel.participants.len();
            let refund = refund_of(wheel, gas_cost_per_refund);
            &&& receipt is Ok
            &&& receipt->Ok_0.moves@ == refund_moves(
                before.wheel.key,
                remaining_accounts,
                refund,
            )
            &&& receipt->Ok_0.event.wheel_id == wheel.id
            &&& receipt->Ok_0.event.participant_count == count
            &&& receipt->Ok_0.event.refund_per_participant == refund
            &&& receipt->Ok_0.event.total_refunded == refund * count
            &&& receipt->Ok_0.event.gas_cost_per_refund == gas_cost_per_refund
            &&& receipt->Ok_0.event.total_gas_deducted == gas_cost_per_refund * count
            &&& receipt->Ok_0.event.previous_status == wheel.status
            &&& receipt->Ok_0.event.timestamp == now
            &&& after.wheel.wheel@ == (WheelView { status: WheelStatus::Refunded, ..wheel })
            &&& after.wheel.key == before.wheel.key
            &&& after.wheel.lamports == before.wheel.lamports
            &&& after.registry == before.registry
            &&& after.authority == before.authority
        },
    }
}

/// Gives every participant of a wheel that has not been paid out the entry fee
/// back, less the cost of the refund, which is at most a tenth of the fee.
pub fn refund_wheel(
    ctx: &mut RefundWheel,
    remaining_accounts: &Vec<RemainingAccount>,
    gas_cost_per_refund: u64,
    now: i64,
) -> (receipt: Result<RefundReceipt, ErrorCode>)
    requires
        old(ctx).wheel.wheel.participants@.len() <= u32::MAX,
    ensures
        refund_wheel_outcome(
            *old(ctx),
            remaining_accounts@,
            gas_cost_per_refund,
            now,
            *final(ctx),
            receipt,
        ),
{
    if ctx.authority.key != ctx.registry.authority {
        return Err(ErrorCode::Unauthorized);
    }
    if ctx.wheel.wheel.status == WheelStatus::Refunded {
        return Err(ErrorCode::AlreadyRefunded);
    }
    if ctx.wheel.wheel.paid_out {
        return Err(ErrorCode::AlreadyPaidOut);
    }
    let max_gas: u64 = ctx.wheel.wheel.entry_fee / 10;
    if gas_cost_per_refund > max_gas {
        return Err(ErrorCode::GasCostTooHigh);
    }
    let participant_count: usize = ctx.wheel.wheel.participants.len();
    if participant_count == 0 {
        return Err(ErrorCode::NoParticipantsToRefund);
    }
    let refund_per_participant: u64 = ctx.wheel.wheel.entry_fee - gas_cost_per_refund;
    let total_refund_needed: u64 = match refund_per_participant.checked_mul(
        participant_count as u64,
    ) {
        None => {
            return Err(ErrorCode::Overflow);
        },
        Some(total) => total,
    };
    if ctx.wheel.lamports < total_refund_needed {
        return Err(ErrorCode::InsufficientBalanceForRefund);
    }
    if remaining_accounts.len() != participant_count {
        return Err(ErrorCode::InvalidParticipantCount);
    }
    let mut moves: Vec<LamportMove> = Vec::new();
    let mut total_refunded: u64 = 0;
    let mut refund_count: u32 = 0;
    let mut i: usize = 0;
    while i < participant_count
        invariant
            i <= participant_count,
            participant_count <= u32::MAX,
            *ctx == *old(ctx),
            participant_count == ctx.wheel.wheel.participants@.len(),
            remaining_accounts@.len() == participant_count,
            refund_per_participant * participant_count == total_refund_needed,
            total_refunded == refund_per_participant * i,
            refund_count == i,
            moves@ == refund_moves(
                ctx.wheel.key,
                remaining_accounts@.take(i as int),
                refund_per_participant,
            ),
            refund_wheel_error(
                ctx.registry,
                ctx.authority.key,
                ctx.wheel.wheel@,
                ctx.wheel.lamports,
                remaining_accounts@,
                gas_cost_per_refund,
            ) == recipients_error(
                ctx.wheel.wheel.participants@,
                remaining_accounts@,
                i as int,
            ),
        decreases participant_count - i,
    {
        let account = remaining_accounts[i];
        if account.key != ctx.wheel.wheel.participants[i].pubkey {
            return Err(ErrorCode::InvalidRecipient);
        }
        if !account.is_writable {
            return Err(ErrorCode::AccountNotWritable);
        }
        assert(refund_per_participant * i + refund_per_participant == refund_per_participant * (i
            + 1) && refund_per_participant * (i + 1) <= refund_per_participant * participant_count)
            by (nonlinear_arith)
            requires
                0 <= i < participant_count,
                refund_per_participant >= 0,
        ;
        moves.push(
            LamportMove {
                from: ctx.wheel.key,
                to: account.key,
                lamports: refund_per_participant,
            },
        );
        total_refunded = total_refunded + refund_per_participant;
        refund_count = refund_count + 1;
        i = i + 1;
        assert(moves@ =~= refund_moves(
            ctx.wheel.key,
            remaining_accounts@.take(i as int),
            refund_per_participant,
        ));
    }
    assert(remaining_accounts@.take(i as int) =~= remaining_accounts@);
    assert(gas_cost_per_refund * participant_count <= refund_per_participant * participant_count)
        by (nonlinear_arith)
        requires
            gas_cost_per_refund <= refund_per_participant,
            participant_count >= 0,
    ;
    let total_gas_deducted: u64 = gas_cost_per_refund * participant_count as u64;
    let previous_status = ctx.wheel.wheel.status;
    ctx.wheel.wheel.status = WheelStatus::Refunded;
    Ok(
        RefundReceipt {
            moves,
            event: WheelRefunded {
                wheel_id: ctx.wheel.wheel.id,
                participant_count: refund_count,
                refund_per_participant,
                total_refunded,
                gas_cost_per_refund,
                total_gas_deducted,
                previous_status,
                timestamp: now,
            },
        },
    )
}

} // verus!
