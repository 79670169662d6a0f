//! How a pool is shared between the house and the winner.
use vstd::prelude::*;

verus! {

/// The two parts of a shared pool.
#[derive(Clone, Copy, Debug, PartialEq, Eq)]
pub struct PoolShares {
    pub commission: u64,
    pub payout: u64,
}

/// Why a pool cannot be shared.
#[derive(Clone, Copy, Debug, PartialEq, Eq)]
pub enum ShareError {
    Overflow,
    Underflow,
}

/// The given percentage of the pool, rounded down.
pub open spec fn commission_of(pool: u64, rate: u8) -> int {
    (pool * rate) / 100
}

/// The commission goes to the house and the rest to the winner. The product of
/// pool and rate has to be countable, and the commission no more than the pool.
pub open spec fn pool_shares(pool: u64, rate: u8) -> Result<PoolShares, ShareError> {
    if pool * rate > u64::MAX {
        Err(ShareError::Overflow)
    } else if commission_of(pool, rate) > pool {
        Err(ShareError::Underflow)
    } else {
        Ok(
            PoolShares {
                commission: commission_of(pool, rate) as u64,
                payout: (pool - commission_of(pool, rate)) as u64,
            },
        )
    }
}

/// Shares a pool by a commission rate in percent.
pub fn share_pool(pool: u64, rate: u8) -> (shares: Result<PoolShares, ShareError>)
    ensures
        shares == pool_shares(pool, rate),
{
    match pool.checked_mul(rate as u64) {
        None => Err(ShareError::Overflow),
        Some(product) => {
            let commission: u64 = product / 100;
            match pool.checked_sub(commission) {
                None => Err(ShareError::Underflow),
                Some(payout) => Ok(PoolShares { commission, payout }),
            }
        },
    }
}

/// A pool can be shared when its product with the rate can be counted and the
/// commission is not above the pool. The shares then add up to the pool, and the
/// commission is the rate rounded down to a whole lamport.
pub proof fn pools_are_shared_by_the_rate(pool: u64, rate: u8)
    ensures
        pool_shares(pool, rate) is Ok <==> pool * rate <= u64::MAX && pool * rate < (pool + 1)
            * 100,
        pool_shares(pool, rate) == Err::<PoolShares, ShareError>(ShareError::Overflow) <==> pool
            * rate > u64::MAX,
        pool_shares(pool, rate) matches Ok(shares) ==> {
            &&& shares.commission + shares.payout == pool
            &&& shares.commission * 100 <= pool * rate
            &&& pool * rate < (shares.commission + 1) * 100
        },
{
}

/// At a rate of at most a hundred percent no lamport of the pool is lost or
/// made: commission and payout add up to it, and the commission is the rate
/// rounded down to a whole lamport.
pub proof fn shares_add_up(pool: u64, rate: u8)
    requires
        rate <= 100,
        pool * rate <= u64::MAX,
    ensures
        pool_shares(pool, rate) is Ok,
        pool_shares(pool, rate)->Ok_0.commission + pool_shares(pool, rate)->Ok_0.payout == pool,
        pool_shares(pool, rate)->Ok_0.commission * 100 <= pool * rate,
        pool * rate < (pool_shares(pool, rate)->Ok_0.commission + 1) * 100,
{
    assert(pool * rate <= pool * 100) by (nonlinear_arith)
        requires
            rate <= 100,
    ;
}

} // verus!
