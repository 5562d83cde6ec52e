use vstd::prelude::*;

use crate::types::{LendingPool, Error, BPS_DENOMINATOR};

verus! {

/// Interest owed on `amount` at `rate_bps` basis points, rounded down.
pub open spec fn spec_interest(amount: u64, rate_bps: u32) -> int {
    amount * rate_bps / (BPS_DENOMINATOR as int)
}

/// Principal plus interest owed on a loan of `amount` at `rate_bps`.
pub open spec fn spec_owed(amount: u64, rate_bps: u32) -> int {
    amount + spec_interest(amount, rate_bps)
}

/// The fields of a pool that reserve, release and fund may not touch.
pub open spec fn same_pool_terms(pre: LendingPool, post: LendingPool) -> bool {
    &&& post.asset@ == pre.asset@
    &&& post.min_credit_score == pre.min_credit_score
    &&& post.interest_rate == pre.interest_rate
    &&& post.max_loan_duration == pre.max_loan_duration
}

/// How a pool changes when `amount` is reserved for a loan: only the
/// available funds drop, by exactly `amount`.
pub open spec fn pool_after_reserve(pre: LendingPool, post: LendingPool, amount: u64) -> bool {
    &&& same_pool_terms(pre, post)
    &&& post.total_funds == pre.total_funds
    &&& post.available_funds == pre.available_funds - amount
}

/// How a pool changes when `amount` flows back after being reserved:
/// the available funds rise by `amount`, capped at the total.
pub open spec fn pool_after_release(pre: LendingPool, post: LendingPool, amount: u64) -> bool {
    &&& same_pool_terms(pre, post)
    &&& post.total_funds == pre.total_funds
    &&& post.available_funds == (if pre.available_funds + amount > pre.total_funds {
        pre.total_funds as int
    } else {
        pre.available_funds + amount
    })
}

/// How a pool changes when `amount` of new money enters it (a deposit
/// or credited interest): both the total and the available funds rise.
pub open spec fn pool_after_fund(pre: LendingPool, post: LendingPool, amount: u64) -> bool {
    &&& same_pool_terms(pre, post)
    &&& post.total_funds == pre.total_funds + amount
    &&& post.available_funds == pre.available_funds + amount
}

/// How a pool changes when a loan of `amount` at `rate_bps` is settled
/// in full: the interest enters as new money, then the principal and
/// the interest flow back into the available funds, capped at the new
/// total.
pub open spec fn pool_after_repayment(
    pre: LendingPool,
    post: LendingPool,
    amount: u64,
    rate_bps: u32,
) -> bool {
    let interest = spec_interest(amount, rate_bps);
    &&& same_pool_terms(pre, post)
    &&& post.total_funds == pre.total_funds + interest
    &&& post.available_funds == (if pre.available_funds + interest + amount > pre.total_funds
        + interest {
        pre.total_funds + interest
    } else {
        pre.available_funds + interest + amount
    })
}

/// How a pool changes when a liquidation recovers `recovered` against
/// a loan of `amount`: any recovery beyond the principal enters as new
/// money; what was recovered of the principal flows back, capped at
/// the new total. A recovery short of the principal leaves the total
/// untouched and the shortfall unrecovered.
pub open spec fn pool_after_recovery(
    pre: LendingPool,
    post: LendingPool,
    amount: u64,
    recovered: u64,
) -> bool {
    let surplus: int = if recovered > amount {
        recovered - amount
    } else {
        0
    };
    let returned: int = if recovered > amount {
        amount as int
    } else {
        recovered as int
    };
    &&& same_pool_terms(pre, post)
    &&& post.total_funds == pre.total_funds + surplus
    &&& post.available_funds == (if pre.available_funds + surplus + returned > pre.total_funds
        + surplus {
        pre.total_funds + surplus
    } else {
        pre.available_funds + surplus + returned
    })
}

/// Reserves `amount` from the pool for a new loan; fails with
/// `InsufficientPoolFunds`, leaving the pool unchanged, exactly when
/// the available funds do not cover it.
pub fn reserve(pool: &mut LendingPool, amount: u64) -> (r: Result<(), Error>)
    requires
        old(pool).wf(),
    ensures
        final(pool).wf(),
        match r {
            Ok(()) => amount <= old(pool).available_funds && pool_after_reserve(
                *old(pool),
                *final(pool),
                amount,
            ),
            Err(e) => e == Error::InsufficientPoolFunds && amount > old(pool).available_funds
                && *final(pool) == *old(pool),
        },
{
    if amount > pool.available_funds {
        return Err(Error::InsufficientPoolFunds);
    }
    pool.available_funds = pool.available_funds - amount;
    Ok(())
}

/// Returns previously reserved funds to the pool. The available funds
/// rise by `amount` but are capped so they never exceed the total.
pub fn release(pool: &mut LendingPool, amount: u64)
    requires
        old(pool).wf(),
    ensures
        final(pool).wf(),
        pool_after_release(*old(pool), *final(pool), amount),
{
    if amount > pool.total_funds - pool.available_funds {
        pool.available_funds = pool.total_funds;
    } else {
        pool.available_funds = pool.available_funds + amount;
    }
}

/// Adds new money to the pool — an external deposit or credited
/// interest: both the total and the available funds rise by `amount`.
pub fn fund(pool: &mut LendingPool, amount: u64)
    requires
        old(pool).wf(),
        old(pool).total_funds + amount <= u64::MAX,
    ensures
        final(pool).wf(),
        pool_after_fund(*old(pool), *final(pool), amount),
{
    pool.total_funds = pool.total_funds + amount;
    pool.available_funds = pool.available_funds + amount;
}

} // verus!
