use vstd::prelude::*;
use crate::error::{DepositError, LiquidityError};
use crate::math::{mul_div, pro_rata};
use crate::state::{Pool, User};

verus! {

/// What a committed withdrawal asks the caller to move from the pool to the
/// participant.
#[derive(Clone, Copy, Debug, PartialEq, Eq, Structural)]
pub struct Redemption {
    /// Shares redeemed: all of the position's.
    pub shares: u64,
    /// Asset A paid out: the reserve's part and the fee part together.
    pub amount_a: u64,
    /// Asset B paid out.
    pub amount_b: u64,
    /// The fee part of `amount_a`.
    pub fee_share: u64,
}

/// The part of `amount` that `shares` out of `pool.total_shares` own,
/// rounded down.
pub open spec fn owned(amount: u64, shares: u64, pool: Pool) -> int {
    mul_div(amount as int, shares as int, pool.total_shares as int)
}

/// The failure, if any, of redeeming `position` in full from `pool`.
pub open spec fn withdraw_failure(pool: Pool, position: User) -> Option<LiquidityError> {
    if pool.total_shares == 0 {
        Some(LiquidityError::Deposit(DepositError::DivisionError))
    } else if position.shares > pool.total_shares {
        Some(LiquidityError::Deposit(DepositError::Underflow))
    } else if owned(pool.total_a, position.shares, pool) + owned(
        pool.fees_collected_a,
        position.shares,
        pool,
    ) > u64::MAX {
        Some(LiquidityError::Deposit(DepositError::OverFlow))
    } else {
        None
    }
}

/// Redeems the position in `position` in full: its owner receives its
/// proportional part of both reserves and of the accrued fees, the pool
/// gives up those parts and the shares, and the position is closed. On
/// failure neither record changes.
pub fn process_withdraw(pool: &mut Pool, position: &mut Option<User>) -> (r: Result<
    Redemption,
    LiquidityError,
>)
    requires
        (*old(position)) is Some,
    ensures
        ({
            let before = *old(pool);
            let after = *final(pool);
            let p = (*old(position))->Some_0;
            match withdraw_failure(before, p) {
                Some(e) => r == Err::<Redemption, LiquidityError>(e) && after == before
                    && *final(position) == *old(position),
                None => r is Ok && {
                    let o = r->Ok_0;
                    let redeem_a = owned(before.total_a, p.shares, before);
                    let redeem_b = owned(before.total_b, p.shares, before);
                    let redeem_fee = owned(before.fees_collected_a, p.shares, before);
                    &&& o.shares == p.shares
                    &&& o.amount_a == redeem_a + redeem_fee
                    &&& o.amount_b == redeem_b
                    &&& o.fee_share == redeem_fee
                    &&& after.total_a == before.total_a - redeem_a
                    &&& after.total_b == before.total_b - redeem_b
                    &&& after.fees_collected_a == before.fees_collected_a - redeem_fee
                    &&& after.fee_rate_bps == before.fee_rate_bps
                    &&& after.initialized == before.initialized
                },
            }
        }),
        // A committed withdrawal closes the position and retires exactly its
        // shares.
        r is Ok ==> (*final(position)) is None && final(pool).total_shares == old(
            pool,
        ).total_shares - (*old(position))->Some_0.shares,
        // Redeeming every outstanding share pays out the whole pool and
        // leaves it empty but still initialized.
        ({
            let before = *old(pool);
            let p = (*old(position))->Some_0;
            p.shares == before.total_shares && p.shares > 0 && before.total_a
                + before.fees_collected_a <= u64::MAX ==> r is Ok && r->Ok_0.amount_a
                == before.total_a + before.fees_collected_a && r->Ok_0.amount_b == before.total_b
                && final(pool).total_a == 0 && final(pool).total_b == 0
                && final(pool).fees_collected_a == 0 && final(pool).total_shares == 0
                && final(pool).initialized == before.initialized
        }),
        old(pool).is_backed() ==> final(pool).is_backed(),
{
    let p: User = (*position).unwrap();
    if pool.total_shares == 0 {
        return Err(LiquidityError::Deposit(DepositError::DivisionError));
    }
    if p.shares > pool.total_shares {
        return Err(LiquidityError::Deposit(DepositError::Underflow));
    }
    let redeem_a = pro_rata(pool.total_a, p.shares, pool.total_shares);
    let redeem_b = pro_rata(pool.total_b, p.shares, pool.total_shares);
    let redeem_fee = pro_rata(pool.fees_collected_a, p.shares, pool.total_shares);
    if redeem_a > u64::MAX - redeem_fee {
        return Err(LiquidityError::Deposit(DepositError::OverFlow));
    }
    proof {
        if p.shares < pool.total_shares {
            lemma_partial_redemption_leaves_reserve(pool.total_a, p.shares, pool.total_shares);
            lemma_partial_redemption_leaves_reserve(pool.total_b, p.shares, pool.total_shares);
        }
    }
    pool.total_shares = pool.total_shares - p.shares;
    pool.total_a = pool.total_a - redeem_a;
    pool.total_b = pool.total_b - redeem_b;
    pool.fees_collected_a = pool.fees_collected_a - redeem_fee;
    *position = None;
    Ok(Redemption { shares: p.shares, amount_a: redeem_a + redeem_fee, amount_b: redeem_b, fee_share: redeem_fee })
}

/// Fewer than all shares redeem less than a nonzero reserve.
proof fn lemma_partial_redemption_leaves_reserve(x: u64, s: u64, t: u64)
    requires
        s < t,
    ensures
        x > 0 ==> mul_div(x as int, s as int, t as int) < x,
{
    if x > 0 {
        assert((x as int) * (s as int) < (x as int) * (t as int)) by (nonlinear_arith)
            requires
                x > 0,
                s < t,
        ;
        vstd::arithmetic::div_mod::lemma_div_is_ordered(
            (x as int) * (s as int),
            (x as int) * (t as int) - 1,
            t as int,
        );
        assert(((x as int) * (t as int) - 1) / (t as int) < x) by (nonlinear_arith)
            requires
                x > 0,
                t > 0,
        {
            vstd::arithmetic::div_mod::lemma_fundamental_div_mod((x as int) * (t as int) - 1, t as int);
            vstd::arithmetic::div_mod::lemma_mod_pos_bound((x as int) * (t as int) - 1, t as int);
        }
    }
}

} // verus!
