use vstd::prelude::*;
use crate::error::{DepositError, LiquidityError, PoolError};
use crate::math::{lemma_floor_product, lemma_kept_reserve_le, lemma_mul_fits_u128, mul_div};
use crate::state::{AccountKey, Pool, BPS_DENOMINATOR};

verus! {

/// Which asset a swap takes in; the other one goes out.
#[derive(Clone, Copy, Debug, PartialEq, Eq, Structural)]
pub enum SwapDirection {
    /// Asset A in, asset B out.
    AToB,
    /// Asset B in, asset A out.
    BToA,
}

/// What a committed swap asks the caller to move.
#[derive(Clone, Copy, Debug, PartialEq, Eq, Structural)]
pub struct SwapOutcome {
    pub direction: SwapDirection,
    /// Paid by the participant to the pool, in the input asset.
    pub amount_in: u64,
    /// Paid by the pool to the participant, in the output asset.
    pub amount_out: u64,
    /// Fee accrued to the pool, in asset A.
    pub fee: u64,
}

/// The direction named by the mints of the participant's input and output
/// token accounts, given the pool's mints of A and B.
pub open spec fn direction_of(
    input: Seq<u8>,
    output: Seq<u8>,
    mint_a: Seq<u8>,
    mint_b: Seq<u8>,
) -> Result<SwapDirection, DepositError> {
    if output == input {
        Err(DepositError::InvalidAccountInputs)
    } else if !(output == mint_a || output == mint_b) || !(input == mint_a || input == mint_b) {
        Err(DepositError::InvalidAccounts)
    } else if input == mint_a {
        Ok(SwapDirection::AToB)
    } else {
        Ok(SwapDirection::BToA)
    }
}

/// A fee of `rate` basis points on `amount`, rounded down.
pub open spec fn fee_on(amount: int, rate: int) -> int {
    mul_div(amount, rate, BPS_DENOMINATOR as int)
}

/// What the pool keeps of the output asset once its input reserve has grown
/// to `new_in`: the pre-swap product over `new_in`, rounded down.
pub open spec fn kept_reserve(pool: Pool, new_in: int) -> int {
    pool.product() / new_in
}

/// The failure, if any, of a swap of `s` of asset A for asset B.
pub open spec fn a_for_b_failure(pool: Pool, s: int) -> Option<LiquidityError> {
    let fee = fee_on(s, pool.fee_rate_bps as int);
    if pool.total_a + s > u64::MAX || fee > u64::MAX || s + fee > u64::MAX
        || pool.fees_collected_a + fee > u64::MAX {
        Some(LiquidityError::Deposit(DepositError::OverFlow))
    } else {
        None
    }
}

/// The A that a swap of `s` of asset B takes out of the pool before its fee.
pub open spec fn gross_a_out(pool: Pool, s: int) -> int {
    pool.total_a - kept_reserve(pool, pool.total_b + s)
}

/// The failure, if any, of a swap of `s` of asset B for asset A.
pub open spec fn b_for_a_failure(pool: Pool, s: int) -> Option<LiquidityError> {
    let gross = gross_a_out(pool, s);
    let fee = fee_on(gross, pool.fee_rate_bps as int);
    if pool.total_b + s > u64::MAX {
        Some(LiquidityError::Deposit(DepositError::OverFlow))
    } else if fee > gross {
        Some(LiquidityError::Deposit(DepositError::Underflow))
    } else if pool.fees_collected_a + fee > u64::MAX {
        Some(LiquidityError::Deposit(DepositError::OverFlow))
    } else {
        None
    }
}

/// Which of the pool's assets a swap takes in.
pub fn resolve_direction(
    input_mint: &AccountKey,
    output_mint: &AccountKey,
    mint_a: &AccountKey,
    mint_b: &AccountKey,
) -> (r: Result<SwapDirection, DepositError>)
    ensures
        r == direction_of(input_mint@, output_mint@, mint_a@, mint_b@),
{
    if output_mint.same_as(input_mint) {
        return Err(DepositError::InvalidAccountInputs);
    }
    let input_is_a = input_mint.same_as(mint_a);
    let input_is_b = input_mint.same_as(mint_b);
    if !(output_mint.same_as(mint_a) || output_mint.same_as(mint_b)) || !(input_is_a
        || input_is_b) {
        return Err(DepositError::InvalidAccounts);
    }
    if input_is_a {
        Ok(SwapDirection::AToB)
    } else {
        Ok(SwapDirection::BToA)
    }
}

/// `amount * rate / BPS_DENOMINATOR` at 128-bit precision.
fn fee_u128(amount: u64, rate: u64) -> (r: u128)
    ensures
        r == fee_on(amount as int, rate as int),
{
    proof {
        lemma_mul_fits_u128(amount, rate);
    }
    (amount as u128) * (rate as u128) / (BPS_DENOMINATOR as u128)
}

/// Swaps `swap_amount` of asset A for asset B. The participant pays the
/// amount plus a fee on it; the pool pays out what keeps the product of its
/// reserves at its pre-swap value, rounded in the pool's favour.
fn swap_a_for_b(pool: &mut Pool, swap_amount: u64) -> (r: Result<SwapOutcome, LiquidityError>)
    requires
        swap_amount > 0,
    ensures
        ({
            let before = *old(pool);
            let after = *final(pool);
            match a_for_b_failure(before, swap_amount as int) {
                Some(e) => r == Err::<SwapOutcome, LiquidityError>(e) && after == before,
                None => r is Ok && {
                    let o = r->Ok_0;
                    let fee = fee_on(swap_amount as int, before.fee_rate_bps as int);
                    let kept = kept_reserve(before, before.total_a + swap_amount);
                    &&& o.direction == SwapDirection::AToB
                    &&& o.fee == fee
                    &&& o.amount_in == swap_amount + fee
                    &&& o.amount_out == before.total_b - kept
                    &&& after == (Pool {
                        total_a: (before.total_a + swap_amount) as u64,
                        total_b: kept as u64,
                        fees_collected_a: (before.fees_collected_a + fee) as u64,
                        ..before
                    })
                    &&& after.total_a == before.total_a + swap_amount
                    &&& after.total_b == kept
                    &&& after.fees_collected_a == before.fees_collected_a + fee
                },
            }
        }),
        r is Ok ==> old(pool).product() - final(pool).total_a < final(pool).product()
            <= old(pool).product(),
{
    if swap_amount > u64::MAX - pool.total_a {
        return Err(LiquidityError::Deposit(DepositError::OverFlow));
    }
    let new_total_a = pool.total_a + swap_amount;
    proof {
        lemma_mul_fits_u128(pool.total_a, pool.total_b);
        lemma_kept_reserve_le(pool.total_a as int, pool.total_b as int, swap_amount as int);
    }
    // The grown reserve is positive, so the division is defined, and the
    // quotient is at most the old B reserve, so the payout cannot underflow.
    let k: u128 = (pool.total_a as u128) * (pool.total_b as u128);
    let new_total_b = (k / (new_total_a as u128)) as u64;
    let amount_out = pool.total_b - new_total_b;
    let fee_wide = fee_u128(swap_amount, pool.fee_rate_bps);
    if fee_wide > u64::MAX as u128 {
        return Err(LiquidityError::Deposit(DepositError::OverFlow));
    }
    let fee = fee_wide as u64;
    if fee > u64::MAX - swap_amount || fee > u64::MAX - pool.fees_collected_a {
        return Err(LiquidityError::Deposit(DepositError::OverFlow));
    }
    proof {
        lemma_floor_product(k as int, new_total_a as int);
    }
    pool.total_a = new_total_a;
    pool.total_b = new_total_b;
    pool.fees_collected_a = pool.fees_collected_a + fee;
    Ok(SwapOutcome { direction: SwapDirection::AToB, amount_in: swap_amount + fee, amount_out, fee })
}

/// Swaps `swap_amount` of asset B for asset A. The pool gives up the A that
/// keeps the product of its reserves at its pre-swap value, rounded in the
/// pool's favour; a fee on that amount stays with the pool and the rest is
/// paid to the participant.
fn swap_b_for_a(pool: &mut Pool, swap_amount: u64) -> (r: Result<SwapOutcome, LiquidityError>)
    requires
        swap_amount > 0,
    ensures
        ({
            let before = *old(pool);
            let after = *final(pool);
            match b_for_a_failure(before, swap_amount as int) {
                Some(e) => r == Err::<SwapOutcome, LiquidityError>(e) && after == before,
                None => r is Ok && {
                    let o = r->Ok_0;
                    let gross = gross_a_out(before, swap_amount as int);
                    let fee = fee_on(gross, before.fee_rate_bps as int);
                    &&& o.direction == SwapDirection::BToA
                    &&& o.fee == fee
                    &&& o.amount_in == swap_amount
                    &&& o.amount_out == gross - fee
                    &&& after.total_b == before.total_b + swap_amount
                    &&& after.total_a == before.total_a - gross
                    &&& after.total_a == kept_reserve(before, before.total_b + swap_amount)
                    &&& after.fees_collected_a == before.fees_collected_a + fee
                    &&& after.fee_rate_bps == before.fee_rate_bps
                    &&& after.total_shares == before.total_shares
                    &&& after.initialized == before.initialized
                },
            }
        }),
        r is Ok ==> old(pool).product() - final(pool).total_b < final(pool).product()
            <= old(pool).product(),
{
    if swap_amount > u64::MAX - pool.total_b {
        return Err(LiquidityError::Deposit(DepositError::OverFlow));
    }
    let new_total_b = pool.total_b + swap_amount;
    proof {
        lemma_mul_fits_u128(pool.total_a, pool.total_b);
        assert(pool.total_a * pool.total_b == pool.total_b * pool.total_a) by (nonlinear_arith);
        lemma_kept_reserve_le(pool.total_b as int, pool.total_a as int, swap_amount as int);
    }
    let k: u128 = (pool.total_a as u128) * (pool.total_b as u128);
    let kept_a = (k / (new_total_b as u128)) as u64;
    let required_a = pool.total_a - kept_a;
    let fee_wide = fee_u128(required_a, pool.fee_rate_bps);
    if fee_wide > required_a as u128 {
        return Err(LiquidityError::Deposit(DepositError::Underflow));
    }
    let fee = fee_wide as u64;
    let a_to_pay = required_a - fee;
    if a_to_pay + fee > pool.total_a {
        return Err(LiquidityError::Pool(PoolError::InsufficientLiquidity));
    }
    if fee > u64::MAX - pool.fees_collected_a {
        return Err(LiquidityError::Deposit(DepositError::OverFlow));
    }
    proof {
        lemma_floor_product(k as int, new_total_b as int);
    }
    pool.total_b = new_total_b;
    pool.total_a = pool.total_a - (a_to_pay + fee);
    pool.fees_collected_a = pool.fees_collected_a + fee;
    Ok(SwapOutcome { direction: SwapDirection::BToA, amount_in: swap_amount, amount_out: a_to_pay, fee })
}

/// The failure, if any, of a swap of `s` in the given direction.
pub open spec fn swap_failure(pool: Pool, s: int, direction: SwapDirection) -> Option<
    LiquidityError,
> {
    match direction {
        SwapDirection::AToB => a_for_b_failure(pool, s),
        SwapDirection::BToA => b_for_a_failure(pool, s),
    }
}

/// Swaps `swap_amount` of the asset of the participant's input token account
/// for the pool's other asset, and returns what the caller must move: the
/// input from the participant to the pool and the output from the pool to
/// the participant. On failure the pool does not change.
pub fn process_swap(
    pool: &mut Pool,
    swap_amount: u64,
    input_mint: &AccountKey,
    output_mint: &AccountKey,
    mint_a: &AccountKey,
    mint_b: &AccountKey,
) -> (r: Result<SwapOutcome, LiquidityError>)
    ensures
        ({
            let before = *old(pool);
            let after = *final(pool);
            let dir = direction_of(input_mint@, output_mint@, mint_a@, mint_b@);
            if swap_amount == 0 {
                r == Err::<SwapOutcome, LiquidityError>(
                    LiquidityError::Deposit(DepositError::ZeroAmountError),
                ) && after == before
            } else {
                match dir {
                    Err(e) => r == Err::<SwapOutcome, LiquidityError>(LiquidityError::Deposit(e))
                        && after == before,
                    Ok(d) => match swap_failure(before, swap_amount as int, d) {
                        Some(e) => r == Err::<SwapOutcome, LiquidityError>(e) && after == before,
                        None => r is Ok && r->Ok_0.direction == d,
                    },
                }
            }
        }),
        // The swap in direction A to B, in full.
        r is Ok && r->Ok_0.direction == SwapDirection::AToB ==> {
            let o = r->Ok_0;
            let before = *old(pool);
            let fee = fee_on(swap_amount as int, before.fee_rate_bps as int);
            let kept = kept_reserve(before, before.total_a + swap_amount);
            &&& o.fee == fee
            &&& o.amount_in == swap_amount + fee
            &&& o.amount_out == before.total_b - kept
            &&& *final(pool) == (Pool {
                total_a: (before.total_a + swap_amount) as u64,
                total_b: kept as u64,
                fees_collected_a: (before.fees_collected_a + fee) as u64,
                ..before
            })
            &&& final(pool).total_a == before.total_a + swap_amount
            &&& final(pool).total_b == kept
            &&& final(pool).fees_collected_a == before.fees_collected_a + fee
        },
        // The swap in direction B to A, in full.
        r is Ok && r->Ok_0.direction == SwapDirection::BToA ==> {
            let o = r->Ok_0;
            let before = *old(pool);
            let after = *final(pool);
            let gross = gross_a_out(before, swap_amount as int);
            let fee = fee_on(gross, before.fee_rate_bps as int);
            &&& o.fee == fee
            &&& o.amount_in == swap_amount
            &&& o.amount_out == gross - fee
            &&& after.total_b == before.total_b + swap_amount
            &&& after.total_a == before.total_a - gross
            &&& after.fees_collected_a == before.fees_collected_a + fee
            &&& after.fee_rate_bps == before.fee_rate_bps
            &&& after.total_shares == before.total_shares
            &&& after.initialized == before.initialized
        },
        // The product of the reserves never grows, and loses less than the
        // grown input reserve to rounding.
        r is Ok ==> {
            let grown = match r->Ok_0.direction {
                SwapDirection::AToB => final(pool).total_a as int,
                SwapDirection::BToA => final(pool).total_b as int,
            };
            old(pool).product() - grown < final(pool).product() <= old(pool).product()
        },
{
    if swap_amount == 0 {
        return Err(LiquidityError::Deposit(DepositError::ZeroAmountError));
    }
    match resolve_direction(input_mint, output_mint, mint_a, mint_b) {
        Err(e) => Err(LiquidityError::Deposit(e)),
        Ok(SwapDirection::AToB) => swap_a_for_b(pool, swap_amount),
        Ok(SwapDirection::BToA) => swap_b_for_a(pool, swap_amount),
    }
}

} // verus!
