use vstd::prelude::*;
use crate::error::{DepositError, LiquidityError, PoolError};
use crate::math::{is_floor_sqrt, lemma_mul_fits_u128, mul_div, sqrt_of_product};
use crate::state::{AccountKey, Pool, User, DEFAULT_FEE_RATE_BPS};

verus! {

/// Fixed-point scale of the asset ratios compared on a top-up deposit.
pub const RATIO_SCALE: u64 = 100_000;

/// The A:B ratio of `x` to `y`, scaled by `RATIO_SCALE` and rounded down.
pub open spec fn ratio(x: int, y: int) -> int {
    x * RATIO_SCALE / y
}

pub open spec fn abs_diff(x: int, y: int) -> int {
    if x >= y { x - y } else { y - x }
}

/// A top-up of `(a, b)` is balanced against reserves `(ta, tb)` when its
/// ratio strays from the pool's by at most 1% of the pool's.
pub open spec fn is_balanced(a: int, b: int, ta: int, tb: int) -> bool {
    abs_diff(ratio(a, b), ratio(ta, tb)) <= ratio(ta, tb) / 100
}

/// Shares that a top-up of `(a, b)` earns: the smaller of the two
/// proportional claims.
pub open spec fn top_up_shares(a: int, b: int, pool: Pool) -> int {
    let by_a = mul_div(a, pool.total_shares as int, pool.total_a as int);
    let by_b = mul_div(b, pool.total_shares as int, pool.total_b as int);
    if by_a <= by_b { by_a } else { by_b }
}

/// The position that a deposit of `owner` books into: the stored one, or an
/// empty one when none exists yet.
pub open spec fn prior_position(position: Option<User>, owner: AccountKey) -> User {
    match position {
        Some(p) => p,
        None => User { owner, deposited_a: 0, deposited_b: 0, shares: 0 },
    }
}

/// Whether any running total of a top-up of `(a, b)` earning `s` shares
/// leaves the range of `u64`.
pub open spec fn top_up_overflows(pool: Pool, prior: User, a: int, b: int, s: int) -> bool {
    pool.total_a + a > u64::MAX || pool.total_b + b > u64::MAX || pool.total_shares + s
        > u64::MAX || prior.deposited_a + a > u64::MAX || prior.deposited_b + b > u64::MAX
        || prior.shares + s > u64::MAX
}

/// The failure, if any, of a deposit of `(a, b)` into `pool`, in the order
/// the checks are made.
pub open spec fn deposit_failure(pool: Pool, prior: User, a: u64, b: u64) -> Option<
    LiquidityError,
> {
    if a == 0 && b == 0 {
        Some(LiquidityError::Deposit(DepositError::ZeroAmountError))
    } else if !pool.initialized {
        None
    } else if b == 0 || pool.total_b == 0 {
        Some(LiquidityError::Deposit(DepositError::DivisionError))
    } else if !is_balanced(a as int, b as int, pool.total_a as int, pool.total_b as int) {
        Some(LiquidityError::Pool(PoolError::ImbalancedDeposit))
    } else if pool.total_a == 0 {
        Some(LiquidityError::Deposit(DepositError::DivisionError))
    } else if top_up_shares(a as int, b as int, pool) == 0 {
        Some(LiquidityError::Pool(PoolError::ZeroShares))
    } else if top_up_shares(a as int, b as int, pool) > u64::MAX {
        Some(LiquidityError::Pool(PoolError::MathOverFlow))
    } else if top_up_overflows(pool, prior, a as int, b as int, top_up_shares(a as int, b as int, pool)) {
        Some(LiquidityError::Deposit(DepositError::OverFlow))
    } else {
        None
    }
}

/// The scaled ratio `x * RATIO_SCALE / y` at 128-bit precision.
fn scaled_ratio(x: u64, y: u64) -> (r: u128)
    requires
        y > 0,
    ensures
        r == ratio(x as int, y as int),
{
    proof {
        lemma_mul_fits_u128(x, RATIO_SCALE);
    }
    (x as u128) * (RATIO_SCALE as u128) / (y as u128)
}

/// Whether a top-up of `(amount_a, amount_b)` keeps within 1% of the ratio of
/// the reserves `(total_a, total_b)`.
pub fn check_balance(amount_a: u64, amount_b: u64, total_a: u64, total_b: u64) -> (r: bool)
    requires
        amount_b > 0,
        total_b > 0,
    ensures
        r == is_balanced(amount_a as int, amount_b as int, total_a as int, total_b as int),
{
    let deposit_ratio = scaled_ratio(amount_a, amount_b);
    let pool_ratio = scaled_ratio(total_a, total_b);
    let diff: u128 = if deposit_ratio > pool_ratio {
        deposit_ratio - pool_ratio
    } else {
        pool_ratio - deposit_ratio
    };
    diff <= pool_ratio / 100
}

/// `amount * total_shares / reserve` at 128-bit precision.
fn claim(amount: u64, total_shares: u64, reserve: u64) -> (r: u128)
    requires
        reserve > 0,
    ensures
        r == mul_div(amount as int, total_shares as int, reserve as int),
{
    proof {
        lemma_mul_fits_u128(amount, total_shares);
    }
    (amount as u128) * (total_shares as u128) / (reserve as u128)
}

/// Books a deposit of `amount_a` of asset A and `amount_b` of asset B by
/// `owner` into `pool` and `owner`'s position, and returns the shares issued.
///
/// The first deposit into a pool sets its reserves to the deposit and issues
/// `floor(sqrt(amount_a * amount_b))` shares. Later deposits must match the
/// pool's ratio within 1% and earn the smaller of their two proportional
/// claims on the outstanding shares. On success the caller moves both
/// amounts from the participant to the pool; on failure neither record
/// changes.
pub fn process_deposit(
    pool: &mut Pool,
    position: &mut Option<User>,
    owner: AccountKey,
    amount_a: u64,
    amount_b: u64,
) -> (r: Result<u64, LiquidityError>)
    ensures
        ({
            let before = *old(pool);
            let after = *final(pool);
            let prior = prior_position(*old(position), owner);
            match deposit_failure(before, prior, amount_a, amount_b) {
                Some(e) => r == Err::<u64, LiquidityError>(e) && after == before && *final(position)
                    == *old(position),
                None => r is Ok && (*final(position)) is Some && {
                    let shares = r->Ok_0 as int;
                    let p = (*final(position))->Some_0;
                    p.owner@ == owner@ && if !before.initialized {
                        &&& is_floor_sqrt(shares, amount_a * amount_b)
                        &&& after == (Pool {
                            total_a: amount_a,
                            total_b: amount_b,
                            fees_collected_a: 0,
                            fee_rate_bps: DEFAULT_FEE_RATE_BPS,
                            total_shares: shares as u64,
                            initialized: true,
                        })
                        &&& p.deposited_a == amount_a
                        &&& p.deposited_b == amount_b
                        &&& p.shares == shares
                    } else {
                        &&& shares == top_up_shares(amount_a as int, amount_b as int, before)
                        &&& shares > 0
                        &&& after.total_a == before.total_a + amount_a
                        &&& after.total_b == before.total_b + amount_b
                        &&& after.total_shares == before.total_shares + shares
                        &&& after.fees_collected_a == before.fees_collected_a
                        &&& after.fee_rate_bps == before.fee_rate_bps
                        &&& after.initialized
                        &&& p.deposited_a == prior.deposited_a + amount_a
                        &&& p.deposited_b == prior.deposited_b + amount_b
                        &&& p.shares == prior.shares + shares
                    }
                },
            }
        }),
        // A first deposit of two positive amounts issues floor(sqrt(a * b))
        // shares and sets the reserves to the deposit.
        !old(pool).initialized && amount_a > 0 && amount_b > 0 ==> r is Ok && is_floor_sqrt(
            r->Ok_0 as int,
            amount_a * amount_b,
        ) && final(pool).total_a == amount_a && final(pool).total_b == amount_b,
        // A top-up off the pool's ratio by more than 1% fails and changes nothing.
        old(pool).initialized && amount_b > 0 && old(pool).total_b > 0 && !is_balanced(
            amount_a as int,
            amount_b as int,
            old(pool).total_a as int,
            old(pool).total_b as int,
        ) ==> r == Err::<u64, LiquidityError>(LiquidityError::Pool(PoolError::ImbalancedDeposit))
            && *final(pool) == *old(pool) && *final(position) == *old(position),
        // The backing rule carries over, except through a first deposit with
        // one zero amount, which issues no shares.
        old(pool).is_backed() && (old(pool).initialized || (amount_a > 0 && amount_b > 0))
            ==> final(pool).is_backed(),
        // A position's bound by the pool's shares carries over.
        old(pool).initialized && prior_position(*old(position), owner).shares
            <= old(pool).total_shares && (*final(position)) is Some ==> (*final(position))->Some_0.shares
            <= final(pool).total_shares,
{
    if amount_a == 0 && amount_b == 0 {
        return Err(LiquidityError::Deposit(DepositError::ZeroAmountError));
    }
    let prior: User = match position {
        Some(p) => *p,
        None => User::empty(owner),
    };
    if !pool.initialized {
        // The product of two u64 amounts always fits in 128 bits, so a first
        // deposit cannot overflow.
        let shares = sqrt_of_product(amount_a, amount_b);
        proof {
            if amount_a > 0 && amount_b > 0 {
                assert(amount_a * amount_b > 0) by (nonlinear_arith)
                    requires
                        amount_a > 0,
                        amount_b > 0,
                ;
                assert(shares > 0) by (nonlinear_arith)
                    requires
                        amount_a * amount_b < (shares + 1) * (shares + 1),
                        amount_a * amount_b > 0,
                        shares >= 0,
                ;
            }
        }
        *pool = Pool {
            total_a: amount_a,
            total_b: amount_b,
            fees_collected_a: 0,
            fee_rate_bps: DEFAULT_FEE_RATE_BPS,
            total_shares: shares,
            initialized: true,
        };
        *position = Some(
            User { owner, deposited_a: amount_a, deposited_b: amount_b, shares },
        );
        return Ok(shares);
    }
    if amount_b == 0 || pool.total_b == 0 {
        return Err(LiquidityError::Deposit(DepositError::DivisionError));
    }
    if !check_balance(amount_a, amount_b, pool.total_a, pool.total_b) {
        return Err(LiquidityError::Pool(PoolError::ImbalancedDeposit));
    }
    if pool.total_a == 0 {
        return Err(LiquidityError::Deposit(DepositError::DivisionError));
    }
    let by_a = claim(amount_a, pool.total_shares, pool.total_a);
    let by_b = claim(amount_b, pool.total_shares, pool.total_b);
    let issued: u128 = if by_a <= by_b {
        by_a
    } else {
        by_b
    };
    if issued == 0 {
        return Err(LiquidityError::Pool(PoolError::ZeroShares));
    }
    if issued > u64::MAX as u128 {
        return Err(LiquidityError::Pool(PoolError::MathOverFlow));
    }
    let shares = issued as u64;
    if amount_a > u64::MAX - pool.total_a || amount_b > u64::MAX - pool.total_b || shares
        > u64::MAX - pool.total_shares || amount_a > u64::MAX - prior.deposited_a || amount_b
        > u64::MAX - prior.deposited_b || shares > u64::MAX - prior.shares {
        return Err(LiquidityError::Deposit(DepositError::OverFlow));
    }
    pool.total_a = pool.total_a + amount_a;
    pool.total_b = pool.total_b + amount_b;
    pool.total_shares = pool.total_shares + shares;
    *position = Some(
        User {
            owner,
            deposited_a: prior.deposited_a + amount_a,
            deposited_b: prior.deposited_b + amount_b,
            shares: prior.shares + shares,
        },
    );
    Ok(shares)
}

} // verus!
