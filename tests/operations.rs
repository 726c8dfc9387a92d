use liquidity_pool::deposit::{check_balance, process_deposit};
use liquidity_pool::error::{DepositError, LiquidityError, PoolError};
use liquidity_pool::math::{pro_rata, sqrt_of_product};
use liquidity_pool::state::{AccountKey, Pool, User, DEFAULT_FEE_RATE_BPS};
use liquidity_pool::swap::{process_swap, resolve_direction, SwapDirection};
use liquidity_pool::withdraw::process_withdraw;

fn key(b: u8) -> AccountKey {
    AccountKey { bytes: [b; 32] }
}

fn alice() -> AccountKey {
    key(1)
}

fn bob() -> AccountKey {
    key(2)
}

fn mint_a() -> AccountKey {
    key(10)
}

fn mint_b() -> AccountKey {
    key(11)
}

fn pool_with(total_a: u64, total_b: u64, total_shares: u64) -> Pool {
    Pool {
        total_a,
        total_b,
        fees_collected_a: 0,
        fee_rate_bps: DEFAULT_FEE_RATE_BPS,
        total_shares,
        initialized: true,
    }
}

fn bootstrapped() -> (Pool, Option<User>) {
    let mut pool = Pool::new();
    let mut position = None;
    let shares = process_deposit(&mut pool, &mut position, alice(), 1_000_000, 2_000_000).unwrap();
    assert_eq!(shares, 1_414_213);
    (pool, position)
}

fn swap(pool: &mut Pool, amount: u64, input: AccountKey, output: AccountKey) -> Result<liquidity_pool::swap::SwapOutcome, LiquidityError> {
    process_swap(pool, amount, &input, &output, &mint_a(), &mint_b())
}

#[test]
fn bootstrap_deposit_sets_pool_and_position() {
    let (pool, position) = bootstrapped();
    assert_eq!(pool.total_a, 1_000_000);
    assert_eq!(pool.total_b, 2_000_000);
    assert_eq!(pool.total_shares, 1_414_213);
    assert_eq!(pool.fees_collected_a, 0);
    assert_eq!(pool.fee_rate_bps, 30);
    assert!(pool.initialized);
    let p = position.unwrap();
    assert_eq!(p.shares, 1_414_213);
    assert_eq!(p.deposited_a, 1_000_000);
    assert_eq!(p.deposited_b, 2_000_000);
    assert!(p.owner.same_as(&alice()));
}

#[test]
fn bootstrap_with_one_zero_amount_issues_no_shares() {
    let mut pool = Pool::new();
    let mut position = None;
    assert_eq!(process_deposit(&mut pool, &mut position, alice(), 500, 0), Ok(0));
    assert_eq!(pool.total_a, 500);
    assert_eq!(pool.total_b, 0);
    assert!(pool.initialized);
}

#[test]
fn proportional_top_up_after_bootstrap_succeeds() {
    let (mut pool, mut position) = bootstrapped();
    let shares = process_deposit(&mut pool, &mut position, alice(), 100_000, 200_000).unwrap();
    assert_eq!(shares, 141_421);
    assert_eq!(pool.total_a, 1_100_000);
    assert_eq!(pool.total_b, 2_200_000);
    assert_eq!(pool.total_shares, 1_414_213 + 141_421);
    let p = position.unwrap();
    assert_eq!(p.shares, 1_414_213 + 141_421);
    assert_eq!(p.deposited_a, 1_100_000);
    assert_eq!(p.deposited_b, 2_200_000);
}

#[test]
fn top_up_by_new_participant_creates_position() {
    let (mut pool, _) = bootstrapped();
    let mut position = None;
    let shares = process_deposit(&mut pool, &mut position, bob(), 10_000, 20_000).unwrap();
    assert_eq!(shares, 14_142);
    let p = position.unwrap();
    assert!(p.owner.same_as(&bob()));
    assert_eq!(p.shares, 14_142);
    assert_eq!(p.deposited_a, 10_000);
    assert_eq!(p.deposited_b, 20_000);
}

#[test]
fn imbalanced_top_up_fails_without_change() {
    let (mut pool, mut position) = bootstrapped();
    let before_pool = pool;
    let r = process_deposit(&mut pool, &mut position, alice(), 100_000, 100_000);
    assert_eq!(r, Err(LiquidityError::Pool(PoolError::ImbalancedDeposit)));
    assert_eq!(pool, before_pool);
    assert_eq!(position.unwrap().shares, 1_414_213);
    assert_eq!(position.unwrap().deposited_a, 1_000_000);
}

#[test]
fn top_up_at_one_percent_off_passes_and_beyond_fails() {
    // Pool ratio 50_000; 1% of it is 500.
    let (mut pool, mut position) = bootstrapped();
    assert!(process_deposit(&mut pool, &mut position, alice(), 101_000, 200_000).is_ok());
    let (mut pool, mut position) = bootstrapped();
    let r = process_deposit(&mut pool, &mut position, alice(), 101_002, 200_000);
    assert_eq!(r, Err(LiquidityError::Pool(PoolError::ImbalancedDeposit)));
}

#[test]
fn zero_deposit_fails() {
    let mut pool = Pool::new();
    let mut position = None;
    let r = process_deposit(&mut pool, &mut position, alice(), 0, 0);
    assert_eq!(r, Err(LiquidityError::Deposit(DepositError::ZeroAmountError)));
    assert_eq!(pool, Pool::new());
    assert!(position.is_none());
}

#[test]
fn top_up_without_asset_b_fails_on_division() {
    let (mut pool, mut position) = bootstrapped();
    let r = process_deposit(&mut pool, &mut position, alice(), 100_000, 0);
    assert_eq!(r, Err(LiquidityError::Deposit(DepositError::DivisionError)));
}

#[test]
fn top_up_into_pool_without_asset_a_fails_on_division() {
    let mut pool = pool_with(0, 1_000, 10);
    let mut position = None;
    let r = process_deposit(&mut pool, &mut position, alice(), 0, 1_000);
    assert_eq!(r, Err(LiquidityError::Deposit(DepositError::DivisionError)));
}

#[test]
fn tiny_top_up_earns_zero_shares() {
    let mut pool = pool_with(1_000, 1_000, 1);
    let mut position = None;
    let r = process_deposit(&mut pool, &mut position, alice(), 10, 10);
    assert_eq!(r, Err(LiquidityError::Pool(PoolError::ZeroShares)));
    assert!(position.is_none());
}

#[test]
fn top_up_whose_shares_exceed_u64_fails() {
    let mut pool = pool_with(1, 1, u64::MAX);
    let mut position = None;
    let r = process_deposit(&mut pool, &mut position, alice(), 2, 2);
    assert_eq!(r, Err(LiquidityError::Pool(PoolError::MathOverFlow)));
}

#[test]
fn top_up_whose_totals_overflow_fails() {
    let big = u64::MAX - 5;
    let mut pool = pool_with(big, big, big);
    let mut position = None;
    let r = process_deposit(&mut pool, &mut position, alice(), 10, 10);
    assert_eq!(r, Err(LiquidityError::Deposit(DepositError::OverFlow)));
    assert_eq!(pool, pool_with(big, big, big));
}

#[test]
fn balance_check_on_exact_values() {
    assert!(check_balance(100_000, 200_000, 1_000_000, 2_000_000));
    assert!(!check_balance(100_000, 100_000, 1_000_000, 2_000_000));
}

#[test]
fn swap_a_for_b_prices_on_constant_product() {
    let mut pool = pool_with(1_000_000, 2_000_000, 1_414_213);
    let o = swap(&mut pool, 100_000, mint_a(), mint_b()).unwrap();
    assert_eq!(o.direction, SwapDirection::AToB);
    assert_eq!(pool.total_a, 1_100_000);
    assert_eq!(pool.total_b, 1_818_181);
    assert_eq!(o.amount_out, 181_819);
    assert_eq!(o.fee, 300);
    assert_eq!(o.amount_in, 100_300);
    assert_eq!(pool.fees_collected_a, 300);
    assert_eq!(pool.total_shares, 1_414_213);
}

#[test]
fn swap_b_for_a_charges_fee_on_output() {
    let mut pool = pool_with(1_000_000, 2_000_000, 1_414_213);
    let o = swap(&mut pool, 200_000, mint_b(), mint_a()).unwrap();
    assert_eq!(o.direction, SwapDirection::BToA);
    assert_eq!(o.amount_in, 200_000);
    assert_eq!(o.fee, 272);
    assert_eq!(o.amount_out, 90_638);
    assert_eq!(pool.total_a, 909_090);
    assert_eq!(pool.total_b, 2_200_000);
    assert_eq!(pool.fees_collected_a, 272);
}

#[test]
fn swap_keeps_product_within_rounding() {
    let mut pool = pool_with(1_000_000, 2_000_000, 1_414_213);
    let k: u128 = 2_000_000_000_000;
    swap(&mut pool, 100_000, mint_a(), mint_b()).unwrap();
    let after = pool.total_a as u128 * pool.total_b as u128;
    assert!(after <= k);
    assert!(k < after + pool.total_a as u128);
    let mut pool = pool_with(1_000_000, 2_000_000, 1_414_213);
    swap(&mut pool, 200_000, mint_b(), mint_a()).unwrap();
    let after = pool.total_a as u128 * pool.total_b as u128;
    assert!(after <= k);
    assert!(k < after + pool.total_b as u128);
}

#[test]
fn swap_of_zero_fails() {
    let mut pool = pool_with(1_000_000, 2_000_000, 1_414_213);
    let r = swap(&mut pool, 0, mint_a(), mint_b());
    assert_eq!(r, Err(LiquidityError::Deposit(DepositError::ZeroAmountError)));
}

#[test]
fn swap_into_same_asset_fails() {
    let mut pool = pool_with(1_000_000, 2_000_000, 1_414_213);
    let r = swap(&mut pool, 10, mint_a(), mint_a());
    assert_eq!(r, Err(LiquidityError::Deposit(DepositError::InvalidAccountInputs)));
}

#[test]
fn swap_of_foreign_asset_fails() {
    let mut pool = pool_with(1_000_000, 2_000_000, 1_414_213);
    let before = pool;
    let r = swap(&mut pool, 10, key(99), mint_b());
    assert_eq!(r, Err(LiquidityError::Deposit(DepositError::InvalidAccounts)));
    let r = swap(&mut pool, 10, mint_a(), key(99));
    assert_eq!(r, Err(LiquidityError::Deposit(DepositError::InvalidAccounts)));
    assert_eq!(pool, before);
}

#[test]
fn swap_overflowing_input_reserve_fails() {
    let mut pool = pool_with(u64::MAX, 2_000_000, 1_414_213);
    let r = swap(&mut pool, 1, mint_a(), mint_b());
    assert_eq!(r, Err(LiquidityError::Deposit(DepositError::OverFlow)));
    let mut pool = pool_with(1_000, u64::MAX, 1_414_213);
    let r = swap(&mut pool, 1, mint_b(), mint_a());
    assert_eq!(r, Err(LiquidityError::Deposit(DepositError::OverFlow)));
}

#[test]
fn swap_with_fee_above_whole_fails_on_underflow() {
    let mut pool = pool_with(1_000_000, 2_000_000, 1_414_213);
    pool.fee_rate_bps = 20_000;
    let before = pool;
    let r = swap(&mut pool, 200_000, mint_b(), mint_a());
    assert_eq!(r, Err(LiquidityError::Deposit(DepositError::Underflow)));
    assert_eq!(pool, before);
}

#[test]
fn direction_follows_input_mint() {
    assert_eq!(resolve_direction(&mint_a(), &mint_b(), &mint_a(), &mint_b()), Ok(SwapDirection::AToB));
    assert_eq!(resolve_direction(&mint_b(), &mint_a(), &mint_a(), &mint_b()), Ok(SwapDirection::BToA));
}

#[test]
fn full_withdraw_drains_pool() {
    let (mut pool, mut position) = bootstrapped();
    swap(&mut pool, 100_000, mint_a(), mint_b()).unwrap();
    let r = process_withdraw(&mut pool, &mut position).unwrap();
    assert_eq!(r.shares, 1_414_213);
    assert_eq!(r.amount_a, 1_100_000 + 300);
    assert_eq!(r.amount_b, 1_818_181);
    assert_eq!(r.fee_share, 300);
    assert!(position.is_none());
    assert_eq!(pool.total_a, 0);
    assert_eq!(pool.total_b, 0);
    assert_eq!(pool.fees_collected_a, 0);
    assert_eq!(pool.total_shares, 0);
    assert!(pool.initialized);
}

#[test]
fn partial_withdraw_retires_exact_shares() {
    let (mut pool, _) = bootstrapped();
    let mut position = None;
    let shares = process_deposit(&mut pool, &mut position, bob(), 100_000, 200_000).unwrap();
    assert_eq!(shares, 141_421);
    let total_before = pool.total_shares;
    let r = process_withdraw(&mut pool, &mut position).unwrap();
    assert!(position.is_none());
    assert_eq!(pool.total_shares, total_before - 141_421);
    assert_eq!(r.amount_a, 1_100_000u64 * 141_421 / 1_555_634);
    assert_eq!(r.amount_b, 2_200_000u64 * 141_421 / 1_555_634);
    assert_eq!(pool.total_a, 1_100_000 - r.amount_a);
}

#[test]
fn withdraw_from_pool_without_shares_fails() {
    let mut pool = pool_with(0, 0, 0);
    let mut position = Some(User::empty(alice()));
    let r = process_withdraw(&mut pool, &mut position);
    assert_eq!(r, Err(LiquidityError::Deposit(DepositError::DivisionError)));
    assert!(position.is_some());
}

#[test]
fn withdraw_of_more_than_outstanding_shares_fails() {
    let mut pool = pool_with(100, 100, 10);
    let mut position = Some(User { owner: alice(), deposited_a: 0, deposited_b: 0, shares: 11 });
    let r = process_withdraw(&mut pool, &mut position);
    assert_eq!(r, Err(LiquidityError::Deposit(DepositError::Underflow)));
    assert_eq!(pool, pool_with(100, 100, 10));
}

#[test]
fn withdraw_whose_payout_overflows_fails() {
    let mut pool = pool_with(u64::MAX, 100, 10);
    pool.fees_collected_a = 1;
    let mut position = Some(User { owner: alice(), deposited_a: 0, deposited_b: 0, shares: 10 });
    let r = process_withdraw(&mut pool, &mut position);
    assert_eq!(r, Err(LiquidityError::Deposit(DepositError::OverFlow)));
    assert!(position.is_some());
}

#[test]
fn square_root_of_product_rounds_down() {
    assert_eq!(sqrt_of_product(1_000_000, 2_000_000), 1_414_213);
    assert_eq!(sqrt_of_product(u64::MAX, u64::MAX), u64::MAX);
    assert_eq!(sqrt_of_product(3, 5), 3);
    assert_eq!(sqrt_of_product(0, 5), 0);
}

#[test]
fn pro_rata_rounds_down() {
    assert_eq!(pro_rata(1_000, 1, 3), 333);
    assert_eq!(pro_rata(u64::MAX, 7, 7), u64::MAX);
}

#[test]
fn keys_compare_by_bytes() {
    let mut k = key(5);
    assert!(k.same_as(&key(5)));
    k.bytes[31] = 6;
    assert!(!k.same_as(&key(5)));
}
