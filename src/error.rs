use vstd::prelude::*;

verus! {

/// Failures of request validation and of the checked arithmetic steps.
#[derive(Clone, Copy, Debug, PartialEq, Eq, Structural)]
pub enum DepositError {
    /// An amount that must be positive is zero.
    ZeroAmountError,
    /// The input and output token accounts hold the same asset.
    InvalidAccountInputs,
    /// A token account holds neither of the pool's two assets.
    InvalidAccounts,
    /// A subtraction would go below zero.
    Underflow,
    /// A division by zero.
    DivisionError,
    /// An addition or multiplication exceeds the range of `u64`.
    OverFlow,
    /// A fixed-point product exceeds its 128-bit range.
    MultiplyError,
}

/// Failures of the pool's economic rules.
#[derive(Clone, Copy, Debug, PartialEq, Eq, Structural)]
pub enum PoolError {
    /// The number of shares to issue does not fit in `u64`.
    MathOverFlow,
    /// A top-up deposit strays more than 1% from the pool's asset ratio.
    ImbalancedDeposit,
    /// A top-up deposit would be issued no shares.
    ZeroShares,
    /// The pool's reserve cannot cover a payout.
    InsufficientLiquidity,
}

/// Any failure of a pool operation.
#[derive(Clone, Copy, Debug, PartialEq, Eq, Structural)]
pub enum LiquidityError {
    Deposit(DepositError),
    Pool(PoolError),
}

} // verus!
