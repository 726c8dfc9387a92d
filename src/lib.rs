//! Accounting core of a two-asset constant-product liquidity pool: share
//! issuance on deposit, constant-product swap pricing with fee accrual, and
//! proportional redemption on withdrawal.
//!
//! Every operation works on plain pool and position records. It either fails
//! and leaves both records as they were, or commits the new records and
//! reports the amounts that the caller must then move between the
//! participant's and the pool's token accounts.

pub mod error;
pub mod math;
pub mod state;
pub mod deposit;
pub mod swap;
pub mod withdraw;
