use vstd::prelude::*;

verus! {

/// Fee rate, in basis points of the swap input, that a new pool starts with.
pub const DEFAULT_FEE_RATE_BPS: u64 = 30;

/// Basis points in a whole.
pub const BPS_DENOMINATOR: u64 = 10_000;

/// A 32-byte account identity: a participant, or the mint of an asset.
#[derive(Clone, Copy, Debug)]
pub struct AccountKey {
    pub bytes: [u8; 32],
}

impl View for AccountKey {
    type V = Seq<u8>;

    open spec fn view(&self) -> Seq<u8> {
        self.bytes@
    }
}

impl AccountKey {
    /// Whether two keys hold the same bytes.
    pub fn same_as(&self, other: &AccountKey) -> (r: bool)
        ensures
            r == (self@ == other@),
    {
        let mut i: usize = 0;
        while i < 32
            invariant
                i <= 32,
                self@.len() == 32,
                other@.len() == 32,
                forall|j: int| 0 <= j < i ==> self@[j] == other@[j],
            decreases 32 - i,
        {
            if self.bytes[i] != other.bytes[i] {
                return false;
            }
            i = i + 1;
        }
        assert(self@ =~= other@);
        true
    }
}

/// The shared liquidity record of one asset pair {A, B}.
#[derive(Clone, Copy, Debug, PartialEq, Eq, Structural)]
pub struct Pool {
    /// Reserve of asset A available for pricing.
    pub total_a: u64,
    /// Reserve of asset B available for pricing.
    pub total_b: u64,
    /// Swap fees accrued in asset A, kept apart from the reserve.
    pub fees_collected_a: u64,
    /// Swap fee in basis points.
    pub fee_rate_bps: u64,
    /// Sum of all outstanding liquidity shares.
    pub total_shares: u64,
    /// False until the first deposit succeeds.
    pub initialized: bool,
}

impl Pool {
    /// A pool record that no deposit has touched yet.
    pub fn new() -> (r: Pool)
        ensures
            r.total_a == 0,
            r.total_b == 0,
            r.fees_collected_a == 0,
            r.fee_rate_bps == 0,
            r.total_shares == 0,
            !r.initialized,
    {
        Pool {
            total_a: 0,
            total_b: 0,
            fees_collected_a: 0,
            fee_rate_bps: 0,
            total_shares: 0,
            initialized: false,
        }
    }

    /// The pool's backing rule: while initialized, a nonzero reserve is
    /// always owned by some shares.
    pub open spec fn is_backed(&self) -> bool {
        self.initialized && (self.total_a > 0 || self.total_b > 0) ==> self.total_shares > 0
    }

    /// The constant-product quantity `total_a * total_b`.
    pub open spec fn product(&self) -> int {
        self.total_a * self.total_b
    }
}

/// One participant's deposit ledger in one pool.
#[derive(Clone, Copy, Debug)]
pub struct User {
    /// The controlling participant.
    pub owner: AccountKey,
    /// Cumulative amount of asset A contributed.
    pub deposited_a: u64,
    /// Cumulative amount of asset B contributed.
    pub deposited_b: u64,
    /// This position's claim on the pool.
    pub shares: u64,
}

impl User {
    /// An empty position of `owner`, before any deposit is booked into it.
    pub fn empty(owner: AccountKey) -> (r: User)
        ensures
            r.owner@ == owner@,
            r.deposited_a == 0,
            r.deposited_b == 0,
            r.shares == 0,
    {
        User { owner, deposited_a: 0, deposited_b: 0, shares: 0 }
    }
}

} // verus!
