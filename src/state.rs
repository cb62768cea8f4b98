use vstd::prelude::*;

verus! {

/// Largest fee rate, in basis points (5%).
pub const MAX_FEE_RATE: u16 = 500;
/// Basis points in a whole.
pub const BASIS_POINTS: u64 = 10000;
/// Smallest accepted deposit, in base-asset units.
pub const MIN_DEPOSIT: u64 = 10_000_000;
/// Largest accepted deposit, in base-asset units.
pub const MAX_DEPOSIT: u64 = 100_000_000_000;
/// Base-asset value of one point, that is one mass unit.
pub const POINT_SIZE: u64 = 10_000_000;
/// Delay after creation before a commitment may be spent or withdrawn.
pub const MATURITY_DELAY: i64 = 12;
/// Delay between a withdrawal request and its completion.
pub const WITHDRAWAL_COOLDOWN: i64 = 86400;

/// The global protocol record: parameters and running totals.
#[derive(Debug, Clone, Copy)]
pub struct ProtocolState {
    pub is_initialized: bool,
    pub authority: [u8; 32],
    pub treasury: [u8; 32],
    pub usdt_mint: [u8; 32],
    pub total_deposited: u64,
    pub total_withdrawn: u64,
    pub total_fees: u64,
    pub total_points: u64,
    /// Basis points (100 = 1%).
    pub deposit_fee_rate: u16,
    pub withdrawal_fee_rate: u16,
    pub is_paused: bool,
}

/// One shielded value unit, keyed by its commitment.
#[derive(Debug, Clone, Copy)]
pub struct FloatingPoint {
    pub is_initialized: bool,
    pub commitment: [u8; 32],
    pub created_at: i64,
    pub mass: u64,
    pub is_active: bool,
    pub creator: [u8; 32],
    pub locked_until: i64,
}

/// A pending or settled request to take points out of the shielded pool.
/// `points` lists the commitments it consumed; `forfeited` records a
/// permanent cancellation.
#[derive(Debug, Clone)]
pub struct WithdrawalRequest {
    pub is_initialized: bool,
    pub requester: [u8; 32],
    pub amount: u64,
    pub request_time: i64,
    pub unlock_time: i64,
    pub completed: bool,
    pub cancelled: bool,
    pub forfeited: bool,
    pub points: Vec<[u8; 32]>,
}

/// A spend-proof token; `used` goes from false to true at most once.
#[derive(Debug, Clone, Copy)]
pub struct NullifierSet {
    pub is_initialized: bool,
    pub nullifier: [u8; 32],
    pub used: bool,
    pub timestamp: i64,
}

impl ProtocolState {
    /// Rates within bounds and fees never above the deposits they came from.
    pub open spec fn wf(&self) -> bool {
        &&& self.deposit_fee_rate <= MAX_FEE_RATE
        &&& self.withdrawal_fee_rate <= MAX_FEE_RATE
        &&& self.total_fees <= self.total_deposited
    }
}

impl WithdrawalRequest {
    /// Completed and cancelled exclude each other; only a cancellation forfeits.
    pub open spec fn wf(&self) -> bool {
        &&& !(self.completed && self.cancelled)
        &&& self.forfeited ==> self.cancelled
    }

    pub open spec fn is_terminal(&self) -> bool {
        self.completed || self.cancelled
    }

    /// The mass this request keeps out of the active pool: all of its points,
    /// unless a cancellation gave them back.
    pub open spec fn held_mass(&self) -> int {
        if self.cancelled && !self.forfeited {
            0
        } else {
            self.points@.len() as int
        }
    }
}

/// `floor(amount * rate / 10000)`.
pub open spec fn fee_of(amount: int, rate: int) -> int {
    amount * rate / (BASIS_POINTS as int)
}

/// The fee on `amount` at `rate` basis points, and what is left after it.
pub fn compute_fee(amount: u64, rate: u16) -> (r: (u64, u64))
    requires
        rate <= MAX_FEE_RATE,
    ensures
        r.0 == fee_of(amount as int, rate as int),
        r.1 == amount - r.0,
{
    proof {
        lemma_fee_bound(amount as int, rate as int);
        assert((amount as int) * (rate as int) <= (amount as int) * 500) by (nonlinear_arith)
            requires 0 <= rate <= 500, 0 <= amount;
    }
    let wide: u128 = (amount as u128) * (rate as u128);
    let fee128: u128 = wide / (BASIS_POINTS as u128);
    let fee: u64 = fee128 as u64;
    (fee, amount - fee)
}

/// Fee bound: at any rate in `[0, 500]` basis points the fee on `amount` is
/// between zero and `amount * 500 / 10000`, so never more than the amount,
/// and the net amount is not negative.
pub proof fn lemma_fee_bound(amount: int, rate: int)
    requires
        0 <= amount,
        0 <= rate <= MAX_FEE_RATE,
    ensures
        0 <= fee_of(amount, rate) <= amount * 500 / 10000,
        fee_of(amount, rate) <= amount,
        amount - fee_of(amount, rate) >= 0,
{
    assert(amount * rate <= amount * 500) by (nonlinear_arith)
        requires 0 <= amount, 0 <= rate <= 500;
    assert(0 <= amount * rate) by (nonlinear_arith)
        requires 0 <= amount, 0 <= rate;
    assert(amount * rate / 10000 <= amount * 500 / 10000) by (nonlinear_arith)
        requires 0 <= amount * rate <= amount * 500;
    assert(0 <= amount * rate / 10000) by (nonlinear_arith)
        requires 0 <= amount * rate;
    assert(amount * 500 / 10000 <= amount) by (nonlinear_arith)
        requires 0 <= amount;
}

/// Whether two 32-byte keys are the same.
pub fn keys_equal(a: &[u8; 32], b: &[u8; 32]) -> (r: bool)
    ensures
        r == (a@ == b@),
{
    let mut i: usize = 0;
    while i < 32
        invariant
            0 <= i <= 32,
            a@.len() == 32,
            b@.len() == 32,
            forall|j: int| 0 <= j < i ==> a@[j] == b@[j],
        decreases 32 - i,
    {
        if a[i] != b[i] {
            return false;
        }
        i = i + 1;
    }
    assert(a@ =~= b@);
    true
}

} // verus!
