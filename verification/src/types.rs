use vstd::prelude::*;
use crate::utils::{fit_i128, trunc_div, lemma_trunc_div_fits, SafeMath};

verus! {

/// Lifecycle state of a savings vault.
#[derive(Clone, Copy, Debug, PartialEq, Eq, Structural)]
pub enum VaultStatus {
    Active,
    Locked,
    /// The lock period has completed and the vault has been explicitly
    /// marked unlocked; distinct from `Active` because maturity was reached.
    Unlocked,
    Closed,
    Liquidated,
    Frozen,
}

/// Lending pool status.
#[derive(Clone, Copy, Debug, PartialEq, Eq, Structural)]
pub enum PoolStatus {
    Active,
    Paused,
    Closed,
    Emergency,
    RateLimited,
}

/// Loan status shared by the lending and borrowing contracts.
#[derive(Clone, Copy, Debug, PartialEq, Eq, Structural)]
pub enum LoanStatus {
    Active,
    Repaid,
    Liquidated,
    Defaulted,
}

/// Rate limit window: at most `max_operations_per_period` operations in each
/// window of `period_seconds` starting at `period_start`.
#[derive(Clone, Copy, Debug, PartialEq, Eq, Structural)]
pub struct RateLimit {
    pub max_operations_per_period: u64,
    pub period_seconds: u64,
    pub current_count: u64,
    pub period_start: u64,
}

impl RateLimit {
    /// A fresh window allowing `max_ops` operations per `period` seconds.
    pub fn new(max_ops: u64, period: u64) -> (r: Self)
        ensures
            r == (RateLimit {
                max_operations_per_period: max_ops,
                period_seconds: period,
                current_count: 0,
                period_start: 0,
            }),
    {
        Self { max_operations_per_period: max_ops, period_seconds: period, current_count: 0, period_start: 0 }
    }
}

/// Access control roles.
#[derive(Clone, Copy, Debug, PartialEq, Eq, Structural)]
pub enum Role {
    Admin,
    Operator,
    User,
    /// No role.
    Unassigned,
}

/// A role granted to an account, with optional expiry.
#[derive(Clone, Copy, Debug, PartialEq, Eq, Structural)]
pub struct Permission {
    pub role: Role,
    pub granted_at: u64,
    pub expires_at: Option<u64>,
}

/// Identity of a vault's asset: the token contract (an account id), a
/// 32-byte symbol and code, and the issuing account.
#[derive(Clone, Copy, Debug, PartialEq, Eq)]
pub struct Asset {
    pub token: u64,
    pub symbol: [u8; 32],
    pub code: [u8; 32],
    pub issuer: u64,
}

/// Vault metadata: owner account, asset, lock period and status.
#[derive(Clone, Copy, Debug, PartialEq, Eq)]
pub struct VaultMetadata {
    pub owner: u64,
    pub asset: Asset,
    pub lock_period: u64,
    pub created_at: u64,
    pub unlock_time: u64,
    pub status: VaultStatus,
}

/// A user's consecutive-activity streak.
#[derive(Clone, Copy, Debug, PartialEq, Eq, Structural)]
pub struct UserStreak {
    pub current_streak: u32,
    pub longest_streak: u32,
    /// Start of the UTC day of the last recorded activity.
    pub last_activity_period: u64,
    /// Number of streak freezes available.
    pub available_freezes: u32,
}

/// Milestone definition for reward eligibility.
#[derive(Clone, Copy, Debug, PartialEq, Eq, Structural)]
pub struct Milestone {
    pub streak_threshold: u32,
    pub reward_amount: i128,
    /// 0 = one-time streak milestone.
    pub reward_type: u32,
}

/// A reward entitlement of a user for one milestone. The milestone is held
/// by its streak threshold, which its 32-byte id encodes.
#[derive(Clone, Copy, Debug, PartialEq, Eq)]
pub struct UserReward {
    pub milestone_id: u32,
    pub amount: i128,
    pub claimed: bool,
    pub claimed_at: Option<u64>,
}

/// Rewards pool state.
#[derive(Clone, Copy, Debug, PartialEq, Eq)]
pub struct RewardsPool {
    pub total_funded: i128,
    pub available_liquidity: i128,
    pub reward_asset: [u8; 32],
    pub initialized: bool,
    pub admin: u64,
}

/// Amount wrapper for checked arithmetic.
#[derive(Clone, Copy, Debug, PartialEq, Eq, Structural)]
pub struct Amount {
    pub value: i128,
}

impl Amount {
    pub fn new(value: i128) -> (r: Self)
        ensures
            r.value == value,
    {
        Self { value }
    }

    /// Sum of the two amounts, `None` on overflow.
    pub fn checked_add(self, other: Amount) -> (r: Option<Amount>)
        ensures
            r == (match fit_i128(self.value + other.value) {
                Some(v) => Some(Amount { value: v }),
                None => None,
            }),
    {
        match SafeMath::add(self.value, other.value) {
            Some(v) => Some(Amount::new(v)),
            None => None,
        }
    }

    /// Difference of the two amounts, `None` on overflow.
    pub fn checked_sub(self, other: Amount) -> (r: Option<Amount>)
        ensures
            r == (match fit_i128(self.value - other.value) {
                Some(v) => Some(Amount { value: v }),
                None => None,
            }),
    {
        match SafeMath::sub(self.value, other.value) {
            Some(v) => Some(Amount::new(v)),
            None => None,
        }
    }
}

/// Fixed-point number with 18 decimal places: `value` stands for
/// `value / 10^18`.
#[derive(Clone, Copy, Debug, PartialEq, Eq, Structural)]
pub struct Fixed {
    pub value: i128,
}

/// Scale of [`Fixed`]: `10^18`.
pub const FIXED_SCALE: i128 = 1_000_000_000_000_000_000;

impl Fixed {
    pub const SCALE: i128 = 1_000_000_000_000_000_000;

    /// Zero.
    pub fn zero() -> (r: Fixed)
        ensures
            r.value == 0,
    {
        Fixed { value: 0 }
    }

    /// One.
    pub fn one() -> (r: Fixed)
        ensures
            r.value == FIXED_SCALE,
    {
        Fixed { value: FIXED_SCALE }
    }

    /// The fixed-point value of the integer `value`.
    pub fn from_int(value: i128) -> (r: Self)
        requires
            i128::MIN <= value * FIXED_SCALE <= i128::MAX,
        ensures
            r.value == value * FIXED_SCALE,
    {
        Fixed { value: value * FIXED_SCALE }
    }

    /// The integer part, rounded toward zero.
    pub fn to_int(self) -> (r: i128)
        ensures
            r == trunc_div(self.value as int, FIXED_SCALE as int),
    {
        proof {
            lemma_trunc_div_fits(self.value as int, FIXED_SCALE as int);
        }
        match self.value.checked_div(FIXED_SCALE) {
            Some(v) => v,
            None => 0,
        }
    }

    /// Sum, `None` on overflow.
    pub fn checked_add(self, other: Fixed) -> (r: Option<Fixed>)
        ensures
            r == (match fit_i128(self.value + other.value) {
                Some(v) => Some(Fixed { value: v }),
                None => None,
            }),
    {
        match self.value.checked_add(other.value) {
            Some(v) => Some(Fixed::new(v)),
            None => None,
        }
    }

    /// Difference, `None` on overflow.
    pub fn checked_sub(self, other: Fixed) -> (r: Option<Fixed>)
        ensures
            r == (match fit_i128(self.value - other.value) {
                Some(v) => Some(Fixed { value: v }),
                None => None,
            }),
    {
        match self.value.checked_sub(other.value) {
            Some(v) => Some(Fixed::new(v)),
            None => None,
        }
    }

    /// Product `self * other / SCALE` rounded toward zero, `None` when the raw
    /// product overflows.
    pub fn checked_mul(self, other: Fixed) -> (r: Option<Fixed>)
        ensures
            r == (match fit_i128(self.value * other.value) {
                Some(p) => Some(Fixed { value: trunc_div(p as int, FIXED_SCALE as int) as i128 }),
                None => None,
            }),
    {
        match self.value.checked_mul(other.value) {
            Some(p) => {
                proof {
                    lemma_trunc_div_fits(p as int, FIXED_SCALE as int);
                }
                match p.checked_div(FIXED_SCALE) {
                    Some(q) => Some(Fixed::new(q)),
                    None => None,
                }
            },
            None => None,
        }
    }

    /// Quotient `self * SCALE / other` rounded toward zero, `None` when the
    /// scaled dividend overflows, the divisor is zero, or the quotient
    /// overflows.
    pub fn checked_div(self, other: Fixed) -> (r: Option<Fixed>)
        ensures
            r == (match fit_i128(self.value * FIXED_SCALE) {
                Some(p) => if other.value == 0 {
                    None
                } else {
                    match fit_i128(trunc_div(p as int, other.value as int)) {
                        Some(q) => Some(Fixed { value: q }),
                        None => None,
                    }
                },
                None => None,
            }),
    {
        match self.value.checked_mul(FIXED_SCALE) {
            Some(p) => {
                match p.checked_div(other.value) {
                    Some(q) => Some(Fixed::new(q)),
                    None => None,
                }
            },
            None => None,
        }
    }

    pub fn new(value: i128) -> (r: Self)
        ensures
            r.value == value,
    {
        Self { value }
    }

    pub fn is_zero(self) -> (r: bool)
        ensures
            r == (self.value == 0),
    {
        self.value == 0
    }
}

/// Settings of a lending pool.
#[derive(Clone, Copy, Debug, PartialEq, Eq)]
pub struct PoolConfig {
    /// The pooled asset.
    pub asset: [u8; 32],
    pub admin: u64,
    /// Annual interest rate in basis points (10000 = 100%).
    pub interest_rate: i128,
    pub last_update: u64,
    /// Portion of interest kept as reserves, in basis points.
    pub reserve_factor: i128,
}

/// An emergency stop raised on a pool.
#[derive(Clone, Copy, Debug, PartialEq, Eq)]
pub struct EmergencyStop {
    pub active: bool,
    pub triggered_by: u64,
    pub triggered_at: u64,
    pub reason: [u8; 32],
}

/// Lending pool accounting state.
#[derive(Clone, Copy, Debug, PartialEq, Eq, Structural)]
pub struct PoolAccounting {
    /// Total tokens held by the pool.
    pub total_assets: i128,
    /// Total supplier shares minted.
    pub total_shares: i128,
    /// Tokens available for withdrawal or borrowing.
    pub available_liquidity: i128,
    /// Tokens currently borrowed.
    pub outstanding_debt: i128,
    /// Interest accumulated but not distributed.
    pub accrued_interest: i128,
    /// Cumulative interest index, scaled by 10^18.
    pub interest_index: i128,
}

/// Supplier share balance.
#[derive(Clone, Copy, Debug, PartialEq, Eq, Structural)]
pub struct ShareBalance {
    pub shares: i128,
    pub last_interest_index: i128,
}

/// Interest accrual parameters.
#[derive(Clone, Copy, Debug, PartialEq, Eq, Structural)]
pub struct InterestParams {
    /// Interest rate per second, scaled by 10^18.
    pub rate_per_second: i128,
    pub last_accrual_time: u64,
    pub utilization_multiplier: i128,
    pub base_rate: i128,
}

/// Flash loan protection settings.
#[derive(Clone, Copy, Debug, PartialEq, Eq, Structural)]
pub struct FlashLoanProtection {
    pub enabled: bool,
    /// Maximum flash loan fee in basis points.
    pub max_fee: i128,
    pub cooldown_period: u64,
}

/// Collateral parameters of an asset, all in basis points.
#[derive(Clone, Copy, Debug, PartialEq, Eq)]
pub struct CollateralConfig {
    pub asset: [u8; 32],
    pub liquidation_threshold: i128,
    pub loan_to_value: i128,
    pub safety_factor: i128,
}

/// A collateralized loan.
#[derive(Clone, Copy, Debug, PartialEq, Eq)]
pub struct LoanInfo {
    pub loan_id: [u8; 32],
    pub borrower: u64,
    /// The vault whose balance backs the loan.
    pub collateral_vault_id: [u8; 32],
    pub collateral_amount: i128,
    /// Principal still owed.
    pub borrow_amount: i128,
    /// Principal lent when the loan was opened.
    pub outstanding_amount: i128,
    pub interest_rate_bps: u32,
    pub status: LoanStatus,
    pub created_at: u64,
    pub last_updated: u64,
    pub interest_accrued: i128,
}

} // verus!
