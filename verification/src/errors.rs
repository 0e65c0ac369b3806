use vstd::prelude::*;

verus! {

/// Error codes shared by all Vaulty contracts.
#[derive(Copy, Clone, Debug, PartialEq, Eq, Structural)]
pub enum Error {
    Unauthorized,
    VaultNotFound,
    InvalidAmount,
    InsufficientBalance,
    VaultLocked,
    InvalidLockPeriod,
    Overflow,
    Underflow,
    InvalidAsset,
    AlreadyInitialized,
    NotInitialized,
    InvalidTimestamp,
    StreakNotFound,
    LoanNotFound,
    InsufficientCollateral,
    LiquidationThreshold,
    RewardAlreadyClaimed,
    InvalidParameters,
    DuplicateActivity,
    NoFreezesAvailable,
    MilestoneAlreadyReached,
    RewardsPoolNotInitialized,
    RewardsPoolAlreadyInitialized,
    InsufficientRewardLiquidity,
    UnauthorizedAdmin,
    RewardNotEligible,
    InvalidInterestRate,
    PoolNotFound,
    PoolAlreadyInitialized,
    LoanAlreadyExists,
    LoanAlreadyRepaid,
    LiquidationNotAllowed,
    NoPositionFound,
    InsufficientShares,
    EmergencyStopActive,
    RateLimitExceeded,
    PermissionDenied,
    VaultAlreadyUnlocked,
    InsufficientLiquidity,
    InvalidCollateral,
    CooldownPeriodNotMet,
    CannotTransferToSelf,
    NoAdminTransferPending,
}

} // verus!
