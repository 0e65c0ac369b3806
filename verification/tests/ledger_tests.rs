use vaulty::errors::Error;
use vaulty::reward_ledger::{RewardLedger, RewardPool};
use vaulty::rewards::RewardConfig;

const USER: u64 = 100;
const ADMIN: u64 = 10;

fn ledger_with_pool() -> RewardLedger {
    let mut l = RewardLedger::new();
    l.initialize_rewards(1_000, [5u8; 32], 7).unwrap();
    l
}

#[test]
fn pool_setup_requires_positive_total() {
    let mut l = RewardLedger::new();
    assert_eq!(l.get_reward_pool(), Err(Error::NotInitialized));
    assert_eq!(l.initialize_rewards(0, [0u8; 32], 0), Err(Error::InvalidAmount));
    l.initialize_rewards(1_000, [5u8; 32], 7).unwrap();
    assert_eq!(
        l.get_reward_pool(),
        Ok(RewardPool { total_allocated: 1_000, total_claimed: 0, reward_asset: [5u8; 32], last_distribution: 7 })
    );
}

#[test]
fn grants_accumulate_in_pending_balance() {
    let mut l = ledger_with_pool();
    assert_eq!(l.grant_reward(USER, 0, 0), Err(Error::InvalidAmount));
    l.grant_reward(USER, 30, 0).unwrap();
    l.grant_reward(USER, 12, 1).unwrap();
    assert_eq!(l.get_pending_rewards(USER), Ok(42));
    assert_eq!(l.get_pending_rewards(101), Ok(0));
    assert_eq!(l.grant_reward(USER, i128::MAX, 0), Err(Error::Overflow));
}

#[test]
fn claim_pays_pending_and_records_it() {
    let mut l = ledger_with_pool();
    l.grant_reward(USER, 42, 0).unwrap();
    assert_eq!(l.claim_rewards(USER, 1_000), Ok(42));
    assert_eq!(l.get_pending_rewards(USER), Ok(0));
    assert_eq!(l.get_reward_pool().unwrap().total_claimed, 42);
    let history = l.get_claim_history(USER).unwrap();
    assert_eq!(history.len(), 1);
    assert_eq!(history[0].timestamp, 1_000);
    assert_eq!(history[0].amount, 42);
    assert_eq!(l.get_global_claim_count(), Ok(1));
}

#[test]
fn second_claim_waits_for_cooldown() {
    let mut l = ledger_with_pool();
    l.grant_reward(USER, 5, 0).unwrap();
    l.claim_rewards(USER, 1_000).unwrap();
    l.grant_reward(USER, 5, 0).unwrap();
    assert_eq!(l.claim_rewards(USER, 1_000 + 86_399), Err(Error::CooldownPeriodNotMet));
    assert_eq!(l.claim_rewards(USER, 1_000 + 86_400), Ok(5));
}

#[test]
fn claim_with_nothing_pending_or_no_pool_fails() {
    let mut l = RewardLedger::new();
    assert_eq!(l.claim_rewards(USER, 0), Err(Error::InsufficientBalance));
    l.grant_reward(USER, 5, 0).unwrap();
    assert_eq!(l.claim_rewards(USER, 0), Err(Error::NotInitialized));
    assert_eq!(l.get_pending_rewards(USER), Ok(5));
}

#[test]
fn rate_limit_admits_fifty_claims_per_minute() {
    let mut l = ledger_with_pool();
    for u in 0..50u64 {
        l.grant_reward(u, 1, 0).unwrap();
        l.claim_rewards(u, 120).unwrap();
    }
    l.grant_reward(50, 1, 0).unwrap();
    assert_eq!(l.claim_rewards(50, 150), Err(Error::RateLimitExceeded));
    assert_eq!(l.claim_rewards(50, 180), Ok(1));
}

#[test]
fn claim_history_keeps_latest_fifty() {
    let mut l = ledger_with_pool();
    let config = RewardConfig { claim_cooldown: 0, max_claim_per_period: 1, period_seconds: 1, streak_bonus_enabled: true };
    assert_eq!(l.set_config(ADMIN, config), Err(Error::PermissionDenied));
    l.grant_admin(ADMIN, 0).unwrap();
    assert!(l.is_admin(ADMIN));
    l.set_config(ADMIN, config).unwrap();
    for i in 0..55u64 {
        l.grant_reward(USER, 1, 0).unwrap();
        l.claim_rewards(USER, 100 * i).unwrap();
    }
    let history = l.get_claim_history(USER).unwrap();
    assert_eq!(history.len(), 50);
    assert_eq!(history[0].timestamp, 500);
    assert_eq!(history[49].timestamp, 5_400);
    assert_eq!(l.get_global_claim_count(), Ok(55));
}

#[test]
fn streak_multiplier_steps() {
    let mut l = RewardLedger::new();
    assert_eq!(l.calculate_streak_bonus(0), 1);
    assert_eq!(l.calculate_streak_bonus(7), 1);
    assert_eq!(l.calculate_streak_bonus(8), 2);
    assert_eq!(l.calculate_streak_bonus(31), 3);
    assert_eq!(l.calculate_streak_bonus(91), 4);
    assert_eq!(l.calculate_streak_bonus(181), 5);
    l.grant_admin(ADMIN, 0).unwrap();
    let config = RewardConfig { claim_cooldown: 0, max_claim_per_period: 1, period_seconds: 1, streak_bonus_enabled: false };
    l.set_config(ADMIN, config).unwrap();
    assert_eq!(l.calculate_streak_bonus(181), 1);
    assert_eq!(l.get_config(), config);
}
