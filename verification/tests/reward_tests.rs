use vaulty::errors::Error;
use vaulty::rewards::{RewardConfig, RewardsContract};
use vaulty::types::Role;

const ADMIN: u64 = 10;
const STREAKS: u64 = 20;
const USER: u64 = 100;
const USER2: u64 = 101;
const ASSET: [u8; 32] = [0u8; 32];

fn initialized() -> RewardsContract {
    let mut c = RewardsContract::new();
    c.initialize(ADMIN, ASSET, STREAKS).unwrap();
    c
}

fn funded(amount: i128) -> RewardsContract {
    let mut c = initialized();
    c.fund_rewards_pool(ADMIN, amount).unwrap();
    c
}

#[test]
fn test_rewards_pool_initialization() {
    let c = funded(1000_0000000);
    let pool = c.get_pool_state();
    assert_eq!(pool.available_liquidity, 1000_0000000);
    assert_eq!(pool.reward_asset, ASSET);
}

#[test]
fn test_milestone_7day_grant() {
    let mut c = funded(1000_0000000);
    c.grant_reward(USER, 7).unwrap();
    assert_eq!(c.get_pending_rewards(USER), 10_0000000);
}

#[test]
fn test_multiple_milestones() {
    let mut c = funded(1000_0000000);
    c.grant_reward(USER, 30).unwrap();
    assert_eq!(c.get_pending_rewards(USER), 60_0000000);
    assert_eq!(c.get_pool_state().available_liquidity, 940_0000000);
    c.grant_reward(USER, 30).unwrap();
    assert_eq!(c.get_pending_rewards(USER), 60_0000000);
    assert_eq!(c.get_pool_state().available_liquidity, 940_0000000);
}

#[test]
fn test_claim_rewards() {
    let mut c = funded(1000_0000000);
    c.grant_reward(USER, 7).unwrap();
    let claimed = c.claim_rewards(USER, 0).unwrap();
    assert_eq!(claimed, 10_0000000);
    assert_eq!(c.get_pending_rewards(USER), 0);
    assert_eq!(c.get_pool_state().available_liquidity, 990_0000000);
}

#[test]
fn test_rewards_test_double_claim_prevention() {
    let mut c = funded(1000_0000000);
    c.grant_reward(USER, 7).unwrap();
    c.claim_rewards(USER, 0).unwrap();
    assert_eq!(c.claim_rewards(USER, 0), Err(Error::RewardNotEligible));
}

#[test]
fn test_add_custom_milestone() {
    let mut c = initialized();
    c.add_milestone(ADMIN, 180, 100_0000000, 0).unwrap();
    let milestones = c.get_milestones_list();
    assert_eq!(milestones.len(), 5);
    let custom_milestone = milestones[4];
    assert_eq!(custom_milestone.streak_threshold, 180);
    assert_eq!(custom_milestone.reward_amount, 100_0000000);
}

#[test]
fn test_insufficient_liquidity() {
    let mut c = funded(15_0000000);
    c.grant_reward(USER, 7).unwrap();
    assert_eq!(c.get_pending_rewards(USER), 10_0000000);
    assert_eq!(c.grant_reward(USER2, 7), Err(Error::InsufficientRewardLiquidity));
}

#[test]
fn test_initialize_rewards_sets_admin() {
    let c = initialized();
    let pool = c.get_pool_state();
    assert_eq!(pool.admin, ADMIN);
    assert!(pool.initialized);
}

#[test]
fn test_initialize_rewards_prevents_double_init() {
    let mut c = initialized();
    assert_eq!(c.initialize(ADMIN, ASSET, STREAKS), Err(Error::AlreadyInitialized));
}

#[test]
fn test_initialize_rewards_with_funding_sets_admin() {
    let mut c = RewardsContract::new();
    c.initialize_rewards(ADMIN, 1000_0000000, ASSET).unwrap();
    let pool = c.get_pool_state();
    assert_eq!(pool.admin, ADMIN);
    assert_eq!(pool.total_funded, 1000_0000000);
}

#[test]
fn test_initialize_rewards_double_init_rejected() {
    let mut c = RewardsContract::new();
    c.initialize_rewards(ADMIN, 1000_0000000, ASSET).unwrap();
    assert_eq!(c.initialize_rewards(ADMIN, 500_0000000, ASSET), Err(Error::AlreadyInitialized));
}

#[test]
fn test_grant_admin_succeeds_for_admin() {
    let mut c = initialized();
    let new_role_admin = 11;
    assert_eq!(c.grant_admin(ADMIN, new_role_admin, 0), Ok(()));
}

#[test]
fn test_fund_rewards_pool_succeeds_for_admin() {
    let c = funded(1000_0000000);
    assert_eq!(c.get_pool_state().available_liquidity, 1000_0000000);
}

#[test]
fn test_add_milestone_succeeds_for_admin() {
    let mut c = initialized();
    c.add_milestone(ADMIN, 180, 100_0000000, 0).unwrap();
    let milestones = c.get_milestones_list();
    assert_eq!(milestones.len(), 5);
    assert_eq!(milestones[4].streak_threshold, 180);
}

#[test]
fn test_transfer_and_accept_admin() {
    let mut c = initialized();
    let new_admin = 12;
    c.transfer_admin(ADMIN, new_admin).unwrap();
    c.accept_admin(new_admin).unwrap();
    assert_eq!(c.get_pool_state().admin, new_admin);
}

#[test]
fn test_rewards_governance_test_transfer_admin_rejects_self_transfer() {
    let mut c = initialized();
    assert_eq!(c.transfer_admin(ADMIN, ADMIN), Err(Error::CannotTransferToSelf));
}

#[test]
fn test_rewards_governance_test_accept_admin_without_pending_fails() {
    let mut c = initialized();
    assert_eq!(c.accept_admin(ADMIN), Err(Error::NoAdminTransferPending));
}

#[test]
fn test_full_reward_flow_after_governance_init() {
    let mut c = funded(1000_0000000);
    c.grant_reward(USER, 7).unwrap();
    assert_eq!(c.get_pending_rewards(USER), 10_0000000);
    assert_eq!(c.claim_rewards(USER, 0).unwrap(), 10_0000000);
    assert_eq!(c.get_pending_rewards(USER), 0);
}

// Scenarios beyond the ones above.

#[test]
fn grant_before_initialization_is_refused() {
    let mut c = RewardsContract::new();
    assert_eq!(c.grant_reward(USER, 7), Err(Error::RewardsPoolNotInitialized));
    assert_eq!(c.fund_rewards_pool(ADMIN, 5), Err(Error::RewardsPoolNotInitialized));
}

#[test]
fn failed_grant_changes_nothing() {
    let mut c = funded(55_0000000);
    assert_eq!(c.grant_reward(USER, 30), Err(Error::InsufficientRewardLiquidity));
    assert_eq!(c.get_pending_rewards(USER), 0);
    assert_eq!(c.get_pool_state().available_liquidity, 55_0000000);
}

#[test]
fn every_reached_milestone_is_granted_once() {
    let mut c = funded(2000_0000000);
    c.grant_reward(USER, 6).unwrap();
    assert_eq!(c.get_pending_rewards(USER), 0);
    c.grant_reward(USER, 365).unwrap();
    assert_eq!(c.get_pending_rewards(USER), 1260_0000000);
    assert_eq!(c.get_pool_state().available_liquidity, 740_0000000);
    c.claim_rewards(USER, 9).unwrap();
    c.grant_reward(USER, 400).unwrap();
    assert_eq!(c.get_pending_rewards(USER), 0);
}

#[test]
fn claim_with_nothing_granted_is_not_eligible() {
    let mut c = funded(10);
    assert_eq!(c.claim_rewards(USER, 0), Err(Error::RewardNotEligible));
}

#[test]
fn only_pool_admin_funds_and_adds_milestones() {
    let mut c = initialized();
    assert_eq!(c.fund_rewards_pool(USER, 5), Err(Error::UnauthorizedAdmin));
    assert_eq!(c.fund_rewards_pool(ADMIN, 0), Err(Error::InvalidAmount));
    assert_eq!(c.add_milestone(USER, 1, 1, 0), Err(Error::UnauthorizedAdmin));
    assert_eq!(c.grant_admin(USER, USER, 0), Err(Error::UnauthorizedAdmin));
    assert_eq!(c.get_milestones_list().len(), 4);
}

#[test]
fn initialize_rewards_requires_positive_pool() {
    let mut c = RewardsContract::new();
    assert_eq!(c.initialize_rewards(ADMIN, 0, ASSET), Err(Error::InvalidAmount));
}

#[test]
fn admin_transfer_rules() {
    let mut c = initialized();
    assert_eq!(c.transfer_admin(USER, 12), Err(Error::Unauthorized));
    c.transfer_admin(ADMIN, 12).unwrap();
    assert_eq!(c.accept_admin(USER), Err(Error::Unauthorized));
    c.accept_admin(12).unwrap();
    assert_eq!(c.accept_admin(12), Err(Error::NoAdminTransferPending));
    assert_eq!(c.get_pool_state().admin, 12);
}

#[test]
fn config_requires_admin_role() {
    let mut c = initialized();
    let config = RewardConfig {
        claim_cooldown: 60,
        max_claim_per_period: 5,
        period_seconds: 600,
        streak_bonus_enabled: false,
    };
    assert_eq!(c.set_config(ADMIN, config), Err(Error::PermissionDenied));
    c.grant_admin(ADMIN, ADMIN, 7).unwrap();
    assert!(c.is_admin(ADMIN));
    assert_eq!(c.set_config(ADMIN, config), Ok(()));
    assert_eq!(c.get_config(), config);
    let default = RewardsContract::new().get_config();
    assert_eq!(default.claim_cooldown, 86400);
    assert_eq!(Role::Admin, Role::Admin);
}

#[test]
fn streak_bonus_steps() {
    assert_eq!(RewardsContract::calculate_streak_bonus(0), 100);
    assert_eq!(RewardsContract::calculate_streak_bonus(6), 100);
    assert_eq!(RewardsContract::calculate_streak_bonus(7), 110);
    assert_eq!(RewardsContract::calculate_streak_bonus(30), 125);
    assert_eq!(RewardsContract::calculate_streak_bonus(100), 150);
    assert_eq!(RewardsContract::calculate_streak_bonus(365), 200);
}

#[test]
fn milestone_id_encodes_threshold() {
    let id = RewardsContract::create_milestone_id(7);
    assert_eq!(&id[0..4], &[0, 0, 0, 7]);
    assert_eq!(&id[4..12], b"stonmile");
    assert_ne!(RewardsContract::create_milestone_id(7), RewardsContract::create_milestone_id(30));
}

#[test]
fn liquidity_plus_granted_equals_funded() {
    let mut c = funded(500_0000000);
    c.grant_reward(USER, 30).unwrap();
    c.grant_reward(USER2, 7).unwrap();
    c.claim_rewards(USER, 5).unwrap();
    c.fund_rewards_pool(ADMIN, 100_0000000).unwrap();
    c.add_milestone(ADMIN, 10, 3_0000000, 0).unwrap();
    c.grant_reward(USER2, 10).unwrap();
    let pool = c.get_pool_state();
    // Granted: 10 + 50 to USER, 10 + 3 to USER2, claimed or not.
    let granted = 73_0000000;
    assert_eq!(pool.available_liquidity + granted, pool.total_funded);
    assert_eq!(pool.total_funded, 600_0000000);
}
