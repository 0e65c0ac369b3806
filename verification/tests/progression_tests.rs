use vaulty::errors::Error;
use vaulty::progression::Protocol;
use vaulty::types::VaultStatus;
use vaulty::vault_id::VaultId;

const VAULT_ACCOUNT: u64 = 1;
const STREAKS_ACCOUNT: u64 = 2;
const REWARDS_ACCOUNT: u64 = 3;
const ADMIN: u64 = 10;
const USER: u64 = 100;
const ISSUER: u64 = 300;
const DAY: u64 = 86400;
const JAN_1_2024: u64 = 1704067200;

/// All three contracts wired together; the pool holds `funding`.
fn setup_with_funding(funding: i128) -> Protocol {
    let mut p = Protocol::new(VAULT_ACCOUNT);
    p.streaks.initialize(VAULT_ACCOUNT).unwrap();
    p.rewards.initialize(ADMIN, [0u8; 32], STREAKS_ACCOUNT).unwrap();
    p.vault.initialize(ADMIN, STREAKS_ACCOUNT, REWARDS_ACCOUNT).unwrap();
    p.register_with_streaks().unwrap();
    if funding > 0 {
        p.rewards.fund_rewards_pool(ADMIN, funding).unwrap();
    }
    p
}

fn setup_integration_test() -> Protocol {
    setup_with_funding(10000_0000000)
}

fn user_vault(p: &mut Protocol) -> VaultId {
    p.vault.create_vault(USER, ISSUER, [1u8; 32], 86400, 0).unwrap()
}

fn day(n: u64) -> u64 {
    JAN_1_2024 + (n - 1) * DAY
}

#[test]
fn progression_integration_test_full_progression_flow() {
    let mut p = setup_integration_test();
    let id = user_vault(&mut p);
    p.deposit(&id, 100, 1704067200).unwrap();
    assert_eq!(p.streaks.get_streak(USER), 1);
    assert!(p.deposit(&id, 100, 1704153600).is_ok(), "Second deposit should succeed");
    assert_eq!(p.streaks.get_streak(USER), 2);
    assert!(p.deposit(&id, 100, 1704153600).is_err(), "Same-day duplicate deposit should fail");
    for d in 3..=7 {
        p.deposit(&id, 100, day(d)).unwrap();
    }
    assert_eq!(p.streaks.get_streak(USER), 7);
    assert_eq!(p.rewards.get_pending_rewards(USER), 10_0000000);
    assert_eq!(p.rewards.claim_rewards(USER, day(7)).unwrap(), 10_0000000);
    assert_eq!(p.rewards.get_pending_rewards(USER), 0);
    // Day 9, skipping day 8.
    let t = day(9);
    assert_eq!(p.streaks.get_user_streak(USER).unwrap().available_freezes, 3);
    p.deposit(&id, 100, t).unwrap();
    let s = p.streaks.get_user_streak(USER).unwrap();
    assert_eq!(s.available_freezes, 2);
    assert_eq!(s.current_streak, 8);
    p.deposit(&id, 100, JAN_1_2024 + 12 * DAY).unwrap();
    assert_eq!(p.streaks.get_streak(USER), 1);
}

#[test]
fn test_qualifying_deposit_updates_streak_once() {
    let mut p = setup_integration_test();
    let id = user_vault(&mut p);
    p.deposit(&id, 100, 1704067200).unwrap();
    assert_eq!(p.streaks.get_streak(USER), 1, "First deposit should create streak of 1");
    assert_eq!(p.vault.get_balance(&id).unwrap(), 100, "Vault balance should be 100");
}

#[test]
fn test_same_day_second_deposit_does_not_add_streak() {
    let mut p = setup_integration_test();
    let id = user_vault(&mut p);
    p.deposit(&id, 100, 1704067200).unwrap();
    assert_eq!(p.streaks.get_streak(USER), 1);
    let result = p.deposit(&id, 50, 1704067200);
    assert!(result.is_err(), "Same-day second deposit should fail with duplicate activity error");
    assert_eq!(result, Err(Error::DuplicateActivity));
    assert_eq!(p.streaks.get_streak(USER), 1, "Streak should not increment on same-day duplicate deposit");
    assert_eq!(p.vault.get_balance(&id).unwrap(), 100, "Vault balance should remain unchanged after failed duplicate deposit");
}

#[test]
fn test_milestone_deposit_creates_pending_reward() {
    let mut p = setup_integration_test();
    let id = user_vault(&mut p);
    for d in 1..=7 {
        p.deposit(&id, 100, day(d)).unwrap();
    }
    assert_eq!(p.streaks.get_streak(USER), 7, "Streak should be 7 after 7 consecutive deposits");
    assert_eq!(p.rewards.get_pending_rewards(USER), 10_0000000, "Pending rewards should be 10 tokens for 7-day milestone");
    assert_eq!(p.vault.get_balance(&id).unwrap(), 700, "Vault balance should be 700 after 7 deposits");
}

#[test]
fn test_failed_streak_call_does_not_corrupt_vault_state() {
    let mut p = setup_integration_test();
    let id = user_vault(&mut p);
    p.deposit(&id, 100, 1704067200).unwrap();
    assert_eq!(p.vault.get_balance(&id).unwrap(), 100);
    assert_eq!(p.streaks.get_streak(USER), 1);
    let result = p.deposit(&id, 50, 1704067200);
    assert!(result.is_err(), "Same-day deposit should fail");
    assert_eq!(p.vault.get_balance(&id).unwrap(), 100, "Vault balance should remain unchanged after failed streak call");
    assert_eq!(p.streaks.get_streak(USER), 1, "Streak should remain unchanged after failed call");
    let metadata = p.vault.get_vault(&id).unwrap();
    assert_eq!(metadata.owner, USER);
    assert_eq!(metadata.status, VaultStatus::Locked);
}

#[test]
fn test_failed_reward_call_does_not_corrupt_vault_state() {
    // The rewards pool holds no liquidity, so the day-7 milestone cannot be paid.
    let mut p = setup_with_funding(0);
    let id = user_vault(&mut p);
    for d in 1..=7 {
        let result = p.deposit(&id, 100, day(d));
        if d == 7 {
            assert!(result.is_err(), "Deposit on day 7 should fail due to insufficient reward liquidity");
            assert_eq!(result, Err(Error::InsufficientRewardLiquidity));
        }
    }
    assert_eq!(p.vault.get_balance(&id).unwrap(), 600, "Vault balance should reflect successful deposits only");
    assert_eq!(p.streaks.get_streak(USER), 6, "Streak should be 6 after 6 successful deposits");
    let metadata = p.vault.get_vault(&id).unwrap();
    assert_eq!(metadata.owner, USER);
    assert_eq!(metadata.status, VaultStatus::Locked);
}

#[test]
fn progression_integration_test_unauthorized_streaks_caller() {
    let mut p = Protocol::new(VAULT_ACCOUNT);
    p.streaks.initialize(VAULT_ACCOUNT).unwrap();
    assert_eq!(p.streaks.update_streak(USER, USER, 0), Err(Error::Unauthorized));
}

// Scenarios beyond the ones above.

#[test]
fn deposit_without_linked_contracts_only_moves_funds() {
    let mut p = Protocol::new(VAULT_ACCOUNT);
    let id = user_vault(&mut p);
    p.deposit(&id, 100, day(1)).unwrap();
    p.deposit(&id, 100, day(1)).unwrap();
    assert_eq!(p.vault.get_balance(&id).unwrap(), 200);
    assert_eq!(p.streaks.get_streak(USER), 0);
}

#[test]
fn vault_not_authorized_in_streaks_makes_deposit_fail() {
    let mut p = Protocol::new(VAULT_ACCOUNT);
    p.streaks.initialize(42).unwrap();
    p.vault.initialize(ADMIN, STREAKS_ACCOUNT, REWARDS_ACCOUNT).unwrap();
    let id = user_vault(&mut p);
    assert_eq!(p.deposit(&id, 100, day(1)), Err(Error::Unauthorized));
    assert_eq!(p.vault.get_balance(&id).unwrap(), 0);
}

#[test]
fn invalid_deposit_reports_vault_error_first() {
    let mut p = setup_integration_test();
    let id = user_vault(&mut p);
    assert_eq!(p.deposit(&id, 0, day(1)), Err(Error::InvalidAmount));
    assert_eq!(p.deposit(&VaultId([9u8; 32]), 5, day(1)), Err(Error::VaultNotFound));
    assert_eq!(p.streaks.get_streak(USER), 0);
}

#[test]
fn thirty_day_streak_earns_both_milestones() {
    let mut p = setup_integration_test();
    let id = user_vault(&mut p);
    for d in 1..=30 {
        p.deposit(&id, 1, day(d)).unwrap();
    }
    assert_eq!(p.streaks.get_streak(USER), 30);
    assert_eq!(p.rewards.get_pending_rewards(USER), 60_0000000);
    assert_eq!(p.rewards.get_pool_state().available_liquidity, 9940_0000000);
}

#[test]
fn registering_needs_a_linked_streaks_contract() {
    let mut p = Protocol::new(VAULT_ACCOUNT);
    assert_eq!(p.register_with_streaks(), Err(Error::NotInitialized));
    p.vault.initialize(ADMIN, STREAKS_ACCOUNT, REWARDS_ACCOUNT).unwrap();
    assert_eq!(p.register_with_streaks(), Err(Error::Unauthorized));
    p.streaks.initialize(VAULT_ACCOUNT).unwrap();
    assert_eq!(p.register_with_streaks(), Ok(()));
}
