use vaulty::errors::Error;
use vaulty::interest::{calculate_interest, SECONDS_PER_YEAR};
use vaulty::types::VaultStatus;
use vaulty::vault::{VaultConfig, VaultContract};
use vaulty::vault_id::VaultId;

const OWNER: u64 = 100;
const TOKEN: u64 = 300;
const SYMBOL: [u8; 32] = [0u8; 32];

fn first_vault_id_bytes() -> [u8; 32] {
    let mut bytes = [0u8; 32];
    bytes[..8].copy_from_slice(&1u64.to_be_bytes());
    bytes
}

fn ghost_vault_id() -> VaultId {
    VaultId([0xFFu8; 32])
}

fn with_vault(lock_period: u64, now: u64) -> (VaultContract, VaultId) {
    let mut c = VaultContract::new();
    let id = c.create_vault(OWNER, TOKEN, SYMBOL, lock_period, now).unwrap();
    (c, id)
}

fn initialized() -> VaultContract {
    let mut c = VaultContract::new();
    c.initialize(ADMIN, 20, 30).unwrap();
    c
}

const ADMIN: u64 = 10;

#[test]
fn test_lock_vault_updates_direct_vault_record() {
    let (mut c, id) = with_vault(86400, 0);
    c.unlock_collateral_vault(&id).unwrap();
    assert_eq!(c.get_vault(&id), c.get_vault_by_bytes(first_vault_id_bytes()));
    c.lock_vault(&id).unwrap();
    assert_eq!(c.get_vault(&id), c.get_vault_by_bytes(first_vault_id_bytes()));
}

#[test]
fn test_unlock_collateral_vault_updates_direct_vault_record() {
    let (mut c, id) = with_vault(86400, 0);
    c.unlock_collateral_vault(&id).unwrap();
    assert_eq!(c.get_vault(&id), c.get_vault_by_bytes(first_vault_id_bytes()));
}

#[test]
fn test_transfer_vault_ownership_updates_direct_vault_record() {
    let (mut c, id) = with_vault(86400, 0);
    let new_owner = 101;
    c.transfer_vault_ownership(&id, new_owner).unwrap();
    let direct_metadata = c.get_vault(&id).unwrap();
    assert_eq!(direct_metadata.owner, new_owner);
    assert_eq!(Ok(direct_metadata), c.get_vault_by_bytes(first_vault_id_bytes()));
}

#[test]
fn test_create_vault() {
    let lock_period = 86400u64;
    let (c, id) = with_vault(lock_period, 0);
    let vault = c.get_vault(&id).unwrap();
    assert_eq!(vault.owner, OWNER);
    assert_eq!(vault.asset.symbol, SYMBOL);
    assert_eq!(vault.asset.token, TOKEN);
    assert_eq!(vault.lock_period, lock_period);
    assert_eq!(vault.status, VaultStatus::Locked);
}

#[test]
fn test_deposit_flow() {
    let (mut c, id) = with_vault(86400, 0);
    c.deposit(&id, 500, 0).unwrap();
    assert_eq!(c.get_balance(&id).unwrap(), 500);
}

#[test]
fn test_withdraw_after_lock_period() {
    let (mut c, id) = with_vault(86400, 0);
    c.deposit(&id, 1000, 0).unwrap();
    c.withdraw(&id, OWNER, 500, 100000).unwrap();
    assert_eq!(c.get_balance(&id).unwrap(), 500);
}

#[test]
fn test_withdraw_before_lock_period() {
    let (mut c, id) = with_vault(86400, 0);
    c.deposit(&id, 1000, 0).unwrap();
    assert_eq!(c.withdraw(&id, OWNER, 500, 0), Err(Error::VaultLocked));
}

#[test]
fn test_deposit_zero_amount() {
    let (mut c, id) = with_vault(86400, 0);
    assert_eq!(c.deposit(&id, 0, 0), Err(Error::InvalidAmount));
}

#[test]
fn test_withdraw_insufficient_balance() {
    let (mut c, id) = with_vault(86400, 0);
    c.deposit(&id, 100, 0).unwrap();
    assert_eq!(c.withdraw(&id, OWNER, 200, 100000), Err(Error::InsufficientBalance));
}

#[test]
fn test_create_vault_invalid_lock_period() {
    let mut c = VaultContract::new();
    assert_eq!(c.create_vault(OWNER, TOKEN, SYMBOL, 0, 0), Err(Error::InvalidLockPeriod));
}

#[test]
fn test_get_lock_period() {
    let (c, id) = with_vault(86400, 0);
    assert_eq!(c.get_lock_period(&id).unwrap(), 86400);
}

#[test]
fn test_get_unlock_time() {
    let (c, id) = with_vault(86400, 0);
    let unlock_time = c.get_unlock_time(&id).unwrap();
    assert!(unlock_time >= 86400);
}

#[test]
fn test_is_locked() {
    let (c, id) = with_vault(86400, 0);
    assert!(c.is_locked(&id, 0).unwrap());
    assert!(!c.is_locked(&id, 100000).unwrap());
}

#[test]
fn test_unlock_vault_before_unlock_time() {
    let (mut c, id) = with_vault(86400, 0);
    assert_eq!(c.unlock_vault(&id, 0), Err(Error::VaultLocked));
}

#[test]
fn test_unlock_vault_at_exact_unlock_time() {
    let (mut c, id) = with_vault(86400, 0);
    let unlock_time = c.get_unlock_time(&id).unwrap();
    c.unlock_vault(&id, unlock_time).unwrap();
    assert_eq!(c.get_vault(&id).unwrap().status, VaultStatus::Unlocked);
    assert!(!c.is_locked(&id, unlock_time).unwrap());
}

#[test]
fn test_unlock_vault_after_unlock_time() {
    let (mut c, id) = with_vault(86400, 0);
    let unlock_time = c.get_unlock_time(&id).unwrap();
    c.unlock_vault(&id, unlock_time + 1).unwrap();
    assert_eq!(c.get_vault(&id).unwrap().status, VaultStatus::Unlocked);
    assert!(!c.is_locked(&id, unlock_time + 1).unwrap());
}

#[test]
fn test_unlock_vault_only_once() {
    let (mut c, id) = with_vault(86400, 0);
    let unlock_time = c.get_unlock_time(&id).unwrap();
    c.unlock_vault(&id, unlock_time).unwrap();
    assert_eq!(c.unlock_vault(&id, unlock_time), Err(Error::VaultAlreadyUnlocked));
}

#[test]
fn test_get_nonexistent_vault() {
    let c = VaultContract::new();
    let fake_vault_id = VaultId([1u8; 32]);
    assert_eq!(c.get_vault(&fake_vault_id), Err(Error::VaultNotFound));
}

#[test]
fn test_exact_unlock_time_withdrawal() {
    let (mut c, id) = with_vault(86400, 0);
    c.deposit(&id, 1000, 0).unwrap();
    let unlock_time = c.get_unlock_time(&id).unwrap();
    c.withdraw(&id, OWNER, 1000, unlock_time).unwrap();
    assert_eq!(c.get_balance(&id).unwrap(), 0);
}

#[test]
fn test_multiple_deposits() {
    let (mut c, id) = with_vault(86400, 0);
    c.deposit(&id, 1000, 0).unwrap();
    assert_eq!(c.get_balance(&id).unwrap(), 1000);
    c.deposit(&id, 1000, 0).unwrap();
    assert_eq!(c.get_balance(&id).unwrap(), 2000);
    c.deposit(&id, 1000, 0).unwrap();
    assert_eq!(c.get_balance(&id).unwrap(), 3000);
}

#[test]
fn test_withdraw_exact_balance_no_underflow() {
    let (mut c, id) = with_vault(86400, 0);
    c.deposit(&id, 100, 0).unwrap();
    c.withdraw(&id, OWNER, 100, 100000).unwrap();
    assert_eq!(c.get_balance(&id).unwrap(), 0);
}

#[test]
fn test_withdraw_at_exact_unlock_time() {
    let (mut c, id) = with_vault(86400, 0);
    c.deposit(&id, 1000, 0).unwrap();
    let unlock_time = c.get_unlock_time(&id).unwrap();
    assert!(!c.is_locked(&id, unlock_time).unwrap(), "Vault should be unlocked at exactly unlock_time");
    c.withdraw(&id, OWNER, 500, unlock_time).unwrap();
    assert_eq!(c.get_balance(&id).unwrap(), 500, "Balance should be 500 after withdrawing 500 from 1000");
}

#[test]
fn test_get_vault_unknown_id_returns_vault_not_found() {
    let c = VaultContract::new();
    assert_eq!(c.get_vault(&ghost_vault_id()), Err(Error::VaultNotFound));
}

#[test]
fn test_get_balance_unknown_id_returns_vault_not_found() {
    let c = VaultContract::new();
    assert_eq!(c.get_balance(&ghost_vault_id()), Err(Error::VaultNotFound));
}

#[test]
fn test_get_lock_period_unknown_id_returns_vault_not_found() {
    let c = VaultContract::new();
    assert_eq!(c.get_lock_period(&ghost_vault_id()), Err(Error::VaultNotFound));
}

#[test]
fn test_get_unlock_time_unknown_id_returns_vault_not_found() {
    let c = VaultContract::new();
    assert_eq!(c.get_unlock_time(&ghost_vault_id()), Err(Error::VaultNotFound));
}

#[test]
fn test_is_locked_unknown_id_returns_vault_not_found() {
    let c = VaultContract::new();
    assert_eq!(c.is_locked(&ghost_vault_id(), 0), Err(Error::VaultNotFound));
}

#[test]
fn test_withdraw_unknown_id_returns_vault_not_found() {
    let mut c = VaultContract::new();
    assert_eq!(c.withdraw(&ghost_vault_id(), OWNER, 100, 0), Err(Error::VaultNotFound));
}

#[test]
fn test_lock_vault_unknown_id_returns_vault_not_found() {
    let mut c = VaultContract::new();
    assert_eq!(c.lock_vault(&ghost_vault_id()), Err(Error::VaultNotFound));
}

#[test]
fn test_unlock_vault_unknown_id_returns_vault_not_found() {
    let mut c = VaultContract::new();
    assert_eq!(c.unlock_vault(&ghost_vault_id(), 0), Err(Error::VaultNotFound));
}

#[test]
fn test_unlock_collateral_vault_unknown_id_returns_vault_not_found() {
    let mut c = VaultContract::new();
    assert_eq!(c.unlock_collateral_vault(&ghost_vault_id()), Err(Error::VaultNotFound));
}

#[test]
fn test_transfer_vault_ownership_unknown_id_returns_vault_not_found() {
    let mut c = VaultContract::new();
    assert_eq!(c.transfer_vault_ownership(&ghost_vault_id(), 101), Err(Error::VaultNotFound));
}

#[test]
fn test_get_vault_by_bytes_unknown_id_returns_vault_not_found() {
    let c = VaultContract::new();
    assert_eq!(c.get_vault_by_bytes([0xFFu8; 32]), Err(Error::VaultNotFound));
}

#[test]
fn test_valid_vault_operations_unaffected() {
    let lock_period = 86_400u64;
    let (c, id) = with_vault(lock_period, 0);
    let metadata = c.get_vault(&id).expect("get_vault should succeed for a real vault");
    assert_eq!(metadata.lock_period, lock_period);
    assert_eq!(c.get_balance(&id).expect("get_balance should succeed for a real vault"), 0);
    assert_eq!(c.get_lock_period(&id).expect("get_lock_period should succeed"), lock_period);
    let ut = c.get_unlock_time(&id).expect("get_unlock_time should succeed");
    assert!(ut > 0);
    let locked = c.is_locked(&id, 0).expect("is_locked should succeed for a real vault");
    assert!(locked, "Newly created vault should be locked");
}

#[test]
fn test_initialize_sets_admin() {
    let c = initialized();
    assert_eq!(c.get_admin().expect("admin should be set"), ADMIN);
}

#[test]
fn test_initialize_panics_on_double_init() {
    let mut c = initialized();
    assert_eq!(c.initialize(ADMIN, 20, 30), Err(Error::AlreadyInitialized));
}

#[test]
fn test_get_admin_before_init_returns_not_initialized() {
    let c = VaultContract::new();
    assert_eq!(c.get_admin(), Err(Error::NotInitialized));
}

#[test]
fn test_set_config_requires_admin() {
    let mut c = initialized();
    let non_admin = 99;
    assert_eq!(c.set_config(non_admin, VaultConfig::default()), Err(Error::PermissionDenied));
}

#[test]
fn test_set_config_succeeds_for_admin() {
    let mut c = initialized();
    let config = VaultConfig { max_vaults_per_user: 5, ..Default::default() };
    assert_eq!(c.set_config(ADMIN, config), Ok(()));
    assert_eq!(c.get_config().unwrap().max_vaults_per_user, 5);
}

#[test]
fn test_transfer_admin_initiates_pending() {
    let mut c = initialized();
    assert_eq!(c.transfer_admin(ADMIN, 11), Ok(()));
}

#[test]
fn test_transfer_admin_requires_current_admin_auth() {
    let mut c = VaultContract::new();
    let not_admin = 98;
    let proposed = 11;
    assert_eq!(c.transfer_admin(not_admin, proposed), Err(Error::Unauthorized));
}

#[test]
fn test_vault_governance_test_transfer_admin_rejects_self_transfer() {
    let mut c = initialized();
    assert_eq!(c.transfer_admin(ADMIN, ADMIN), Err(Error::CannotTransferToSelf));
}

#[test]
fn test_accept_admin_completes_transfer() {
    let mut c = initialized();
    c.transfer_admin(ADMIN, 11).unwrap();
    c.accept_admin(11).unwrap();
    assert_eq!(c.get_admin().unwrap(), 11);
}

#[test]
fn test_vault_governance_test_accept_admin_without_pending_fails() {
    let mut c = initialized();
    assert_eq!(c.accept_admin(ADMIN), Err(Error::NoAdminTransferPending));
}

#[test]
fn test_transfer_admin_clears_pending_after_accept() {
    let mut c = initialized();
    c.transfer_admin(ADMIN, 11).unwrap();
    c.accept_admin(11).unwrap();
    c.transfer_admin(11, 12).unwrap();
    c.accept_admin(12).unwrap();
    assert_eq!(c.get_admin().unwrap(), 12);
}

#[test]
fn test_vault_create_works_after_init() {
    let mut c = initialized();
    let id = c.create_vault(OWNER, TOKEN, SYMBOL, 86_400, 0).expect("create_vault should succeed");
    assert_eq!(c.get_vault(&id).expect("get_vault should succeed").lock_period, 86_400);
}

#[test]
fn test_lock_period_and_unlock_queries() {
    let mut c = initialized();
    let id = c.create_vault(OWNER, TOKEN, SYMBOL, 86_400, 0).unwrap();
    assert_eq!(c.get_lock_period(&id).unwrap(), 86_400);
    assert!(c.get_unlock_time(&id).unwrap() > 0);
}

#[test]
fn test_is_locked_for_existing_vault() {
    let mut c = initialized();
    let id = c.create_vault(OWNER, TOKEN, SYMBOL, 86_400, 0).unwrap();
    assert!(c.is_locked(&id, 0).unwrap(), "Newly created vault should be locked");
}

#[test]
fn test_ghost_vault_returns_vault_not_found_after_init() {
    let c = initialized();
    assert_eq!(c.get_vault(&ghost_vault_id()), Err(Error::VaultNotFound));
    assert_eq!(c.get_balance(&ghost_vault_id()), Err(Error::VaultNotFound));
    assert_eq!(c.get_accrued_interest(&ghost_vault_id()), Err(Error::VaultNotFound));
}

#[test]
fn test_repeated_accrual_same_timestamp_creates_no_additional_yield() {
    let (mut c, id) = with_vault(86400 * 30, 1000);
    assert_eq!(c.get_last_accrual_time(&id).unwrap(), 1000);
    assert_eq!(c.get_accrued_interest(&id).unwrap(), 0);
    c.deposit(&id, 10_000, 1000).unwrap();
    let t = 1000 + 864_000;
    let yield_1 = c.accrue_vault_interest(&id, t).unwrap();
    assert!(yield_1 > 0, "First accrual should produce interest");
    let accumulated_after_first = c.get_accrued_interest(&id).unwrap();
    assert_eq!(accumulated_after_first, yield_1);
    assert_eq!(c.get_last_accrual_time(&id).unwrap(), t);
    let yield_2 = c.accrue_vault_interest(&id, t).unwrap();
    assert_eq!(yield_2, 0, "Repeated accrual at the same timestamp must produce 0 yield");
    assert_eq!(c.get_accrued_interest(&id).unwrap(), accumulated_after_first);
    let yield_3 = c.accrue_vault_interest(&id, t).unwrap();
    assert_eq!(yield_3, 0, "Subsequent accruals at the same timestamp must produce 0 yield");
    assert_eq!(c.get_accrued_interest(&id).unwrap(), accumulated_after_first);
}

#[test]
fn test_sequential_accrual_periods_do_not_overlap() {
    let (mut c, id) = with_vault(86400 * 365, 1000);
    c.deposit(&id, 100_000, 1000).unwrap();
    let yield_period_1 = c.accrue_vault_interest(&id, 1000 + 100_000).unwrap();
    assert_eq!(c.get_last_accrual_time(&id).unwrap(), 1000 + 100_000);
    let yield_period_2 = c.accrue_vault_interest(&id, 1000 + 300_000).unwrap();
    assert_eq!(c.get_last_accrual_time(&id).unwrap(), 1000 + 300_000);
    let total_split_yield = yield_period_1 + yield_period_2;
    assert_eq!(c.get_accrued_interest(&id).unwrap(), total_split_yield);
    let expected_total = calculate_interest(100_000, 500, 300_000).unwrap();
    let diff = (total_split_yield - expected_total).abs();
    assert!(diff <= 1, "split={}, combined={}", total_split_yield, expected_total);
}

#[test]
fn test_withdrawable_balance_unaffected_by_unbacked_yield() {
    let lock_period = 86400u64 * 30;
    let (mut c, id) = with_vault(lock_period, 1000);
    c.deposit(&id, 5_000, 1000).unwrap();
    assert_eq!(c.get_balance(&id).unwrap(), 5_000);
    let t = 1000 + lock_period + 10_000;
    let yield_accrued = c.accrue_vault_interest(&id, t).unwrap();
    assert!(yield_accrued > 0);
    assert_eq!(c.get_accrued_interest(&id).unwrap(), yield_accrued);
    assert_eq!(c.get_balance(&id).unwrap(), 5_000, "Withdrawable balance must not be inflated by unbacked interest");
    c.withdraw(&id, OWNER, 5_000, t).unwrap();
    assert_eq!(c.get_balance(&id).unwrap(), 0);
}

#[test]
fn test_multiple_deposits_sequential_accrual() {
    let (mut c, id) = with_vault(86400 * 100, 1000);
    c.deposit(&id, 10_000, 1000).unwrap();
    assert_eq!(c.get_balance(&id).unwrap(), 10_000);
    assert_eq!(c.get_last_accrual_time(&id).unwrap(), 1000);
    c.deposit(&id, 10_000, 1000 + 50_000).unwrap();
    assert_eq!(c.get_balance(&id).unwrap(), 20_000);
    assert_eq!(c.get_last_accrual_time(&id).unwrap(), 1000 + 50_000);
    let interest_after_dep2 = c.get_accrued_interest(&id).unwrap();
    assert_eq!(interest_after_dep2, calculate_interest(10_000, 500, 50_000).unwrap());
    let yield_period_2 = c.accrue_vault_interest(&id, 1000 + 100_000).unwrap();
    assert_eq!(yield_period_2, calculate_interest(20_000, 500, 50_000).unwrap());
    assert_eq!(c.get_accrued_interest(&id).unwrap(), interest_after_dep2 + yield_period_2);
    assert_eq!(c.get_balance(&id).unwrap(), 20_000);
}

#[test]
fn test_zero_rate_and_zero_balance_edge_cases() {
    let (mut c, id) = with_vault(86400 * 30, 1000);
    let zero_bal_yield = c.accrue_vault_interest(&id, 1000 + 500_000).unwrap();
    assert_eq!(zero_bal_yield, 0, "Zero balance must accrue zero interest");
    assert_eq!(c.get_accrued_interest(&id).unwrap(), 0);
    assert_eq!(c.get_last_accrual_time(&id).unwrap(), 1000 + 500_000);
    assert_eq!(calculate_interest(0, 500, 1000).unwrap(), 0);
    assert_eq!(calculate_interest(10_000, 0, 1000).unwrap(), 0);
    assert_eq!(calculate_interest(10_000, 500, 0).unwrap(), 0);
    assert_eq!(calculate_interest(-100, 500, 1000).unwrap(), 0);
    assert_eq!(calculate_interest(10_000, -500, 1000).unwrap(), 0);
}

#[test]
fn test_full_year_interest_calculation() {
    let interest = calculate_interest(100_000, 500, SECONDS_PER_YEAR as u64).unwrap();
    assert_eq!(interest, 5_000);
}

// Scenarios beyond the ones above.

#[test]
fn interest_formula_exact_values() {
    assert_eq!(calculate_interest(10_000, 500, 864_000).unwrap(), 13);
    assert_eq!(calculate_interest(1, 1, 1).unwrap(), 0);
    assert_eq!(calculate_interest(i128::MAX, 500, 2), Err(Error::Overflow));
}

#[test]
fn withdraw_by_someone_else_is_unauthorized() {
    let (mut c, id) = with_vault(86400, 0);
    c.deposit(&id, 100, 0).unwrap();
    assert_eq!(c.withdraw(&id, 7, 50, 100000), Err(Error::Unauthorized));
    assert_eq!(c.withdraw(&id, OWNER, 0, 100000), Err(Error::InvalidAmount));
    assert_eq!(c.get_balance(&id).unwrap(), 100);
    assert_eq!(c.get_vault(&id).unwrap().status, VaultStatus::Locked);
}

#[test]
fn first_withdrawal_after_maturity_marks_vault_unlocked() {
    let (mut c, id) = with_vault(86400, 0);
    c.deposit(&id, 100, 0).unwrap();
    c.withdraw(&id, OWNER, 10, 86400).unwrap();
    assert_eq!(c.get_vault(&id).unwrap().status, VaultStatus::Unlocked);
}

#[test]
fn lock_period_outside_configured_range_is_rejected() {
    let mut c = VaultContract::new();
    assert_eq!(c.create_vault(OWNER, TOKEN, SYMBOL, 157_788_001, 0), Err(Error::InvalidLockPeriod));
    assert_eq!(c.create_vault(OWNER, TOKEN, SYMBOL, 10, u64::MAX), Err(Error::Overflow));
    assert!(c.get_user_vaults(OWNER).unwrap().is_empty());
}

#[test]
fn vault_limit_per_user_is_enforced() {
    let mut c = initialized();
    let config = VaultConfig { max_vaults_per_user: 2, ..Default::default() };
    c.set_config(ADMIN, config).unwrap();
    let a = c.create_vault(OWNER, TOKEN, SYMBOL, 10, 0).unwrap();
    let b = c.create_vault(OWNER, TOKEN, SYMBOL, 10, 0).unwrap();
    assert_eq!(c.create_vault(OWNER, TOKEN, SYMBOL, 10, 0), Err(Error::InvalidParameters));
    assert_ne!(a, b);
    assert_eq!(c.get_user_vaults(OWNER).unwrap(), vec![a, b]);
    assert!(c.create_vault(101, TOKEN, SYMBOL, 10, 0).is_ok());
}

#[test]
fn vault_ids_count_up_big_endian() {
    let mut c = VaultContract::new();
    let a = c.create_vault(OWNER, TOKEN, SYMBOL, 10, 0).unwrap();
    let b = c.create_vault(OWNER, TOKEN, SYMBOL, 10, 0).unwrap();
    assert_eq!(a.as_bytes(), &first_vault_id_bytes());
    let mut second = [0u8; 32];
    second[7] = 2;
    assert_eq!(b, VaultId::new(second));
}

#[test]
fn lock_and_collateral_release_follow_status_rules() {
    let (mut c, id) = with_vault(86400, 0);
    assert_eq!(c.lock_vault(&id), Err(Error::InvalidParameters));
    c.unlock_collateral_vault(&id).unwrap();
    assert_eq!(c.unlock_collateral_vault(&id), Err(Error::InvalidParameters));
    assert_eq!(c.unlock_vault(&id, 90000), Err(Error::InvalidParameters));
    c.lock_vault(&id).unwrap();
    assert_eq!(c.get_vault(&id).unwrap().status, VaultStatus::Locked);
}

#[test]
fn ownership_transfer_moves_vault_between_lists() {
    let mut c = VaultContract::new();
    let a = c.create_vault(OWNER, TOKEN, SYMBOL, 10, 0).unwrap();
    let b = c.create_vault(OWNER, TOKEN, SYMBOL, 10, 0).unwrap();
    c.transfer_vault_ownership(&a, 101).unwrap();
    assert_eq!(c.get_user_vaults(OWNER).unwrap(), vec![b]);
    assert_eq!(c.get_user_vaults(101).unwrap(), vec![a]);
    assert_eq!(c.get_vault(&a).unwrap().status, VaultStatus::Active);
}

#[test]
fn deposit_into_unknown_vault_is_not_found() {
    let mut c = VaultContract::new();
    assert_eq!(c.deposit(&ghost_vault_id(), 5, 0), Err(Error::VaultNotFound));
    assert_eq!(c.check_deposit(&ghost_vault_id(), 5, 0), Err(Error::VaultNotFound));
}
