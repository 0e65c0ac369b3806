use vaulty::errors::Error;
use vaulty::lending::LendingContract;
use vaulty::borrowing::BorrowingContract;
use vaulty::types::{Asset, PoolStatus, VaultMetadata, VaultStatus};
use vaulty::vault::VaultContract;

const ADMIN: u64 = 1;
const LENDER: u64 = 10;
const LENDER_B: u64 = 11;
const BORROWER_CONTRACT: u64 = 100;
const OTHER_CONTRACT: u64 = 101;
const ONE: i128 = 1_000_000_000_000_000_000;

fn asset() -> [u8; 32] {
    [2u8; 32]
}

/// A contract with one pool at 5% a year, created at time zero.
fn setup() -> (LendingContract, [u8; 32]) {
    let mut c = LendingContract::new();
    let pool = c.create_pool(ADMIN, asset(), 500, 0).unwrap();
    (c, pool)
}

/// As `setup`, with the pool bound to `BORROWER_CONTRACT`.
fn setup_bound() -> (LendingContract, [u8; 32]) {
    let (mut c, pool) = setup();
    c.initialize_borrowing_contract(pool, ADMIN, BORROWER_CONTRACT).unwrap();
    (c, pool)
}

/// The fixture of the pool lifecycle tests: an initialized contract, a pool
/// at 8% a year and a bound borrowing contract.
fn lifecycle() -> (LendingContract, [u8; 32]) {
    let mut c = LendingContract::new();
    c.initialize(ADMIN).unwrap();
    let pool = c.create_pool(ADMIN, [0xABu8; 32], 800, 0).unwrap();
    c.initialize_borrowing_contract(pool, ADMIN, BORROWER_CONTRACT).unwrap();
    (c, pool)
}

// Pool creation

#[test]
fn test_pool_creation() {
    let (mut c, pool) = setup();
    let a = c.get_pool_accounting(pool, 0).unwrap();
    assert_eq!(a.total_assets, 0);
    assert_eq!(a.total_shares, 0);
    assert_eq!(a.available_liquidity, 0);
    assert_eq!(a.outstanding_debt, 0);
}

#[test]
fn test_pool_already_exists() {
    let (mut c, _pool) = setup();
    assert_eq!(c.create_pool(ADMIN, asset(), 500, 0), Err(Error::PoolAlreadyInitialized));
}

#[test]
fn test_invalid_interest_rate() {
    let mut c = LendingContract::new();
    assert_eq!(c.create_pool(ADMIN, asset(), -1, 0), Err(Error::InvalidInterestRate));
    assert_eq!(c.create_pool(ADMIN, asset(), 10001, 0), Err(Error::InvalidInterestRate));
}

#[test]
fn pool_id_is_the_asset_and_rate_is_stored() {
    let mut c = LendingContract::new();
    assert_eq!(c.create_pool(ADMIN, [7u8; 32], 10000, 0), Ok([7u8; 32]));
    assert_eq!(c.create_pool(ADMIN, [8u8; 32], 0, 0), Err(Error::InvalidInterestRate));
    assert_eq!(c.get_interest_rate(&[7u8; 32]), Ok(10000));
    assert_eq!(c.get_pool_accounting([7u8; 32], 0).unwrap().interest_index, ONE);
}

// Deposits and withdrawals

#[test]
fn test_single_deposit() {
    let (mut c, pool) = setup();
    assert_eq!(c.deposit(pool, LENDER, 1000, 0), Ok(1000));
    let a = c.get_pool_accounting(pool, 0).unwrap();
    assert_eq!(a.total_assets, 1000);
    assert_eq!(a.total_shares, 1000);
    assert_eq!(a.available_liquidity, 1000);
    assert_eq!(c.get_share_balance(pool, LENDER, 0).unwrap().shares, 1000);
}

#[test]
fn test_multiple_suppliers() {
    let (mut c, pool) = setup();
    c.deposit(pool, LENDER, 1000, 0).unwrap();
    c.deposit(pool, LENDER_B, 500, 0).unwrap();
    let a = c.get_pool_accounting(pool, 0).unwrap();
    assert_eq!(a.total_assets, 1500);
    assert_eq!(a.total_shares, 1500);
    assert_eq!(a.available_liquidity, 1500);
    assert_eq!(c.get_share_balance(pool, LENDER_B, 0).unwrap().shares, 500);
}

#[test]
fn test_withdrawal() {
    let (mut c, pool) = setup();
    c.deposit(pool, LENDER, 1000, 0).unwrap();
    assert_eq!(c.withdraw(pool, LENDER, 500, 0), Ok(500));
    let a = c.get_pool_accounting(pool, 0).unwrap();
    assert_eq!(a.total_assets, 500);
    assert_eq!(a.total_shares, 500);
    assert_eq!(a.available_liquidity, 500);
    assert_eq!(c.get_share_balance(pool, LENDER, 0).unwrap().shares, 500);
}

#[test]
fn test_partial_redemption() {
    let (mut c, pool) = setup();
    c.deposit(pool, LENDER, 1000, 0).unwrap();
    c.withdraw(pool, LENDER, 250, 0).unwrap();
    let a = c.get_pool_accounting(pool, 0).unwrap();
    assert_eq!(a.total_assets, 750);
    assert_eq!(a.total_shares, 750);
}

#[test]
fn test_withdraw_insufficient_shares() {
    let (mut c, pool) = setup();
    c.deposit(pool, LENDER, 1000, 0).unwrap();
    assert_eq!(c.withdraw(pool, LENDER, 1500, 0), Err(Error::InsufficientShares));
}

#[test]
fn test_withdraw_insufficient_liquidity() {
    let (mut c, pool) = setup_bound();
    c.deposit(pool, LENDER, 1000, 0).unwrap();
    c.borrow(pool, BORROWER_CONTRACT, 800, 0).unwrap();
    assert_eq!(c.get_pool_accounting(pool, 0).unwrap().available_liquidity, 200);
    assert_eq!(c.withdraw(pool, LENDER, 500, 0), Err(Error::InsufficientLiquidity));
}

#[test]
fn test_zero_liquidity_withdrawal() {
    let (mut c, pool) = setup_bound();
    c.deposit(pool, LENDER, 1000, 0).unwrap();
    c.borrow(pool, BORROWER_CONTRACT, 1000, 0).unwrap();
    assert_eq!(c.withdraw(pool, LENDER, 100, 0), Err(Error::InsufficientLiquidity));
}

#[test]
fn withdraw_without_position_or_with_bad_amount() {
    let (mut c, pool) = setup();
    c.deposit(pool, LENDER, 1000, 0).unwrap();
    assert_eq!(c.withdraw(pool, LENDER_B, 1, 0), Err(Error::InsufficientShares));
    assert_eq!(c.withdraw(pool, LENDER, 0, 0), Err(Error::InvalidAmount));
    assert_eq!(c.withdraw([9u8; 32], LENDER, 1, 0), Err(Error::PoolNotFound));
}

// Interest accrual

#[test]
fn test_long_time_jump() {
    let (mut c, pool) = setup_bound();
    c.deposit(pool, LENDER, 1000, 0).unwrap();
    c.borrow(pool, BORROWER_CONTRACT, 500, 0).unwrap();
    c.deposit(pool, LENDER, 100, 31_536_000).unwrap();
    let a = c.get_pool_accounting(pool, 31_536_000).unwrap();
    assert!(a.accrued_interest > 0);
}

#[test]
fn test_interest_accrual() {
    let (mut c, pool) = setup_bound();
    c.deposit(pool, LENDER, 1000, 0).unwrap();
    c.borrow(pool, BORROWER_CONTRACT, 500, 0).unwrap();
    c.deposit(pool, LENDER, 100, 86_400).unwrap();
    let a = c.get_pool_accounting(pool, 86_400).unwrap();
    assert!(a.accrued_interest > 0);
    assert!(a.interest_index > 1_000_000_000_000_000_000);
}

#[test]
fn one_year_on_debt_accrues_its_rate() {
    let (mut c, pool) = setup_bound();
    c.deposit(pool, LENDER, 1000, 0).unwrap();
    c.borrow(pool, BORROWER_CONTRACT, 500, 0).unwrap();
    let a = c.get_pool_accounting(pool, 31_536_000).unwrap();
    // 500 at 5% for a year is 25 (rounded up from just under 25).
    assert_eq!(a.accrued_interest, 25);
    // The index grew by the per-second rate over the year.
    assert_eq!(a.interest_index, ONE + 1_585_489_599 * 31_536_000);
}

#[test]
fn a_day_of_interest_rounds_up() {
    let (mut c, pool) = setup_bound();
    c.deposit(pool, LENDER, 1000, 0).unwrap();
    c.borrow(pool, BORROWER_CONTRACT, 500, 0).unwrap();
    let a = c.get_pool_accounting(pool, 86_400).unwrap();
    assert!(a.interest_index > ONE);
    // A day's interest on 500 at 5% is below one token and is owed as one.
    assert_eq!(a.accrued_interest, 1);
    // Accruing again at the same time adds nothing.
    assert_eq!(c.get_pool_accounting(pool, 86_400).unwrap(), a);
}

#[test]
fn test_user_interest_calculation() {
    let (mut c, pool) = setup_bound();
    c.deposit(pool, LENDER, 1000, 0).unwrap();
    c.borrow(pool, BORROWER_CONTRACT, 500, 0).unwrap();
    c.deposit(pool, LENDER, 100, 86_400).unwrap();
    let interest = c.calculate_interest(pool, LENDER, 86_400).unwrap();
    assert!(interest >= 0);
}

#[test]
fn lender_interest_follows_the_index() {
    let (mut c, pool) = setup();
    c.deposit(pool, LENDER, 1_000_000, 0).unwrap();
    // The index grows at the pool's rate even without debt: 5% over a year.
    let interest = c.calculate_interest(pool, LENDER, 31_536_000).unwrap();
    assert_eq!(interest, 1_000_000 * (1_585_489_599 * 31_536_000) / ONE);
    assert_eq!(c.calculate_interest(pool, LENDER_B, 31_536_000), Err(Error::InsufficientShares));
}

// Input validation

#[test]
fn test_arithmetic_limits() {
    let (mut c, pool) = setup();
    assert_eq!(c.deposit(pool, LENDER, -100, 0), Err(Error::InvalidAmount));
    assert_eq!(c.deposit(pool, LENDER, 0, 0), Err(Error::InvalidAmount));
}

#[test]
fn test_pool_not_found() {
    let mut c = LendingContract::new();
    assert_eq!(c.deposit([1u8; 32], LENDER, 1000, 0), Err(Error::PoolNotFound));
    assert_eq!(c.get_pool_balance([1u8; 32], 0), Err(Error::PoolNotFound));
}

// Debt tracking

#[test]
fn test_debt_tracking() {
    let (mut c, pool) = setup_bound();
    c.deposit(pool, LENDER, 1000, 0).unwrap();
    c.update_debt(pool, BORROWER_CONTRACT, 300, 0).unwrap();
    let a = c.get_pool_accounting(pool, 0).unwrap();
    assert_eq!(a.outstanding_debt, 300);
    assert_eq!(a.available_liquidity, 700);
    c.update_debt(pool, BORROWER_CONTRACT, -100, 0).unwrap();
    let a = c.get_pool_accounting(pool, 0).unwrap();
    assert_eq!(a.outstanding_debt, 200);
    assert_eq!(a.available_liquidity, 800);
}

/// A pool at 10% a year bound to `BORROWER_CONTRACT`.
fn token_pool() -> (LendingContract, [u8; 32]) {
    let mut c = LendingContract::new();
    let pool = c.create_pool(ADMIN, asset(), 1000, 0).unwrap();
    c.initialize_borrowing_contract(pool, ADMIN, BORROWER_CONTRACT).unwrap();
    (c, pool)
}

#[test]
fn test_borrow_successful() {
    let (mut c, pool) = token_pool();
    let deposit_amount = 100_000;
    c.deposit(pool, LENDER, deposit_amount, 0).unwrap();
    let borrow_amount = 50_000;
    c.borrow(pool, BORROWER_CONTRACT, borrow_amount, 0).unwrap();
    let a = c.get_pool_accounting(pool, 0).unwrap();
    assert_eq!(a.available_liquidity, deposit_amount - borrow_amount);
    assert_eq!(a.outstanding_debt, borrow_amount);
}

#[test]
fn test_borrow_insufficient_liquidity() {
    let (mut c, pool) = token_pool();
    let borrow_amount = 50_000;
    let result = c.borrow(pool, BORROWER_CONTRACT, borrow_amount, 0);
    assert!(result.is_err());
}

#[test]
fn borrow_beyond_liquidity_or_without_amount_is_refused() {
    let (mut c, pool) = setup_bound();
    c.deposit(pool, LENDER, 1000, 0).unwrap();
    assert_eq!(c.borrow(pool, BORROWER_CONTRACT, 1001, 0), Err(Error::InsufficientLiquidity));
    assert_eq!(c.borrow(pool, BORROWER_CONTRACT, 0, 0), Err(Error::InvalidAmount));
}

#[test]
fn repay_returns_principal_and_interest_to_the_pool() {
    let (mut c, pool) = token_pool();
    c.deposit(pool, LENDER, 100_000, 0).unwrap();
    c.borrow(pool, BORROWER_CONTRACT, 50_000, 0).unwrap();
    c.repay(pool, BORROWER_CONTRACT, 50_000, 100, 0).unwrap();
    let a = c.get_pool_accounting(pool, 0).unwrap();
    assert_eq!(a.available_liquidity, 100_100);
    assert_eq!(a.outstanding_debt, 0);
    assert_eq!(a.accrued_interest, 100);
}

// Borrowing-contract authorization

#[test]
fn initialize_succeeds_for_pool_admin() {
    let (mut c, pool) = setup();
    c.initialize_borrowing_contract(pool, ADMIN, BORROWER_CONTRACT).unwrap();
    assert_eq!(c.get_borrowing_contract(&pool), Ok(BORROWER_CONTRACT));
}

#[test]
fn initialize_fails_for_non_admin() {
    let (mut c, pool) = setup();
    assert_eq!(
        c.initialize_borrowing_contract(pool, 99, BORROWER_CONTRACT),
        Err(Error::Unauthorized)
    );
    assert_eq!(c.get_borrowing_contract(&pool), Err(Error::NotInitialized));
}

#[test]
fn initialize_fails_for_nonexistent_pool() {
    let (mut c, _pool) = setup();
    assert_eq!(
        c.initialize_borrowing_contract([99u8; 32], ADMIN, BORROWER_CONTRACT),
        Err(Error::PoolNotFound)
    );
}

#[test]
fn initialize_immutable_after_first_call() {
    let (mut c, pool) = setup();
    c.initialize_borrowing_contract(pool, ADMIN, BORROWER_CONTRACT).unwrap();
    assert_eq!(
        c.initialize_borrowing_contract(pool, ADMIN, OTHER_CONTRACT),
        Err(Error::AlreadyInitialized)
    );
    assert_eq!(c.get_borrowing_contract(&pool), Ok(BORROWER_CONTRACT));
}

#[test]
fn authorized_borrowing_contract_can_borrow() {
    let (mut c, pool) = setup_bound();
    c.deposit(pool, LENDER, 10_000, 0).unwrap();
    c.borrow(pool, BORROWER_CONTRACT, 3_000, 0).unwrap();
    let a = c.get_pool_accounting(pool, 0).unwrap();
    assert_eq!(a.outstanding_debt, 3_000);
    assert_eq!(a.available_liquidity, 7_000);
}

#[test]
fn direct_user_borrow_rejected() {
    let (mut c, pool) = setup_bound();
    c.deposit(pool, LENDER, 10_000, 0).unwrap();
    assert_eq!(c.borrow(pool, LENDER, 1_000, 0), Err(Error::Unauthorized));
}

#[test]
fn borrow_rejected_when_no_contract_configured() {
    let (mut c, pool) = setup();
    c.deposit(pool, LENDER, 10_000, 0).unwrap();
    assert_eq!(c.borrow(pool, BORROWER_CONTRACT, 1_000, 0), Err(Error::Unauthorized));
}

#[test]
fn borrow_rejected_for_wrong_contract() {
    let (mut c, pool) = setup_bound();
    c.deposit(pool, LENDER, 10_000, 0).unwrap();
    assert_eq!(c.borrow(pool, OTHER_CONTRACT, 1_000, 0), Err(Error::Unauthorized));
}

#[test]
fn authorized_borrowing_contract_can_repay() {
    let (mut c, pool) = setup_bound();
    c.deposit(pool, LENDER, 10_000, 0).unwrap();
    c.borrow(pool, BORROWER_CONTRACT, 5_000, 0).unwrap();
    c.repay(pool, BORROWER_CONTRACT, 2_000, 100, 0).unwrap();
    let a = c.get_pool_accounting(pool, 0).unwrap();
    assert_eq!(a.outstanding_debt, 3_000);
    assert_eq!(a.accrued_interest, 100);
    assert_eq!(a.available_liquidity, 7_100);
}

#[test]
fn direct_user_repay_rejected() {
    let (mut c, pool) = setup_bound();
    c.deposit(pool, LENDER, 10_000, 0).unwrap();
    c.borrow(pool, BORROWER_CONTRACT, 5_000, 0).unwrap();
    assert_eq!(c.repay(pool, LENDER, 1_000, 50, 0), Err(Error::Unauthorized));
}

#[test]
fn repay_needs_positive_amounts() {
    let (mut c, pool) = setup_bound();
    assert_eq!(c.repay(pool, BORROWER_CONTRACT, 1_000, 0, 0), Err(Error::InvalidAmount));
    assert_eq!(c.repay(pool, BORROWER_CONTRACT, 0, 10, 0), Err(Error::InvalidAmount));
    assert_eq!(c.repay([9u8; 32], BORROWER_CONTRACT, 1, 1, 0), Err(Error::PoolNotFound));
}

#[test]
fn authorized_borrowing_contract_can_update_debt() {
    let (mut c, pool) = setup_bound();
    c.deposit(pool, LENDER, 10_000, 0).unwrap();
    c.update_debt(pool, BORROWER_CONTRACT, 4_000, 0).unwrap();
    let a = c.get_pool_accounting(pool, 0).unwrap();
    assert_eq!(a.outstanding_debt, 4_000);
    assert_eq!(a.available_liquidity, 6_000);
}

#[test]
fn direct_user_update_debt_rejected() {
    let (mut c, pool) = setup_bound();
    c.deposit(pool, LENDER, 10_000, 0).unwrap();
    assert_eq!(c.update_debt(pool, LENDER, 1_000, 0), Err(Error::Unauthorized));
}

#[test]
fn public_read_endpoints_unaffected() {
    let (mut c, pool) = setup_bound();
    c.deposit(pool, LENDER, 5_000, 0).unwrap();
    assert_eq!(c.get_pool_accounting(pool, 0).unwrap().total_assets, 5_000);
    assert_eq!(c.get_pool_balance(pool, 0), Ok(5_000));
    assert_eq!(c.get_share_balance(pool, LENDER, 0).unwrap().shares, 5_000);
    assert_eq!(c.get_interest_rate(&pool), Ok(500));
    assert_eq!(c.get_borrowing_contract(&pool), Ok(BORROWER_CONTRACT));
    assert_eq!(c.get_pool_status(&pool), Ok(PoolStatus::Active));
}

// Pool lifecycle

#[test]
fn pool_creation_initializes_accounting_to_zero() {
    let (mut c, pool) = lifecycle();
    let a = c.get_pool_accounting(pool, 0).unwrap();
    assert_eq!(a.total_assets, 0);
    assert_eq!(a.total_shares, 0);
    assert_eq!(a.available_liquidity, 0);
    assert_eq!(a.outstanding_debt, 0);
    assert_eq!(a.accrued_interest, 0);
}

#[test]
fn first_deposit_credits_assets_and_shares_one_to_one() {
    let (mut c, pool) = lifecycle();
    c.deposit(pool, LENDER, 1_000, 0).unwrap();
    let a = c.get_pool_accounting(pool, 0).unwrap();
    assert_eq!(a.total_assets, 1_000);
    assert_eq!(a.total_shares, 1_000);
    assert_eq!(a.available_liquidity, 1_000);
    assert_eq!(a.outstanding_debt, 0);
    assert_eq!(c.get_share_balance(pool, LENDER, 0).unwrap().shares, 1_000);
}

#[test]
fn debt_increase_reduces_available_liquidity() {
    let (mut c, pool) = lifecycle();
    c.deposit(pool, LENDER, 1_000, 0).unwrap();
    c.update_debt(pool, BORROWER_CONTRACT, 600, 0).unwrap();
    let a = c.get_pool_accounting(pool, 0).unwrap();
    assert_eq!(a.available_liquidity, 400);
    assert_eq!(a.outstanding_debt, 600);
    assert_eq!(a.total_assets, 1_000);
    assert_eq!(a.total_shares, 1_000);
}

#[test]
fn second_deposit_adds_liquidity_while_pool_has_debt() {
    let (mut c, pool) = lifecycle();
    c.deposit(pool, LENDER, 1_000, 0).unwrap();
    c.update_debt(pool, BORROWER_CONTRACT, 600, 0).unwrap();
    c.deposit(pool, LENDER_B, 500, 0).unwrap();
    let a = c.get_pool_accounting(pool, 0).unwrap();
    assert_eq!(a.total_assets, 1_500);
    assert_eq!(a.available_liquidity, 900);
    assert_eq!(a.outstanding_debt, 600);
    assert!(c.get_share_balance(pool, LENDER_B, 0).unwrap().shares > 0);
}

#[test]
fn partial_debt_repayment_restores_liquidity() {
    let (mut c, pool) = lifecycle();
    c.deposit(pool, LENDER, 1_000, 0).unwrap();
    c.update_debt(pool, BORROWER_CONTRACT, 600, 0).unwrap();
    c.update_debt(pool, BORROWER_CONTRACT, -250, 0).unwrap();
    let a = c.get_pool_accounting(pool, 0).unwrap();
    assert_eq!(a.outstanding_debt, 350);
    assert_eq!(a.available_liquidity, 650);
    assert_eq!(a.total_assets, 1_000);
    assert_eq!(a.total_shares, 1_000);
}

#[test]
fn over_withdrawal_blocked_when_insufficient_liquidity() {
    let (mut c, pool) = lifecycle();
    c.deposit(pool, LENDER, 1_000, 0).unwrap();
    c.update_debt(pool, BORROWER_CONTRACT, 800, 0).unwrap();
    let before = c.get_pool_accounting(pool, 0).unwrap();
    assert_eq!(before.available_liquidity, 200);
    assert_eq!(c.withdraw(pool, LENDER, 500, 0), Err(Error::InsufficientLiquidity));
    let after = c.get_pool_accounting(pool, 0).unwrap();
    assert_eq!(after.total_assets, before.total_assets);
    assert_eq!(after.total_shares, before.total_shares);
    assert_eq!(after.available_liquidity, before.available_liquidity);
    assert_eq!(after.outstanding_debt, before.outstanding_debt);
    assert_eq!(c.get_share_balance(pool, LENDER, 0).unwrap().shares, 1_000);
}

#[test]
fn withdrawal_within_liquid_balance_succeeds() {
    let (mut c, pool) = lifecycle();
    c.deposit(pool, LENDER, 1_000, 0).unwrap();
    c.update_debt(pool, BORROWER_CONTRACT, 600, 0).unwrap();
    c.withdraw(pool, LENDER, 300, 0).unwrap();
    let a = c.get_pool_accounting(pool, 0).unwrap();
    assert_eq!(a.total_assets, 700);
    assert_eq!(a.total_shares, 700);
    assert_eq!(a.available_liquidity, 100);
    assert_eq!(a.outstanding_debt, 600);
    assert_eq!(c.get_share_balance(pool, LENDER, 0).unwrap().shares, 700);
}

#[test]
fn full_pool_lifecycle() {
    let (mut c, pool) = lifecycle();
    c.deposit(pool, LENDER, 2_000, 0).unwrap();
    let a = c.get_pool_accounting(pool, 0).unwrap();
    assert_eq!(a.total_assets, 2_000);
    assert_eq!(a.available_liquidity, 2_000);
    assert_eq!(a.outstanding_debt, 0);
    c.update_debt(pool, BORROWER_CONTRACT, 1_200, 0).unwrap();
    let a = c.get_pool_accounting(pool, 0).unwrap();
    assert_eq!(a.available_liquidity, 800);
    assert_eq!(a.outstanding_debt, 1_200);
    c.deposit(pool, LENDER_B, 500, 0).unwrap();
    let a = c.get_pool_accounting(pool, 0).unwrap();
    assert_eq!(a.total_assets, 2_500);
    assert_eq!(a.available_liquidity, 1_300);
    c.update_debt(pool, BORROWER_CONTRACT, -700, 0).unwrap();
    let a = c.get_pool_accounting(pool, 0).unwrap();
    assert_eq!(a.outstanding_debt, 500);
    assert_eq!(a.available_liquidity, 2_000);
    c.withdraw(pool, LENDER, 400, 0).unwrap();
    let a = c.get_pool_accounting(pool, 0).unwrap();
    assert_eq!(a.total_assets, 2_100);
    assert_eq!(a.available_liquidity, 1_600);
    assert_eq!(a.outstanding_debt, 500);
    assert_eq!(c.get_share_balance(pool, LENDER, 0).unwrap().shares, 1_600);
}

#[test]
fn contract_admin_is_set_once() {
    let mut c = LendingContract::new();
    assert_eq!(c.initialize(ADMIN), Ok(()));
    assert_eq!(c.initialize(LENDER), Err(Error::AlreadyInitialized));
}

// Withdrawals against liquidity

#[test]
fn withdraw_blocked_when_insufficient_liquidity() {
    let (mut c, pool) = setup_bound();
    c.deposit(pool, LENDER, 1000, 0).unwrap();
    c.borrow(pool, BORROWER_CONTRACT, 800, 0).unwrap();
    let before = c.get_pool_accounting(pool, 0).unwrap();
    assert_eq!(before.available_liquidity, 200);
    assert_eq!(before.outstanding_debt, 800);
    assert_eq!(c.withdraw(pool, LENDER, 500, 0), Err(Error::InsufficientLiquidity));
    assert_eq!(c.get_share_balance(pool, LENDER, 0).unwrap().shares, 1000);
    let after = c.get_pool_accounting(pool, 0).unwrap();
    assert_eq!(after.total_assets, before.total_assets);
    assert_eq!(after.total_shares, before.total_shares);
    assert_eq!(after.available_liquidity, before.available_liquidity);
    assert_eq!(after.outstanding_debt, before.outstanding_debt);
}

#[test]
fn withdraw_succeeds_when_liquidity_sufficient() {
    let (mut c, pool) = setup_bound();
    c.deposit(pool, LENDER, 1000, 0).unwrap();
    c.borrow(pool, BORROWER_CONTRACT, 800, 0).unwrap();
    c.withdraw(pool, LENDER, 150, 0).unwrap();
    assert_eq!(c.get_share_balance(pool, LENDER, 0).unwrap().shares, 850);
    let a = c.get_pool_accounting(pool, 0).unwrap();
    assert_eq!(a.total_assets, 850);
    assert_eq!(a.total_shares, 850);
    assert_eq!(a.available_liquidity, 50);
    assert_eq!(a.outstanding_debt, 800);
}

#[test]
fn withdraw_succeeds_when_no_outstanding_debt() {
    let (mut c, pool) = setup();
    c.deposit(pool, LENDER, 1000, 0).unwrap();
    let before = c.get_pool_accounting(pool, 0).unwrap();
    assert_eq!(before.available_liquidity, 1000);
    assert_eq!(before.outstanding_debt, 0);
    c.withdraw(pool, LENDER, 1000, 0).unwrap();
    let a = c.get_pool_accounting(pool, 0).unwrap();
    assert_eq!(a.total_assets, 0);
    assert_eq!(a.total_shares, 0);
    assert_eq!(a.available_liquidity, 0);
    assert_eq!(a.outstanding_debt, 0);
    assert_eq!(c.get_share_balance(pool, LENDER, 0), Err(Error::InsufficientShares));
}

// Emergency stop, rate limit and status

#[test]
fn test_emergency_stop_integration() {
    let (mut c, pool) = setup();
    c.grant_admin(ADMIN, 0).unwrap();
    c.trigger_emergency_stop(pool, ADMIN, [0u8; 32], 0).unwrap();
    assert_eq!(c.deposit(pool, LENDER, 1000, 0), Err(Error::EmergencyStopActive));
    assert_eq!(c.get_pool_status(&pool), Ok(PoolStatus::Emergency));
    c.lift_emergency_stop(pool, ADMIN).unwrap();
    assert_eq!(c.deposit(pool, LENDER, 1000, 0), Ok(1000));
    assert_eq!(c.get_pool_status(&pool), Ok(PoolStatus::Active));
}

#[test]
fn emergency_controls_need_the_admin_role() {
    let (mut c, pool) = setup();
    assert_eq!(c.trigger_emergency_stop(pool, ADMIN, [0u8; 32], 0), Err(Error::PermissionDenied));
    assert_eq!(c.lift_emergency_stop(pool, ADMIN), Err(Error::PermissionDenied));
    assert_eq!(c.set_pool_status(pool, ADMIN, PoolStatus::Paused), Err(Error::PermissionDenied));
    assert_eq!(c.check_emergency_stop(&pool), Ok(()));
    c.grant_admin(ADMIN, 0).unwrap();
    c.set_pool_status(pool, ADMIN, PoolStatus::Paused).unwrap();
    assert_eq!(c.get_pool_status(&pool), Ok(PoolStatus::Paused));
    c.trigger_emergency_stop(pool, ADMIN, [1u8; 32], 5).unwrap();
    assert_eq!(c.check_emergency_stop(&pool), Err(Error::EmergencyStopActive));
}

#[test]
fn test_rate_limiting_integration() {
    let (mut c, pool) = setup();
    c.set_rate_limit(pool, 5, 60).unwrap();
    for _ in 0..5 {
        c.deposit(pool, LENDER, 100, 0).unwrap();
    }
    assert_eq!(c.deposit(pool, LENDER, 100, 0), Err(Error::RateLimitExceeded));
    // A new window opens once the period has run out.
    assert_eq!(c.deposit(pool, LENDER, 100, 60), Ok(100));
}

#[test]
fn rate_limit_counts_operations() {
    let (mut c, pool) = setup();
    c.set_rate_limit(pool, 2, 10).unwrap();
    assert_eq!(c.check_rate_limit(pool, 0), Ok(()));
    assert_eq!(c.check_rate_limit(pool, 5), Ok(()));
    assert_eq!(c.check_rate_limit(pool, 9), Err(Error::RateLimitExceeded));
    assert_eq!(c.check_rate_limit(pool, 10), Ok(()));
}

#[test]
fn test_multi_contract_user_flow() {
    let (mut c, pool) = setup();
    c.deposit(pool, LENDER, 5000, 0).unwrap();
    let mut vaults = VaultContract::new();
    let vault_id = vaults.create_vault(LENDER, 300, asset(), 86_400, 0).unwrap();
    vaults.deposit(&vault_id, 3000, 0).unwrap();
    assert_eq!(c.get_pool_balance(pool, 0), Ok(5000));
    assert_eq!(vaults.get_balance(&vault_id), Ok(3000));
}

// Laws on concrete values

#[test]
fn shares_add_up_across_lenders() {
    let (mut c, pool) = setup();
    c.deposit(pool, LENDER, 700, 0).unwrap();
    c.deposit(pool, LENDER_B, 300, 0).unwrap();
    c.withdraw(pool, LENDER, 200, 0).unwrap();
    let a = c.get_pool_accounting(pool, 0).unwrap();
    let sum = c.get_share_balance(pool, LENDER, 0).unwrap().shares
        + c.get_share_balance(pool, LENDER_B, 0).unwrap().shares;
    assert_eq!(a.total_shares, sum);
    assert_eq!(a.total_assets, a.total_shares);
}

#[test]
fn deposit_then_withdraw_pays_back() {
    let (mut c, pool) = setup_bound();
    c.deposit(pool, LENDER, 1000, 0).unwrap();
    c.borrow(pool, BORROWER_CONTRACT, 300, 0).unwrap();
    let before = c.get_pool_accounting(pool, 100).unwrap();
    let minted = c.deposit(pool, LENDER_B, 400, 100).unwrap();
    assert_eq!(c.withdraw(pool, LENDER_B, minted, 100), Ok(400));
    let after = c.get_pool_accounting(pool, 100).unwrap();
    assert_eq!(after.total_assets, before.total_assets);
    assert_eq!(after.total_shares, before.total_shares);
    assert_eq!(after.available_liquidity, before.available_liquidity);
    assert_eq!(c.get_share_balance(pool, LENDER_B, 100), Err(Error::InsufficientShares));
}

#[test]
fn borrow_and_rebook_keep_liquidity_plus_debt() {
    let (mut c, pool) = setup_bound();
    c.deposit(pool, LENDER, 1000, 0).unwrap();
    c.borrow(pool, BORROWER_CONTRACT, 250, 0).unwrap();
    c.update_debt(pool, BORROWER_CONTRACT, 100, 0).unwrap();
    c.update_debt(pool, BORROWER_CONTRACT, -50, 0).unwrap();
    let a = c.get_pool_accounting(pool, 0).unwrap();
    assert_eq!(a.available_liquidity + a.outstanding_debt, 1000);
    assert_eq!(a.outstanding_debt, 300);
}

#[test]
fn lending_pool_and_loan_book_together() {
    let (mut pools, pool) = setup_bound();
    pools.deposit(pool, LENDER, 10_000, 0).unwrap();
    let mut loans = BorrowingContract::new();
    loans.initialize(BORROWER_CONTRACT, 60).unwrap();
    let vault_id = [9u8; 32];
    loans.configure_collateral(vault_id, 8_000, 7_500, 9_500).unwrap();
    let vault = VaultMetadata {
        owner: 200,
        asset: Asset { token: 300, symbol: asset(), code: asset(), issuer: 200 },
        lock_period: 0,
        created_at: 0,
        unlock_time: 0,
        status: VaultStatus::Active,
    };
    let loan_id = [3u8; 32];
    let accounting = pools.get_pool_accounting(pool, 0).unwrap();
    loans.borrow(loan_id, 200, vault_id, 5_000, vault, 8_000, accounting, 0).unwrap();
    pools.update_debt(pool, BORROWER_CONTRACT, 5_000, 0).unwrap();
    let a = pools.get_pool_accounting(pool, 0).unwrap();
    assert_eq!(a.total_assets, 10_000);
    assert_eq!(a.outstanding_debt, 5_000);
    assert_eq!(a.available_liquidity, 5_000);
    let loan = loans.get_loan(&loan_id).unwrap();
    assert_eq!(loan.borrow_amount, 5_000);
    assert_eq!(loan.collateral_amount, 8_000);
    loans.repay(&loan_id, 200, 2_000, 0, 0, 0).unwrap();
    pools.update_debt(pool, BORROWER_CONTRACT, -2_000, 0).unwrap();
    let a = pools.get_pool_accounting(pool, 0).unwrap();
    assert_eq!(a.outstanding_debt, 3_000);
    assert_eq!(a.available_liquidity, 7_000);
}
