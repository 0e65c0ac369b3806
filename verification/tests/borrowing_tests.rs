use vaulty::borrowing::{is_loan_undercollateralized, BorrowingContract, COLLATERAL_RATIO_BPS};
use vaulty::errors::Error;
use vaulty::types::{Asset, LoanInfo, LoanStatus, PoolAccounting, VaultMetadata, VaultStatus};

const POOL: u64 = 50;
const VAULTS: u64 = 60;
const BORROWER: u64 = 100;
const TOKEN: u64 = 300;
const VAULT_ID: [u8; 32] = [0, 0, 0, 0, 0, 0, 0, 1, 0, 0, 0, 0, 0, 0, 0, 0, 0, 0, 0, 0, 0, 0, 0, 0, 0, 0, 0, 0, 0, 0, 0, 0];
const LOAN_ID: [u8; 32] = [3u8; 32];

fn active_vault(owner: u64) -> VaultMetadata {
    VaultMetadata {
        owner,
        asset: Asset { token: TOKEN, symbol: [0u8; 32], code: [0u8; 32], issuer: owner },
        lock_period: 0,
        created_at: 0,
        unlock_time: 0,
        status: VaultStatus::Active,
    }
}

fn pool_with(liquidity: i128) -> PoolAccounting {
    PoolAccounting {
        total_assets: liquidity,
        total_shares: liquidity,
        available_liquidity: liquidity,
        outstanding_debt: 0,
        accrued_interest: 0,
        interest_index: 0,
    }
}

/// A loan of 5000 against 8000 of collateral, as opened through `borrow`.
fn setup_with_loan() -> BorrowingContract {
    let mut c = BorrowingContract::new();
    c.initialize(POOL, VAULTS).unwrap();
    c.configure_collateral(VAULT_ID, 8_000, 7_500, 9_500).unwrap();
    c.borrow(LOAN_ID, BORROWER, VAULT_ID, 5_000, active_vault(BORROWER), 8_000, pool_with(10_000), 0)
        .unwrap();
    assert_eq!(c.get_loan(&LOAN_ID).unwrap().collateral_amount, 8_000);
    c
}

#[test]
fn test_add_collateral_transfers_tokens_into_vault() {
    let mut c = setup_with_loan();
    c.add_collateral(&LOAN_ID, 500, 10).unwrap();
    let loan = c.get_loan(&LOAN_ID).unwrap();
    assert_eq!(loan.collateral_amount, 8_500);
    assert_eq!(loan.last_updated, 10);
}

#[test]
fn test_add_collateral_invalid_amount() {
    let mut c = setup_with_loan();
    assert_eq!(c.add_collateral(&LOAN_ID, 0, 10), Err(Error::InvalidAmount));
    assert_eq!(c.add_collateral(&LOAN_ID, -100, 10), Err(Error::InvalidAmount));
    assert_eq!(c.get_loan(&LOAN_ID).unwrap().collateral_amount, 8_000);
}

#[test]
fn test_add_collateral_loan_not_found() {
    let mut c = setup_with_loan();
    assert_eq!(c.add_collateral(&[9u8; 32], 100, 10), Err(Error::LoanNotFound));
}

#[test]
fn test_placeholder() {
    let c = BorrowingContract::new();
    assert_eq!(c.get_loan_count(), Ok(0));
}

#[test]
fn different_borrowers_same_timestamp_and_vault_get_different_loan_ids() {
    let mut c = BorrowingContract::new();
    let vault = [7u8; 32];
    let borrower_a = 100;
    let borrower_b = 101;
    let loan_a = c.create_loan(borrower_a, vault, 2_000, 1_000, 1_000_000).unwrap();
    let loan_b = c.create_loan(borrower_b, vault, 2_000, 1_000, 1_000_000).unwrap();
    assert_ne!(loan_a.loan_id, loan_b.loan_id, "loan IDs must differ across borrowers even with identical timestamp and vault");
    assert_eq!(loan_a.borrower, borrower_a);
    assert_eq!(loan_b.borrower, borrower_b);
}

#[test]
fn loan_id_derivation_is_deterministic_for_identical_inputs() {
    let vault = [9u8; 32];
    let mut c1 = BorrowingContract::new();
    let loan_1 = c1.create_loan(BORROWER, vault, 2_000, 1_000, 2_000_000).unwrap();
    let mut c2 = BorrowingContract::new();
    let loan_2 = c2.create_loan(BORROWER, vault, 2_000, 1_000, 2_000_000).unwrap();
    assert_eq!(loan_1.loan_id, loan_2.loan_id);
}

#[test]
fn duplicate_loan_protection_is_retained_for_the_same_borrower() {
    let mut c = BorrowingContract::new();
    let vault = [3u8; 32];
    c.create_loan(BORROWER, vault, 2_000, 1_000, 3_000_000).unwrap();
    assert_eq!(
        c.create_loan(BORROWER, vault, 2_000, 1_000, 3_000_000),
        Err(Error::LoanAlreadyExists)
    );
}

// Scenarios beyond the ones above.

#[test]
fn borrow_checks_in_order() {
    let mut c = BorrowingContract::new();
    let vault = active_vault(BORROWER);
    let pool = pool_with(10_000);
    assert_eq!(c.borrow(LOAN_ID, BORROWER, VAULT_ID, 0, vault, 8_000, pool, 0), Err(Error::InvalidAmount));
    assert_eq!(c.borrow(LOAN_ID, BORROWER, VAULT_ID, 10, vault, 8_000, pool, 0), Err(Error::InvalidCollateral));
    c.configure_collateral(VAULT_ID, 8_000, 7_500, 9_500).unwrap();
    assert_eq!(c.borrow(LOAN_ID, BORROWER, VAULT_ID, 10, vault, 8_000, pool, 0), Err(Error::NotInitialized));
    c.initialize(POOL, VAULTS).unwrap();
    assert_eq!(c.borrow(LOAN_ID, 7, VAULT_ID, 10, vault, 8_000, pool, 0), Err(Error::Unauthorized));
    let locked = VaultMetadata { status: VaultStatus::Locked, ..vault };
    assert_eq!(c.borrow(LOAN_ID, BORROWER, VAULT_ID, 10, locked, 8_000, pool, 0), Err(Error::InvalidParameters));
    // 7500 needs 7500 * 10000 / 7500 = 10000 of collateral.
    assert_eq!(c.borrow(LOAN_ID, BORROWER, VAULT_ID, 7_500, vault, 9_999, pool, 0), Err(Error::InsufficientCollateral));
    assert_eq!(c.borrow(LOAN_ID, BORROWER, VAULT_ID, 7_500, vault, 10_000, pool_with(7_499), 0), Err(Error::InsufficientLiquidity));
    assert_eq!(c.get_loan_count(), Ok(0));
    c.borrow(LOAN_ID, BORROWER, VAULT_ID, 7_500, vault, 10_000, pool, 0).unwrap();
    assert_eq!(c.borrow(LOAN_ID, BORROWER, VAULT_ID, 10, vault, 8_000, pool, 0), Err(Error::LoanAlreadyExists));
    assert_eq!(c.get_loan_count(), Ok(1));
    assert_eq!(c.get_user_loans(BORROWER), Ok(vec![LOAN_ID]));
    assert_eq!(c.get_user_loans(7), Ok(vec![]));
}

#[test]
fn zero_loan_to_value_makes_borrow_overflow() {
    let mut c = BorrowingContract::new();
    c.initialize(POOL, VAULTS).unwrap();
    c.configure_collateral(VAULT_ID, 8_000, 0, 9_500).unwrap();
    assert_eq!(
        c.borrow(LOAN_ID, BORROWER, VAULT_ID, 10, active_vault(BORROWER), 8_000, pool_with(100), 0),
        Err(Error::Overflow)
    );
}

#[test]
fn collateral_parameters_must_be_basis_points() {
    let mut c = BorrowingContract::new();
    assert_eq!(c.configure_collateral(VAULT_ID, 10_001, 1, 1), Err(Error::InvalidParameters));
    assert_eq!(c.configure_collateral(VAULT_ID, 1, -1, 1), Err(Error::InvalidParameters));
    assert_eq!(c.configure_collateral(VAULT_ID, 1, 1, 20_000), Err(Error::InvalidParameters));
    assert_eq!(c.get_collateral_config(&VAULT_ID), None);
    c.configure_collateral(VAULT_ID, 10_000, 0, 5).unwrap();
    assert_eq!(c.get_collateral_config(&VAULT_ID).unwrap().safety_factor, 5);
}

#[test]
fn initialize_only_once() {
    let mut c = BorrowingContract::new();
    c.initialize(POOL, VAULTS).unwrap();
    assert_eq!(c.initialize(1, 2), Err(Error::AlreadyInitialized));
    assert_eq!(c.lending_pool(), Some(POOL));
    assert_eq!(c.vault_contract(), Some(VAULTS));
}

#[test]
fn interest_accrues_at_pool_rate() {
    let mut c = setup_with_loan();
    // 5000 at 1000 bps for a year: 500.
    c.accrue_interest(&LOAN_ID, 1_000, 31_536_000).unwrap();
    let loan = c.get_loan(&LOAN_ID).unwrap();
    assert_eq!(loan.interest_accrued, 500);
    assert_eq!(loan.last_updated, 31_536_000);
    assert_eq!(c.accrue_interest(&[8u8; 32], 1_000, 31_536_000), Err(Error::LoanNotFound));
    assert_eq!(c.accrue_interest(&LOAN_ID, i128::MAX, 31_536_001), Err(Error::Overflow));
}

#[test]
fn partial_then_full_repayment_releases_collateral() {
    let mut c = setup_with_loan();
    assert_eq!(c.repay(&LOAN_ID, 7, 100, 0, 0, 10), Err(Error::Unauthorized));
    assert_eq!(c.repay(&LOAN_ID, BORROWER, 0, 0, 0, 10), Err(Error::InvalidAmount));
    assert_eq!(c.repay(&LOAN_ID, BORROWER, 5_001, 0, 0, 10), Err(Error::InvalidAmount));
    assert_eq!(c.repay(&LOAN_ID, BORROWER, 2_000, 0, 0, 10), Ok(None));
    let loan = c.get_loan(&LOAN_ID).unwrap();
    assert_eq!(loan.borrow_amount, 3_000);
    assert_eq!(loan.status, LoanStatus::Active);
    assert_eq!(c.repay(&LOAN_ID, BORROWER, 3_000, 0, 0, 20), Ok(Some(VAULT_ID)));
    let loan = c.get_loan(&LOAN_ID).unwrap();
    assert_eq!(loan.borrow_amount, 0);
    assert_eq!(loan.status, LoanStatus::Repaid);
    assert_eq!(c.repay(&LOAN_ID, BORROWER, 1, 0, 0, 30), Err(Error::InvalidParameters));
    assert_eq!(c.add_collateral(&LOAN_ID, 1, 30), Err(Error::InvalidParameters));
}

#[test]
fn repayment_includes_accrued_interest() {
    let mut c = setup_with_loan();
    assert_eq!(c.repay(&LOAN_ID, BORROWER, 5_000, 500, 1_000, 31_536_000), Ok(Some(VAULT_ID)));
    let loan = c.get_loan(&LOAN_ID).unwrap();
    assert_eq!(loan.interest_accrued, 0);
    assert_eq!(loan.status, LoanStatus::Repaid);
}

#[test]
fn health_check_compares_with_liquidation_threshold() {
    let mut c = setup_with_loan();
    // 8000 * 10000 / 5000 = 16000, above the 8000 threshold.
    assert_eq!(c.is_undercollateralized(&LOAN_ID, 0, 10), Ok(false));
    assert_eq!(c.is_undercollateralized(&[4u8; 32], 0, 10), Err(Error::LoanNotFound));
    // A year at 1000%: 50000 of interest; 8000 * 10000 / 55000 = 1454.
    assert_eq!(c.is_undercollateralized(&LOAN_ID, 100_000, 31_536_010), Ok(true));
    assert_eq!(c.get_loan(&LOAN_ID).unwrap().interest_accrued, 50_000);
    c.repay(&LOAN_ID, BORROWER, 5_000, 50_000, 0, 31_536_020).unwrap();
    assert_eq!(c.is_undercollateralized(&LOAN_ID, 0, 31_536_030), Ok(false));
}

#[test]
fn create_loan_requires_150_percent_collateral() {
    let mut c = BorrowingContract::new();
    assert_eq!(COLLATERAL_RATIO_BPS, 15000);
    assert_eq!(c.create_loan(BORROWER, [1u8; 32], 0, 1_000, 5), Err(Error::InvalidAmount));
    assert_eq!(c.create_loan(BORROWER, [1u8; 32], 1_499, 1_000, 5), Err(Error::InsufficientCollateral));
    let loan = c.create_loan(BORROWER, [1u8; 32], 1_500, 1_000, 5).unwrap();
    assert_eq!(loan.status, LoanStatus::Active);
    assert_eq!(loan.created_at, 5);
    assert_eq!(c.get_created_loan(&loan.loan_id), Ok(loan));
}

#[test]
fn loan_id_layout() {
    let mut c = BorrowingContract::new();
    let vault = [0u8; 32];
    let loan = c.create_loan(0x0102, vault, 2_000, 1_000, 0x0A0B).unwrap();
    let mut expected = [0u8; 32];
    expected[6] = 0x0A;
    expected[7] = 0x0B;
    expected[14] = 0x01;
    expected[15] = 0x02;
    assert_eq!(loan.loan_id, expected);
}

#[test]
fn liquidation_only_when_undercollateralized() {
    let mut c = BorrowingContract::new();
    let loan = c.create_loan(BORROWER, [1u8; 32], 1_500, 1_000, 5).unwrap();
    assert_eq!(c.liquidate(&loan.loan_id), Err(Error::InvalidParameters));
    assert_eq!(c.liquidate(&[2u8; 32]), Err(Error::LoanNotFound));
    let under = LoanInfo { collateral_amount: 1_499, ..loan };
    assert!(is_loan_undercollateralized(&under));
    let repaid = LoanInfo { status: LoanStatus::Repaid, ..under };
    assert!(!is_loan_undercollateralized(&repaid));
}
