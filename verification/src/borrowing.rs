//! Collateralized loans against savings vaults.
//!
//! A loan is opened against the balance of a vault its borrower owns, while
//! the lending pool has the liquidity; it accrues simple interest at the
//! pool's rate, is repaid in principal and interest, and releases its
//! collateral once nothing is owed. The contract also keeps a second book of
//! loans whose ids are derived from the ledger time, the borrower and the
//! collateral vault; those can be liquidated when undercollateralized.
//!
//! The answers of the vault contract and the lending pool (vault metadata,
//! vault balance, pool accounting, interest rate) are inputs of the
//! transitions; the token movements and vault locking they decide are
//! carried out around them and revert them when they fail.
use std::collections::HashMap;
use vstd::prelude::*;
use crate::errors::Error;
use crate::table::ByteKeyMap;
use crate::types::{CollateralConfig, LoanInfo, LoanStatus, PoolAccounting, VaultMetadata, VaultStatus};
use crate::utils::{fit_i128, trunc_div, SafeMath, ValidationHelper};
use crate::vault_id::{be_byte, generate_vault_id, lemma_vault_id_injective, vault_id_bytes};

verus! {

broadcast use vstd::std_specs::hash::group_hash_axioms;

/// Collateral ratio of the derived-id loan book: 150%.
pub const COLLATERAL_RATIO_BPS: u32 = 15000;

/// Divisor of the loan interest formula: seconds in a year times basis
/// points in a whole.
pub const LOAN_INTEREST_DIVISOR: i128 = 315_360_000_000;

/// Whether `v` is a basis-point share between 0% and 100%.
pub open spec fn bps_in_range(v: i128) -> bool {
    0 <= v <= 10_000
}

/// Collateral needed to borrow `amount` at loan-to-value `ltv`:
/// `amount * 10000 / ltv` rounded toward zero, or `None` when the product
/// overflows or `ltv` is zero.
pub open spec fn ltv_required(amount: i128, ltv: i128) -> Option<int> {
    if !(i128::MIN <= amount * 10_000 <= i128::MAX) || ltv == 0 {
        None
    } else {
        Some(trunc_div(amount * 10_000, ltv as int))
    }
}

/// Interest on `principal` at `rate` basis points a year over `elapsed`
/// seconds, rounded toward zero, or `None` when an intermediate product
/// overflows.
pub open spec fn loan_interest(principal: i128, rate: i128, elapsed: int) -> Option<int> {
    let a = principal * rate;
    if !(i128::MIN <= a <= i128::MAX) {
        None
    } else if !(i128::MIN <= a * elapsed <= i128::MAX) {
        None
    } else {
        Some(trunc_div(a * elapsed, LOAN_INTEREST_DIVISOR as int))
    }
}

/// The loan after accruing its interest at `rate` up to `now`, or `None` on
/// overflow.
pub open spec fn accrued_loan(l: LoanInfo, rate: i128, now: u64) -> Option<LoanInfo> {
    match loan_interest(l.borrow_amount, rate, now - l.last_updated) {
        None => None,
        Some(i) => if i128::MIN <= l.interest_accrued + i <= i128::MAX {
            Some(
                LoanInfo {
                    interest_accrued: (l.interest_accrued + i) as i128,
                    last_updated: now,
                    ..l
                },
            )
        } else {
            None
        },
    }
}

/// The collateral the derived-id book asks for a debt: 150% of it, or the
/// debt itself when that product overflows; zero for no debt.
pub open spec fn book_required(debt: i128) -> int {
    if debt <= 0 {
        0
    } else if debt * 15000 <= i128::MAX {
        (debt * 15000) / 10_000
    } else {
        debt as int
    }
}

/// Whether an active loan of the derived-id book holds less collateral than
/// 150% of its principal plus interest (the principal alone when that sum
/// overflows).
pub open spec fn loan_undercollateralized(l: LoanInfo) -> bool {
    l.status == LoanStatus::Active && {
        let debt = if i128::MIN <= l.borrow_amount + l.interest_accrued <= i128::MAX {
            (l.borrow_amount + l.interest_accrued) as i128
        } else {
            l.borrow_amount
        };
        l.collateral_amount < book_required(debt)
    }
}

/// Id of the loan of `borrower` against vault `vault` created at `ts`: the
/// big-endian time in bytes 0..8 and the big-endian borrower in bytes 8..16,
/// each XOR-ed with the vault's bytes 16..32, followed by the vault's bytes
/// 0..16.
pub open spec fn loan_id_bytes(ts: u64, borrower: u64, vault: Seq<u8>) -> Seq<u8> {
    Seq::new(
        32,
        |i: int|
            if i < 8 {
                be_byte(ts, i) ^ vault[i + 16]
            } else if i < 16 {
                be_byte(borrower, i - 8) ^ vault[i + 16]
            } else {
                vault[i - 16]
            },
    )
}

/// A loan of the main book with the vault it keeps locked, if any.
#[derive(Clone, Copy, Debug, PartialEq, Eq)]
pub struct LoanRecord {
    pub info: LoanInfo,
    pub collateral_lock: Option<[u8; 32]>,
}

/// The borrowing contract.
pub struct BorrowingContract {
    lending_pool: Option<u64>,
    vault_contract: Option<u64>,
    collateral_configs: ByteKeyMap<CollateralConfig>,
    loans: ByteKeyMap<LoanRecord>,
    user_loans: HashMap<u64, Vec<[u8; 32]>>,
    loan_count: u64,
    created_loans: ByteKeyMap<LoanInfo>,
}

/// A copy of `v`.
fn copy_ids(v: &Vec<[u8; 32]>) -> (r: Vec<[u8; 32]>)
    ensures
        r@ == v@,
{
    let mut r: Vec<[u8; 32]> = Vec::new();
    let mut i: usize = 0;
    while i < v.len()
        invariant
            i <= v@.len(),
            r@ == v@.take(i as int),
        decreases v@.len() - i,
    {
        r.push(v[i]);
        i += 1;
        assert(r@ =~= v@.take(i as int));
    }
    assert(v@.take(v@.len() as int) =~= v@);
    r
}

impl BorrowingContract {
    pub closed spec fn lending_pool_id(&self) -> Option<u64> {
        self.lending_pool
    }

    pub closed spec fn vault_contract_id(&self) -> Option<u64> {
        self.vault_contract
    }

    /// Collateral settings by collateral key.
    pub closed spec fn configs(&self) -> Map<Seq<u8>, CollateralConfig> {
        self.collateral_configs@
    }

    /// The main loan book.
    pub closed spec fn loan_records(&self) -> Map<Seq<u8>, LoanRecord> {
        self.loans@
    }

    /// Ids of the loans opened by `user`, in order.
    pub closed spec fn loans_of(&self, user: u64) -> Seq<[u8; 32]> {
        if self.user_loans@.contains_key(user) {
            self.user_loans@[user]@
        } else {
            Seq::empty()
        }
    }

    /// Number of loans opened in the main book.
    pub closed spec fn count(&self) -> u64 {
        self.loan_count
    }

    /// The derived-id loan book.
    pub closed spec fn created(&self) -> Map<Seq<u8>, LoanInfo> {
        self.created_loans@
    }

    /// The tables hold no key twice.
    pub closed spec fn wf(&self) -> bool {
        &&& self.collateral_configs.wf()
        &&& self.loans.wf()
        &&& self.created_loans.wf()
    }

    /// `other` has the same links, settings and books as `self`, but for
    /// the main loan book.
    pub open spec fn same_but_loans(&self, other: &Self) -> bool {
        &&& other.lending_pool_id() == self.lending_pool_id()
        &&& other.vault_contract_id() == self.vault_contract_id()
        &&& other.configs() == self.configs()
        &&& forall|u: u64| other.loans_of(u) == self.loans_of(u)
        &&& other.count() == self.count()
        &&& other.created() == self.created()
    }

    /// The error `borrow` answers for this request, if any, in the order of
    /// its checks.
    pub open spec fn borrow_error(
        &self,
        loan_id: Seq<u8>,
        borrower: u64,
        collateral_vault_id: Seq<u8>,
        borrow_amount: i128,
        vault: VaultMetadata,
        collateral_amount: i128,
        pool: PoolAccounting,
    ) -> Option<Error> {
        let required = ltv_required(
            borrow_amount,
            self.configs()[collateral_vault_id].loan_to_value,
        );
        if borrow_amount <= 0 {
            Some(Error::InvalidAmount)
        } else if self.loan_records().contains_key(loan_id) {
            Some(Error::LoanAlreadyExists)
        } else if !self.configs().contains_key(collateral_vault_id) {
            Some(Error::InvalidCollateral)
        } else if self.vault_contract_id() is None {
            Some(Error::NotInitialized)
        } else if vault.owner != borrower {
            Some(Error::Unauthorized)
        } else if vault.status != VaultStatus::Active {
            Some(Error::InvalidParameters)
        } else if required is None {
            Some(Error::Overflow)
        } else if collateral_amount < required->0 {
            Some(Error::InsufficientCollateral)
        } else if self.lending_pool_id() is None {
            Some(Error::NotInitialized)
        } else if pool.available_liquidity < borrow_amount {
            Some(Error::InsufficientLiquidity)
        } else if self.count() == u64::MAX {
            Some(Error::Overflow)
        } else {
            None
        }
    }

    /// Whether accruing interest on loan `loan_id` at `now` reaches the
    /// elapsed-time subtraction with `now` not before the last update
    /// (ledger time never runs backwards).
    pub open spec fn accrual_in_order(&self, loan_id: Seq<u8>, now: u64) -> bool {
        self.loan_records().contains_key(loan_id) && self.loan_records()[loan_id].info.status
            == LoanStatus::Active && self.lending_pool_id() is Some ==> now
            >= self.loan_records()[loan_id].info.last_updated
    }

    /// The loan `loan_id` after accruing its interest at `rate` up to
    /// `now`, or the error of the accrual.
    pub open spec fn accrue_result(&self, loan_id: Seq<u8>, rate: i128, now: u64) -> Result<
        LoanInfo,
        Error,
    > {
        let info = self.loan_records()[loan_id].info;
        if !self.loan_records().contains_key(loan_id) {
            Err(Error::LoanNotFound)
        } else if info.status != LoanStatus::Active {
            Err(Error::InvalidParameters)
        } else if self.lending_pool_id() is None {
            Err(Error::NotInitialized)
        } else {
            match accrued_loan(info, rate, now) {
                None => Err(Error::Overflow),
                Some(l) => Ok(l),
            }
        }
    }

    /// The record of loan `loan_id` after a repayment of `principal` and
    /// `interest` by `repayer` at `now` (interest first accrued at `rate`),
    /// with the vault released when the loan is paid off; or the error.
    pub open spec fn repay_result(
        &self,
        loan_id: Seq<u8>,
        repayer: u64,
        principal: i128,
        interest: i128,
        rate: i128,
        now: u64,
    ) -> Result<(LoanRecord, Option<[u8; 32]>), Error> {
        let rec = self.loan_records()[loan_id];
        if principal <= 0 {
            Err(Error::InvalidAmount)
        } else if !self.loan_records().contains_key(loan_id) {
            Err(Error::LoanNotFound)
        } else if rec.info.status != LoanStatus::Active {
            Err(Error::InvalidParameters)
        } else if rec.info.borrower != repayer {
            Err(Error::Unauthorized)
        } else {
            match self.accrue_result(loan_id, rate, now) {
                Err(e) => Err(e),
                Ok(l) => {
                    let rest_principal = l.borrow_amount - principal;
                    let rest_interest = l.interest_accrued - interest;
                    let paid_off = rest_principal == 0 && rest_interest == 0;
                    if !(i128::MIN <= principal + interest <= i128::MAX) {
                        Err(Error::Overflow)
                    } else if !(i128::MIN <= l.borrow_amount + l.interest_accrued <= i128::MAX) {
                        Err(Error::Overflow)
                    } else if principal + interest > l.borrow_amount + l.interest_accrued {
                        Err(Error::InvalidAmount)
                    } else if !(i128::MIN <= rest_principal <= i128::MAX) {
                        Err(Error::Underflow)
                    } else if !(i128::MIN <= rest_interest <= i128::MAX) {
                        Err(Error::Underflow)
                    } else if paid_off && rec.collateral_lock is None {
                        Err(Error::LoanNotFound)
                    } else {
                        Ok(
                            (
                                LoanRecord {
                                    info: LoanInfo {
                                        borrow_amount: rest_principal as i128,
                                        interest_accrued: rest_interest as i128,
                                        last_updated: now,
                                        status: if paid_off {
                                            LoanStatus::Repaid
                                        } else {
                                            l.status
                                        },
                                        ..l
                                    },
                                    collateral_lock: if paid_off {
                                        None
                                    } else {
                                        rec.collateral_lock
                                    },
                                },
                                if paid_off {
                                    rec.collateral_lock
                                } else {
                                    None
                                },
                            ),
                        )
                    }
                },
            }
        }
    }

    /// Whether loan `loan_id` is undercollateralized at `now` (its interest
    /// first accrued at `rate` when it is active), with the loan as it then
    /// stands; or the error.
    pub open spec fn health_result(&self, loan_id: Seq<u8>, rate: i128, now: u64) -> Result<
        (LoanInfo, bool),
        Error,
    > {
        let info = self.loan_records()[loan_id].info;
        if !self.loan_records().contains_key(loan_id) {
            Err(Error::LoanNotFound)
        } else {
            let current = if info.status == LoanStatus::Active {
                self.accrue_result(loan_id, rate, now)
            } else {
                Ok(info)
            };
            match current {
                Err(e) => Err(e),
                Ok(l) => {
                    let debt = l.borrow_amount + l.interest_accrued;
                    let scaled = l.collateral_amount * 10_000;
                    if !self.configs().contains_key(l.collateral_vault_id@) {
                        Err(Error::InvalidCollateral)
                    } else if !(i128::MIN <= debt <= i128::MAX) {
                        Err(Error::Overflow)
                    } else if debt == 0 {
                        Ok((l, false))
                    } else if !(i128::MIN <= scaled <= i128::MAX) {
                        Err(Error::Overflow)
                    } else {
                        Ok(
                            (
                                l,
                                trunc_div(scaled, debt)
                                    < self.configs()[l.collateral_vault_id@].liquidation_threshold,
                            ),
                        )
                    }
                },
            }
        }
    }

    /// The error `create_loan` answers for these inputs at `now`, if any.
    pub open spec fn create_error(
        &self,
        borrower: u64,
        collateral_vault_id: Seq<u8>,
        collateral_amount: i128,
        borrow_amount: i128,
        now: u64,
    ) -> Option<Error> {
        if collateral_amount <= 0 || borrow_amount <= 0 {
            Some(Error::InvalidAmount)
        } else if collateral_amount < book_required(borrow_amount) {
            Some(Error::InsufficientCollateral)
        } else if self.created().contains_key(loan_id_bytes(now, borrower, collateral_vault_id)) {
            Some(Error::LoanAlreadyExists)
        } else {
            None
        }
    }

    /// A contract with no links, settings or loans.
    pub fn new() -> (r: Self)
        ensures
            r.wf(),
            r.lending_pool_id() is None,
            r.vault_contract_id() is None,
            r.configs() == Map::<Seq<u8>, CollateralConfig>::empty(),
            r.loan_records() == Map::<Seq<u8>, LoanRecord>::empty(),
            forall|u: u64| r.loans_of(u) == Seq::<[u8; 32]>::empty(),
            r.count() == 0,
            r.created() == Map::<Seq<u8>, LoanInfo>::empty(),
    {
        BorrowingContract {
            lending_pool: None,
            vault_contract: None,
            collateral_configs: ByteKeyMap::new(),
            loans: ByteKeyMap::new(),
            user_loans: HashMap::new(),
            loan_count: 0,
            created_loans: ByteKeyMap::new(),
        }
    }

    /// Link the lending pool and the vault contract. Only once.
    pub fn initialize(&mut self, lending_pool_address: u64, vault_contract_address: u64) -> (r:
        Result<(), Error>)
        requires
            old(self).wf(),
        ensures
            final(self).wf(),
            old(self).lending_pool_id() is Some ==> r == Err::<(), Error>(
                Error::AlreadyInitialized,
            ) && *final(self) == *old(self),
            old(self).lending_pool_id() is None ==> r is Ok && final(self).lending_pool_id()
                == Some(lending_pool_address) && final(self).vault_contract_id() == Some(
                vault_contract_address,
            ) && final(self).configs() == old(self).configs() && final(self).loan_records()
                == old(self).loan_records() && (forall|u: u64|
                final(self).loans_of(u) == old(self).loans_of(u)) && final(self).count() == old(self).count() && final(self).created() == old(self).created(),
    {
        if self.lending_pool.is_some() {
            return Err(Error::AlreadyInitialized);
        }
        self.lending_pool = Some(lending_pool_address);
        self.vault_contract = Some(vault_contract_address);
        Ok(())
    }

    /// The linked lending pool, if any.
    pub fn lending_pool(&self) -> (r: Option<u64>)
        ensures
            r == self.lending_pool_id(),
    {
        self.lending_pool
    }

    /// The linked vault contract, if any.
    pub fn vault_contract(&self) -> (r: Option<u64>)
        ensures
            r == self.vault_contract_id(),
    {
        self.vault_contract
    }

    /// Set the collateral parameters of `asset`; each must lie between 0
    /// and 10000 basis points.
    pub fn configure_collateral(
        &mut self,
        asset: [u8; 32],
        liquidation_threshold: i128,
        loan_to_value: i128,
        safety_factor: i128,
    ) -> (r: Result<(), Error>)
        requires
            old(self).wf(),
        ensures
            final(self).wf(),
            !(bps_in_range(liquidation_threshold) && bps_in_range(loan_to_value) && bps_in_range(
                safety_factor,
            )) ==> r == Err::<(), Error>(Error::InvalidParameters) && *final(self) == *old(self),
            bps_in_range(liquidation_threshold) && bps_in_range(loan_to_value) && bps_in_range(
                safety_factor,
            ) ==> r is Ok && final(self).configs() == old(self).configs().insert(
                asset@,
                CollateralConfig { asset, liquidation_threshold, loan_to_value, safety_factor },
            ) && final(self).lending_pool_id() == old(self).lending_pool_id() && final(self).vault_contract_id() == old(self).vault_contract_id() && final(self).loan_records() == old(self).loan_records() && (forall|u: u64|
                final(self).loans_of(u) == old(self).loans_of(u)) && final(self).count() == old(self).count() && final(self).created() == old(self).created(),
    {
        if !(liquidation_threshold >= 0 && liquidation_threshold <= 10_000) {
            return Err(Error::InvalidParameters);
        }
        if !(loan_to_value >= 0 && loan_to_value <= 10_000) {
            return Err(Error::InvalidParameters);
        }
        if !(safety_factor >= 0 && safety_factor <= 10_000) {
            return Err(Error::InvalidParameters);
        }
        let config = CollateralConfig { asset, liquidation_threshold, loan_to_value, safety_factor };
        self.collateral_configs.insert(asset, config);
        Ok(())
    }

    /// The collateral parameters of `asset`, if set.
    pub fn get_collateral_config(&self, asset: &[u8; 32]) -> (r: Option<CollateralConfig>)
        requires
            self.wf(),
        ensures
            self.configs().contains_key(asset@) ==> r == Some(self.configs()[asset@]),
            !self.configs().contains_key(asset@) ==> r is None,
    {
        self.collateral_configs.get(asset)
    }

    fn loans_list(&self, user: u64) -> (r: Vec<[u8; 32]>)
        ensures
            r@ == self.loans_of(user),
    {
        match self.user_loans.get(&user) {
            Some(v) => copy_ids(v),
            None => Vec::new(),
        }
    }

    /// The checks of `borrow` that need no answer from the vault contract or
    /// the lending pool: `Ok` when none of them fails, else the error
    /// `borrow` answers; nothing is changed.
    pub fn check_borrow_request(
        &self,
        loan_id: &[u8; 32],
        collateral_vault_id: &[u8; 32],
        borrow_amount: i128,
    ) -> (r: Result<(), Error>)
        requires
            self.wf(),
        ensures
            borrow_amount <= 0 ==> r == Err::<(), Error>(Error::InvalidAmount),
            borrow_amount > 0 && self.loan_records().contains_key(loan_id@) ==> r == Err::<
                (),
                Error,
            >(Error::LoanAlreadyExists),
            borrow_amount > 0 && !self.loan_records().contains_key(loan_id@)
                && !self.configs().contains_key(collateral_vault_id@) ==> r == Err::<(), Error>(
                Error::InvalidCollateral,
            ),
            borrow_amount > 0 && !self.loan_records().contains_key(loan_id@)
                && self.configs().contains_key(collateral_vault_id@) && self.vault_contract_id()
                is None ==> r == Err::<(), Error>(Error::NotInitialized),
            borrow_amount > 0 && !self.loan_records().contains_key(loan_id@)
                && self.configs().contains_key(collateral_vault_id@) && self.vault_contract_id()
                is Some ==> r is Ok,
    {
        if !ValidationHelper::validate_positive_amount(borrow_amount) {
            return Err(Error::InvalidAmount);
        }
        if self.loans.contains_key(loan_id) {
            return Err(Error::LoanAlreadyExists);
        }
        if !self.collateral_configs.contains_key(collateral_vault_id) {
            return Err(Error::InvalidCollateral);
        }
        if self.vault_contract.is_none() {
            return Err(Error::NotInitialized);
        }
        Ok(())
    }

    /// Open loan `loan_id` of `borrow_amount` for `borrower` against vault
    /// `collateral_vault_id` at time `now`. `vault` and `collateral_amount`
    /// are the vault contract's metadata and balance of that vault, `pool`
    /// the lending pool's accounting. On success the vault is to be locked
    /// and the amount lent out of the pool.
    #[verifier::rlimit(30)]
    pub fn borrow(
        &mut self,
        loan_id: [u8; 32],
        borrower: u64,
        collateral_vault_id: [u8; 32],
        borrow_amount: i128,
        vault: VaultMetadata,
        collateral_amount: i128,
        pool: PoolAccounting,
        now: u64,
    ) -> (r: Result<(), Error>)
        requires
            old(self).wf(),
        ensures
            final(self).wf(),
            ({
                let e = old(self).borrow_error(
                    loan_id@,
                    borrower,
                    collateral_vault_id@,
                    borrow_amount,
                    vault,
                    collateral_amount,
                    pool,
                );
                &&& e matches Some(err) ==> r == Err::<(), Error>(err) && *final(self) == *old(self)
                &&& e is None ==> {
                    &&& r is Ok
                    &&& final(self).loan_records() == old(self).loan_records().insert(
                        loan_id@,
                        LoanRecord {
                            info: LoanInfo {
                                loan_id,
                                borrower,
                                collateral_vault_id,
                                collateral_amount,
                                borrow_amount,
                                outstanding_amount: borrow_amount,
                                interest_rate_bps: 0,
                                status: LoanStatus::Active,
                                created_at: now,
                                last_updated: now,
                                interest_accrued: 0,
                            },
                            collateral_lock: Some(collateral_vault_id),
                        },
                    )
                    &&& final(self).loans_of(borrower) == old(self).loans_of(borrower).push(loan_id)
                    &&& forall|u: u64|
                        u != borrower ==> final(self).loans_of(u) == old(self).loans_of(u)
                    &&& final(self).count() == old(self).count() + 1
                    &&& final(self).lending_pool_id() == old(self).lending_pool_id()
                    &&& final(self).vault_contract_id() == old(self).vault_contract_id()
                    &&& final(self).configs() == old(self).configs()
                    &&& final(self).created() == old(self).created()
                }
            }),
    {
        if !ValidationHelper::validate_positive_amount(borrow_amount) {
            return Err(Error::InvalidAmount);
        }
        if self.loans.contains_key(&loan_id) {
            return Err(Error::LoanAlreadyExists);
        }
        let config = match self.collateral_configs.get(&collateral_vault_id) {
            Some(c) => c,
            None => return Err(Error::InvalidCollateral),
        };
        if self.vault_contract.is_none() {
            return Err(Error::NotInitialized);
        }
        if vault.owner != borrower {
            return Err(Error::Unauthorized);
        }
        if vault.status != VaultStatus::Active {
            return Err(Error::InvalidParameters);
        }
        let scaled = match SafeMath::mul(borrow_amount, 10_000) {
            Some(v) => v,
            None => return Err(Error::Overflow),
        };
        let required_collateral = match SafeMath::div(scaled, config.loan_to_value) {
            Some(v) => v,
            None => return Err(Error::Overflow),
        };
        if collateral_amount < required_collateral {
            return Err(Error::InsufficientCollateral);
        }
        if self.lending_pool.is_none() {
            return Err(Error::NotInitialized);
        }
        if pool.available_liquidity < borrow_amount {
            return Err(Error::InsufficientLiquidity);
        }
        if self.loan_count == u64::MAX {
            return Err(Error::Overflow);
        }
        let loan_info = LoanInfo {
            loan_id,
            borrower,
            collateral_vault_id,
            collateral_amount,
            borrow_amount,
            outstanding_amount: borrow_amount,
            interest_rate_bps: 0,
            status: LoanStatus::Active,
            created_at: now,
            last_updated: now,
            interest_accrued: 0,
        };
        self.loans.insert(
            loan_id,
            LoanRecord { info: loan_info, collateral_lock: Some(collateral_vault_id) },
        );
        let mut user_loans = self.loans_list(borrower);
        user_loans.push(loan_id);
        self.user_loans.insert(borrower, user_loans);
        self.loan_count = self.loan_count + 1;
        Ok(())
    }

    /// The loan `loan_id` after interest accrual, without storing it.
    fn accrued_entry(&self, loan_id: &[u8; 32], rate: i128, now: u64) -> (r: Result<LoanInfo, Error>)
        requires
            self.wf(),
            self.accrual_in_order(loan_id@, now),
        ensures
            r == self.accrue_result(loan_id@, rate, now),
    {
        let rec = match self.loans.get(loan_id) {
            Some(rec) => rec,
            None => return Err(Error::LoanNotFound),
        };
        if rec.info.status != LoanStatus::Active {
            return Err(Error::InvalidParameters);
        }
        if self.lending_pool.is_none() {
            return Err(Error::NotInitialized);
        }
        match accrue_loan(rec.info, rate, now) {
            Some(l) => Ok(l),
            None => Err(Error::Overflow),
        }
    }

    /// Accrue the interest of active loan `loan_id` up to `now` at `rate`,
    /// the lending pool's current rate for the loan.
    pub fn accrue_interest(&mut self, loan_id: &[u8; 32], rate: i128, now: u64) -> (r: Result<
        (),
        Error,
    >)
        requires
            old(self).wf(),
            old(self).accrual_in_order(loan_id@, now),
        ensures
            final(self).wf(),
            match old(self).accrue_result(loan_id@, rate, now) {
                Err(e) => r == Err::<(), Error>(e) && *final(self) == *old(self),
                Ok(l) => r is Ok && final(self).loan_records() == old(self).loan_records().insert(
                    loan_id@,
                    LoanRecord { info: l, ..old(self).loan_records()[loan_id@] },
                ) && old(self).same_but_loans(&*final(self)),
            },
    {
        let l = match self.accrued_entry(loan_id, rate, now) {
            Ok(l) => l,
            Err(e) => return Err(e),
        };
        let rec = match self.loans.get(loan_id) {
            Some(rec) => rec,
            None => return Err(Error::LoanNotFound),
        };
        self.loans.insert(*loan_id, LoanRecord { info: l, ..rec });
        Ok(())
    }

    /// Repay `principal_amount` and `interest_amount` of loan `loan_id` by
    /// `repayer` at `now`, after accruing its interest at `rate`. When the
    /// loan is paid off it becomes `Repaid` and its vault is returned, to be
    /// released; the payment itself moves to the lending pool around this
    /// transition.
    #[verifier::rlimit(40)]
    pub fn repay(
        &mut self,
        loan_id: &[u8; 32],
        repayer: u64,
        principal_amount: i128,
        interest_amount: i128,
        rate: i128,
        now: u64,
    ) -> (r: Result<Option<[u8; 32]>, Error>)
        requires
            old(self).wf(),
            old(self).accrual_in_order(loan_id@, now),
        ensures
            final(self).wf(),
            match old(self).repay_result(
                loan_id@,
                repayer,
                principal_amount,
                interest_amount,
                rate,
                now,
            ) {
                Err(e) => r == Err::<Option<[u8; 32]>, Error>(e) && *final(self) == *old(self),
                Ok((rec, released)) => r == Ok::<Option<[u8; 32]>, Error>(released) && final(self).loan_records() == old(self).loan_records().insert(loan_id@, rec) && old(self).same_but_loans(&*final(self)),
            },
    {
        if !ValidationHelper::validate_positive_amount(principal_amount) {
            return Err(Error::InvalidAmount);
        }
        let rec = match self.loans.get(loan_id) {
            Some(rec) => rec,
            None => return Err(Error::LoanNotFound),
        };
        if rec.info.status != LoanStatus::Active {
            return Err(Error::InvalidParameters);
        }
        if rec.info.borrower != repayer {
            return Err(Error::Unauthorized);
        }
        let mut loan_info = match self.accrued_entry(loan_id, rate, now) {
            Ok(l) => l,
            Err(e) => return Err(e),
        };
        let total_payment = match SafeMath::add(principal_amount, interest_amount) {
            Some(v) => v,
            None => return Err(Error::Overflow),
        };
        let total_owed = match SafeMath::add(loan_info.borrow_amount, loan_info.interest_accrued) {
            Some(v) => v,
            None => return Err(Error::Overflow),
        };
        if total_payment > total_owed {
            return Err(Error::InvalidAmount);
        }
        loan_info.borrow_amount = match SafeMath::sub(loan_info.borrow_amount, principal_amount) {
            Some(v) => v,
            None => return Err(Error::Underflow),
        };
        loan_info.interest_accrued = match SafeMath::sub(
            loan_info.interest_accrued,
            interest_amount,
        ) {
            Some(v) => v,
            None => return Err(Error::Underflow),
        };
        loan_info.last_updated = now;
        let is_fully_repaid = loan_info.borrow_amount == 0 && loan_info.interest_accrued == 0;
        let mut lock = rec.collateral_lock;
        let mut released: Option<[u8; 32]> = None;
        if is_fully_repaid {
            loan_info.status = LoanStatus::Repaid;
            let vault_id = match rec.collateral_lock {
                Some(v) => v,
                None => return Err(Error::LoanNotFound),
            };
            released = Some(vault_id);
            lock = None;
        }
        self.loans.insert(*loan_id, LoanRecord { info: loan_info, collateral_lock: lock });
        Ok(released)
    }

    /// Whether `add_collateral` of `additional_amount` to loan `loan_id`
    /// would succeed, and its error if not; nothing is changed.
    pub fn check_add_collateral(&self, loan_id: &[u8; 32], additional_amount: i128) -> (r: Result<
        (),
        Error,
    >)
        requires
            self.wf(),
        ensures
            ({
                let rec = self.loan_records()[loan_id@];
                &&& additional_amount <= 0 ==> r == Err::<(), Error>(Error::InvalidAmount)
                &&& additional_amount > 0 && !self.loan_records().contains_key(loan_id@) ==> r
                    == Err::<(), Error>(Error::LoanNotFound)
                &&& additional_amount > 0 && self.loan_records().contains_key(loan_id@)
                    && rec.info.status != LoanStatus::Active ==> r == Err::<(), Error>(
                    Error::InvalidParameters,
                )
                &&& additional_amount > 0 && self.loan_records().contains_key(loan_id@)
                    && rec.info.status == LoanStatus::Active && self.vault_contract_id() is None
                    ==> r == Err::<(), Error>(Error::NotInitialized)
                &&& additional_amount > 0 && self.loan_records().contains_key(loan_id@)
                    && rec.info.status == LoanStatus::Active && self.vault_contract_id() is Some
                    && rec.info.collateral_amount + additional_amount > i128::MAX ==> r == Err::<
                    (),
                    Error,
                >(Error::Overflow)
                &&& additional_amount > 0 && self.loan_records().contains_key(loan_id@)
                    && rec.info.status == LoanStatus::Active && self.vault_contract_id() is Some
                    && rec.info.collateral_amount + additional_amount <= i128::MAX ==> r is Ok
            }),
    {
        if !ValidationHelper::validate_positive_amount(additional_amount) {
            return Err(Error::InvalidAmount);
        }
        let rec = match self.loans.get(loan_id) {
            Some(rec) => rec,
            None => return Err(Error::LoanNotFound),
        };
        if rec.info.status != LoanStatus::Active {
            return Err(Error::InvalidParameters);
        }
        if self.vault_contract.is_none() {
            return Err(Error::NotInitialized);
        }
        match SafeMath::add(rec.info.collateral_amount, additional_amount) {
            Some(_) => Ok(()),
            None => Err(Error::Overflow),
        }
    }

    /// Add `additional_amount` of collateral to active loan `loan_id` at
    /// `now`; the tokens move into the loan's vault around this transition.
    pub fn add_collateral(&mut self, loan_id: &[u8; 32], additional_amount: i128, now: u64) -> (r:
        Result<(), Error>)
        requires
            old(self).wf(),
        ensures
            final(self).wf(),
            ({
                let rec = old(self).loan_records()[loan_id@];
                &&& additional_amount <= 0 ==> r == Err::<(), Error>(Error::InvalidAmount)
                &&& additional_amount > 0 && !old(self).loan_records().contains_key(loan_id@) ==> r
                    == Err::<(), Error>(Error::LoanNotFound)
                &&& additional_amount > 0 && old(self).loan_records().contains_key(loan_id@)
                    && rec.info.status != LoanStatus::Active ==> r == Err::<(), Error>(
                    Error::InvalidParameters,
                )
                &&& additional_amount > 0 && old(self).loan_records().contains_key(loan_id@)
                    && rec.info.status == LoanStatus::Active && old(self).vault_contract_id() is None
                    ==> r == Err::<(), Error>(Error::NotInitialized)
                &&& additional_amount > 0 && old(self).loan_records().contains_key(loan_id@)
                    && rec.info.status == LoanStatus::Active && old(self).vault_contract_id() is Some
                    && rec.info.collateral_amount + additional_amount > i128::MAX ==> r == Err::<
                    (),
                    Error,
                >(Error::Overflow)
                &&& additional_amount > 0 && old(self).loan_records().contains_key(loan_id@)
                    && rec.info.status == LoanStatus::Active && old(self).vault_contract_id() is Some
                    && rec.info.collateral_amount + additional_amount <= i128::MAX ==> r is Ok
                    && final(self).loan_records() == old(self).loan_records().insert(
                    loan_id@,
                    LoanRecord {
                        info: LoanInfo {
                            collateral_amount: (rec.info.collateral_amount + additional_amount) as i128,
                            last_updated: now,
                            ..rec.info
                        },
                        ..rec
                    },
                ) && old(self).same_but_loans(&*final(self))
                &&& r is Err ==> *final(self) == *old(self)
            }),
    {
        if !ValidationHelper::validate_positive_amount(additional_amount) {
            return Err(Error::InvalidAmount);
        }
        let mut rec = match self.loans.get(loan_id) {
            Some(rec) => rec,
            None => return Err(Error::LoanNotFound),
        };
        if rec.info.status != LoanStatus::Active {
            return Err(Error::InvalidParameters);
        }
        if self.vault_contract.is_none() {
            return Err(Error::NotInitialized);
        }
        rec.info.collateral_amount = match SafeMath::add(rec.info.collateral_amount, additional_amount) {
            Some(v) => v,
            None => return Err(Error::Overflow),
        };
        rec.info.last_updated = now;
        self.loans.insert(*loan_id, rec);
        Ok(())
    }

    /// The loan `loan_id` of the main book.
    pub fn get_loan(&self, loan_id: &[u8; 32]) -> (r: Result<LoanInfo, Error>)
        requires
            self.wf(),
        ensures
            self.loan_records().contains_key(loan_id@) ==> r == Ok::<LoanInfo, Error>(
                self.loan_records()[loan_id@].info,
            ),
            !self.loan_records().contains_key(loan_id@) ==> r == Err::<LoanInfo, Error>(
                Error::LoanNotFound,
            ),
    {
        match self.loans.get(loan_id) {
            Some(rec) => Ok(rec.info),
            None => Err(Error::LoanNotFound),
        }
    }

    /// Whether loan `loan_id` is below its liquidation threshold at `now`:
    /// an active loan first accrues its interest at `rate` (and keeps it);
    /// its collateral times 10000 over its principal plus interest, rounded
    /// toward zero, is compared with the threshold of its vault; a loan that
    /// owes nothing is not.
    #[verifier::rlimit(30)]
    pub fn is_undercollateralized(&mut self, loan_id: &[u8; 32], rate: i128, now: u64) -> (r:
        Result<bool, Error>)
        requires
            old(self).wf(),
            old(self).accrual_in_order(loan_id@, now),
        ensures
            final(self).wf(),
            match old(self).health_result(loan_id@, rate, now) {
                Err(e) => r == Err::<bool, Error>(e) && *final(self) == *old(self),
                Ok((l, under)) => r == Ok::<bool, Error>(under) && final(self).loan_records() == old(self).loan_records().insert(
                    loan_id@,
                    LoanRecord { info: l, ..old(self).loan_records()[loan_id@] },
                ) && old(self).same_but_loans(&*final(self)),
            },
    {
        let rec = match self.loans.get(loan_id) {
            Some(rec) => rec,
            None => return Err(Error::LoanNotFound),
        };
        let loan_info = if rec.info.status == LoanStatus::Active {
            match self.accrued_entry(loan_id, rate, now) {
                Ok(l) => l,
                Err(e) => return Err(e),
            }
        } else {
            rec.info
        };
        let collateral_config = match self.collateral_configs.get(&loan_info.collateral_vault_id) {
            Some(c) => c,
            None => return Err(Error::InvalidCollateral),
        };
        let total_debt = match SafeMath::add(loan_info.borrow_amount, loan_info.interest_accrued) {
            Some(v) => v,
            None => return Err(Error::Overflow),
        };
        let answer = if total_debt == 0 {
            false
        } else {
            let scaled = match SafeMath::mul(loan_info.collateral_amount, 10_000) {
                Some(v) => v,
                None => return Err(Error::Overflow),
            };
            proof {
                assert(scaled != i128::MIN) by {
                    assert(i128::MIN % 10_000 != 0);
                }
            }
            let current_ratio = match SafeMath::div(scaled, total_debt) {
                Some(v) => v,
                None => return Err(Error::Overflow),
            };
            current_ratio < collateral_config.liquidation_threshold
        };
        if rec.info.status == LoanStatus::Active {
            self.loans.insert(*loan_id, LoanRecord { info: loan_info, ..rec });
        } else {
            assert(self.loans@.insert(loan_id@, rec) =~= self.loans@);
        }
        Ok(answer)
    }

    /// Ids of the loans `user` opened, in order.
    pub fn get_user_loans(&self, user: u64) -> (r: Result<Vec<[u8; 32]>, Error>)
        ensures
            r matches Ok(ids) && ids@ == self.loans_of(user),
    {
        Ok(self.loans_list(user))
    }

    /// Number of loans opened in the main book.
    pub fn get_loan_count(&self) -> (r: Result<u64, Error>)
        ensures
            r == Ok::<u64, Error>(self.count()),
    {
        Ok(self.loan_count)
    }

    /// Open a loan of the derived-id book for `borrower` against vault
    /// `collateral_vault_id` at `now`: both amounts must be positive, the
    /// collateral at least 150% of the amount, and the derived id unused.
    pub fn create_loan(
        &mut self,
        borrower: u64,
        collateral_vault_id: [u8; 32],
        collateral_amount: i128,
        borrow_amount: i128,
        now: u64,
    ) -> (r: Result<LoanInfo, Error>)
        requires
            old(self).wf(),
        ensures
            final(self).wf(),
            old(self).create_error(
                borrower,
                collateral_vault_id@,
                collateral_amount,
                borrow_amount,
                now,
            ) matches Some(e) ==> r == Err::<LoanInfo, Error>(e) && *final(self) == *old(self),
            old(self).create_error(
                borrower,
                collateral_vault_id@,
                collateral_amount,
                borrow_amount,
                now,
            ) is None ==> (r matches Ok(loan) && loan.loan_id@ == loan_id_bytes(
                now,
                borrower,
                collateral_vault_id@,
            ) && loan == (LoanInfo {
                loan_id: loan.loan_id,
                borrower,
                collateral_vault_id,
                collateral_amount,
                borrow_amount,
                outstanding_amount: borrow_amount,
                interest_rate_bps: 0,
                status: LoanStatus::Active,
                created_at: now,
                last_updated: now,
                interest_accrued: 0,
            }) && final(self).created() == old(self).created().insert(loan.loan_id@, loan)
                && final(self).lending_pool_id() == old(self).lending_pool_id() && final(self).vault_contract_id() == old(self).vault_contract_id() && final(self).configs()
                == old(self).configs() && final(self).loan_records() == old(self).loan_records()
                && (forall|u: u64| final(self).loans_of(u) == old(self).loans_of(u)) && final(self).count() == old(self).count()),
    {
        if !ValidationHelper::validate_positive_amount(collateral_amount)
            || !ValidationHelper::validate_positive_amount(borrow_amount) {
            return Err(Error::InvalidAmount);
        }
        let required_collateral = match ValidationHelper::required_collateral_for_borrow(
            borrow_amount,
            COLLATERAL_RATIO_BPS,
        ) {
            Some(v) => v,
            None => borrow_amount,
        };
        if collateral_amount < required_collateral {
            return Err(Error::InsufficientCollateral);
        }
        let loan_id = derive_loan_id(now, borrower, &collateral_vault_id);
        if self.created_loans.contains_key(&loan_id) {
            return Err(Error::LoanAlreadyExists);
        }
        let loan = LoanInfo {
            loan_id,
            borrower,
            collateral_vault_id,
            collateral_amount,
            borrow_amount,
            outstanding_amount: borrow_amount,
            interest_rate_bps: 0,
            status: LoanStatus::Active,
            created_at: now,
            last_updated: now,
            interest_accrued: 0,
        };
        self.created_loans.insert(loan_id, loan);
        Ok(loan)
    }

    /// The loan `loan_id` of the derived-id book.
    pub fn get_created_loan(&self, loan_id: &[u8; 32]) -> (r: Result<LoanInfo, Error>)
        requires
            self.wf(),
        ensures
            self.created().contains_key(loan_id@) ==> r == Ok::<LoanInfo, Error>(
                self.created()[loan_id@],
            ),
            !self.created().contains_key(loan_id@) ==> r == Err::<LoanInfo, Error>(
                Error::LoanNotFound,
            ),
    {
        match self.created_loans.get(loan_id) {
            Some(l) => Ok(l),
            None => Err(Error::LoanNotFound),
        }
    }

    /// Liquidate loan `loan_id` of the derived-id book: only an active,
    /// undercollateralized loan; it becomes `Liquidated` and its collateral
    /// is seized.
    pub fn liquidate(&mut self, loan_id: &[u8; 32]) -> (r: Result<(), Error>)
        requires
            old(self).wf(),
        ensures
            final(self).wf(),
            ({
                let l = old(self).created()[loan_id@];
                &&& !old(self).created().contains_key(loan_id@) ==> r == Err::<(), Error>(
                    Error::LoanNotFound,
                ) && *final(self) == *old(self)
                &&& old(self).created().contains_key(loan_id@) && !loan_undercollateralized(l)
                    ==> r == Err::<(), Error>(Error::InvalidParameters) && *final(self) == *old(self)
                &&& old(self).created().contains_key(loan_id@) && loan_undercollateralized(l) ==> r
                    is Ok && final(self).created() == old(self).created().insert(
                    loan_id@,
                    LoanInfo { status: LoanStatus::Liquidated, collateral_amount: 0, ..l },
                ) && final(self).lending_pool_id() == old(self).lending_pool_id() && final(self).vault_contract_id() == old(self).vault_contract_id() && final(self).configs() == old(self).configs() && final(self).loan_records() == old(self).loan_records() && (forall|u: u64|
                    final(self).loans_of(u) == old(self).loans_of(u)) && final(self).count() == old(self).count()
            }),
    {
        let mut loan = match self.created_loans.get(loan_id) {
            Some(l) => l,
            None => return Err(Error::LoanNotFound),
        };
        if loan.status != LoanStatus::Active || !is_loan_undercollateralized(&loan) {
            return Err(Error::InvalidParameters);
        }
        loan.status = LoanStatus::Liquidated;
        loan.collateral_amount = 0;
        self.created_loans.insert(*loan_id, loan);
        Ok(())
    }
}

/// The loan after accruing its interest at `rate` up to `now`.
fn accrue_loan(l: LoanInfo, rate: i128, now: u64) -> (r: Option<LoanInfo>)
    requires
        now >= l.last_updated,
    ensures
        r == accrued_loan(l, rate, now),
{
    let time_elapsed = now - l.last_updated;
    let annual = match SafeMath::mul(l.borrow_amount, rate) {
        Some(v) => v,
        None => return None,
    };
    let scaled = match SafeMath::mul(annual, time_elapsed as i128) {
        Some(v) => v,
        None => return None,
    };
    let interest = match SafeMath::div(scaled, LOAN_INTEREST_DIVISOR) {
        Some(v) => v,
        None => return None,
    };
    let total = match SafeMath::add(l.interest_accrued, interest) {
        Some(v) => v,
        None => return None,
    };
    Some(LoanInfo { interest_accrued: total, last_updated: now, ..l })
}

/// Whether a loan of the derived-id book is undercollateralized.
pub fn is_loan_undercollateralized(loan: &LoanInfo) -> (r: bool)
    ensures
        r == loan_undercollateralized(*loan),
{
    if loan.status != LoanStatus::Active {
        return false;
    }
    let total_debt = match SafeMath::add(loan.borrow_amount, loan.interest_accrued) {
        Some(v) => v,
        None => loan.borrow_amount,
    };
    let required_collateral = match ValidationHelper::required_collateral_for_borrow(
        total_debt,
        COLLATERAL_RATIO_BPS,
    ) {
        Some(v) => v,
        None => total_debt,
    };
    loan.collateral_amount < required_collateral
}

/// The id of the loan of `borrower` against `collateral_vault_id` created
/// at `now`.
fn derive_loan_id(now: u64, borrower: u64, collateral_vault_id: &[u8; 32]) -> (r: [u8; 32])
    ensures
        r@ == loan_id_bytes(now, borrower, collateral_vault_id@),
{
    let ts = generate_vault_id(now);
    let who = generate_vault_id(borrower);
    let mut bytes = [0u8; 32];
    let mut i: usize = 0;
    while i < 32
        invariant
            i <= 32,
            ts@ == vault_id_bytes(now),
            who@ == vault_id_bytes(borrower),
            collateral_vault_id@.len() == 32,
            bytes@.len() == 32,
            forall|j: int| 0 <= j < i ==> bytes@[j] == loan_id_bytes(now, borrower, collateral_vault_id@)[j],
        decreases 32 - i,
    {
        if i < 8 {
            bytes[i] = ts[i] ^ collateral_vault_id[i + 16];
        } else if i < 16 {
            bytes[i] = who[i - 8] ^ collateral_vault_id[i + 16];
        } else {
            bytes[i] = collateral_vault_id[i - 16];
        }
        i += 1;
    }
    assert(bytes@ =~= loan_id_bytes(now, borrower, collateral_vault_id@));
    bytes
}

/// Loans of different borrowers against the same vault at the same time
/// get different ids.
pub proof fn law_loan_ids_distinct(ts: u64, a: u64, b: u64, vault: Seq<u8>)
    requires
        vault.len() == 32,
        a != b,
    ensures
        loan_id_bytes(ts, a, vault) != loan_id_bytes(ts, b, vault),
{
    if loan_id_bytes(ts, a, vault) == loan_id_bytes(ts, b, vault) {
        assert forall|k: int| 0 <= k < 32 implies #[trigger] vault_id_bytes(a)[k] == vault_id_bytes(
            b,
        )[k] by {
            if k < 8 {
                let x = be_byte(a, k);
                let y = be_byte(b, k);
                let v = vault[k + 24];
                assert(loan_id_bytes(ts, a, vault)[k + 8] == loan_id_bytes(ts, b, vault)[k + 8]);
                assert(x ^ v == y ^ v);
                assert(x == y) by (bit_vector)
                    requires
                        x ^ v == y ^ v,
                ;
            }
        }
        assert(vault_id_bytes(a) =~= vault_id_bytes(b));
        lemma_vault_id_injective(a, b);
    }
}

} // verus!

verus! {

/// A repayment pays down what is owed after accrual: the remaining
/// principal and interest are those owed less what was paid. The loan is
/// closed, and its collateral vault handed back, only when neither
/// principal nor interest remains; while anything is still owed the loan
/// stays active and keeps its vault locked.
pub proof fn law_repay_releases_only_when_settled(
    c: &BorrowingContract,
    loan_id: Seq<u8>,
    repayer: u64,
    principal: i128,
    interest: i128,
    rate: i128,
    now: u64,
)
    ensures
        c.repay_result(loan_id, repayer, principal, interest, rate, now) matches Ok((rec, released))
            ==> {
            let before = c.loan_records()[loan_id];
            let l = c.accrue_result(loan_id, rate, now)->Ok_0;
            let settled = rec.info.borrow_amount == 0 && rec.info.interest_accrued == 0;
            &&& rec.info.borrow_amount == l.borrow_amount - principal
            &&& rec.info.interest_accrued == l.interest_accrued - interest
            &&& released is Some ==> settled
            &&& rec.info.status == LoanStatus::Repaid ==> settled
            &&& !settled ==> rec.info.status == LoanStatus::Active && released is None
                && rec.collateral_lock == before.collateral_lock
            &&& settled ==> rec.info.status == LoanStatus::Repaid && rec.collateral_lock is None
                && released == before.collateral_lock
        },
{
}

/// The health check compares the collateral, in basis points of what is
/// owed (principal plus accrued interest), with the liquidation threshold
/// of the loan's collateral configuration: the loan is undercollateralized
/// exactly when that ratio falls below the threshold, and never when
/// nothing is owed. The loan-to-value plays no part.
pub proof fn law_health_uses_liquidation_threshold(
    c: &BorrowingContract,
    loan_id: Seq<u8>,
    rate: i128,
    now: u64,
)
    ensures
        c.health_result(loan_id, rate, now) matches Ok((l, under)) ==> {
            let debt = l.borrow_amount + l.interest_accrued;
            let threshold = c.configs()[l.collateral_vault_id@].liquidation_threshold;
            &&& debt == 0 ==> !under
            &&& debt > 0 && l.collateral_amount >= 0 ==> (under <==> (l.collateral_amount
                * 10_000) / debt < threshold)
            &&& debt != 0 ==> (under <==> trunc_div(l.collateral_amount * 10_000, debt)
                < threshold)
            &&& c.loan_records()[loan_id].info.status == LoanStatus::Active ==> c.accrue_result(
                loan_id,
                rate,
                now,
            ) == Ok::<LoanInfo, Error>(l)
        },
{
}

/// Accrual charges simple interest on the principal for the time since the
/// loan's last update only, `principal * rate * elapsed / (year * 10000)`
/// rounded down, and moves the last update to `now`; nothing else changes.
pub proof fn law_accrual_charges_elapsed_time(l: LoanInfo, rate: i128, now: u64)
    requires
        now >= l.last_updated,
        l.borrow_amount >= 0,
        rate >= 0,
    ensures
        accrued_loan(l, rate, now) matches Some(l2) ==> l2 == (LoanInfo {
            interest_accrued: (l.interest_accrued + (l.borrow_amount * rate * (now
                - l.last_updated)) / (31_536_000int * 10_000)) as i128,
            last_updated: now,
            ..l
        }),
{
    let e: int = now - l.last_updated;
    let a: int = l.borrow_amount * rate;
    assert(a >= 0 && a * e >= 0) by (nonlinear_arith)
        requires
            l.borrow_amount >= 0,
            rate >= 0,
            e >= 0,
            a == l.borrow_amount * rate,
    ;
}

/// Accruing in two steps charges no more than accruing over the whole span
/// at once, and at most one unit less: each period is charged once.
pub proof fn law_split_accrual(l: LoanInfo, rate: i128, t1: u64, t2: u64)
    requires
        l.last_updated <= t1 <= t2,
        l.borrow_amount >= 0,
        rate >= 0,
        (accrued_loan(l, rate, t1) is Some),
        (accrued_loan(accrued_loan(l, rate, t1)->0, rate, t2) is Some),
    ensures
        ({
            let l2 = accrued_loan(accrued_loan(l, rate, t1)->0, rate, t2)->0;
            let whole = (l.borrow_amount * rate * (t2 - l.last_updated)) / (31_536_000int * 10_000);
            &&& whole - 1 <= l2.interest_accrued - l.interest_accrued <= whole
            &&& l2.borrow_amount == l.borrow_amount
            &&& l2.last_updated == t2
        }),
{
    let l1 = accrued_loan(l, rate, t1)->0;
    law_accrual_charges_elapsed_time(l, rate, t1);
    law_accrual_charges_elapsed_time(l1, rate, t2);
    let d: int = 31_536_000int * 10_000;
    let a: int = l.borrow_amount * rate;
    let x: int = a * (t1 - l.last_updated);
    let y: int = a * (t2 - t1);
    assert(a >= 0 && x >= 0 && y >= 0 && x + y == a * (t2 - l.last_updated)) by (nonlinear_arith)
        requires
            l.borrow_amount >= 0,
            rate >= 0,
            t1 - l.last_updated >= 0,
            t2 - t1 >= 0,
            a == l.borrow_amount * rate,
            x == a * (t1 - l.last_updated),
            y == a * (t2 - t1),
    ;
    lemma_floor_sum(x, y, d);
}

/// Rounding down two non-negative parts loses at most one unit against
/// rounding down their sum.
proof fn lemma_floor_sum(x: int, y: int, d: int)
    requires
        x >= 0,
        y >= 0,
        d > 0,
    ensures
        (x + y) / d - 1 <= x / d + y / d <= (x + y) / d,
{
    vstd::arithmetic::div_mod::lemma_fundamental_div_mod(x, d);
    vstd::arithmetic::div_mod::lemma_fundamental_div_mod(y, d);
    vstd::arithmetic::div_mod::lemma_fundamental_div_mod(x + y, d);
    assert((x + y) / d - 1 <= x / d + y / d <= (x + y) / d) by (nonlinear_arith)
        requires
            x >= 0,
            y >= 0,
            d > 0,
            x == d * (x / d) + x % d,
            y == d * (y / d) + y % d,
            x + y == d * ((x + y) / d) + (x + y) % d,
            0 <= x % d < d,
            0 <= y % d < d,
            0 <= (x + y) % d < d,
    ;
}

} // verus!
