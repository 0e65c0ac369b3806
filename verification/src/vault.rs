//! Time-locked savings vaults.
//!
//! A vault is created locked for its lock period; deposits grow its
//! balance; withdrawals are refused before the unlock time and never exceed
//! the balance. Interest accrues over non-overlapping periods into a separate
//! informational total and never inflates the withdrawable balance.
use std::collections::HashMap;
use vstd::prelude::*;
use crate::errors::Error;
use crate::interest::calculate_interest;
use crate::types::{Asset, VaultMetadata, VaultStatus};
use crate::utils::{interest_numerator, simple_interest, ValidationHelper};
use crate::vault_id::{
    find_vault_index, generate_vault_id, id_index, lemma_id_index_grow, lemma_id_index_new,
    lemma_id_index_of, vault_id_bytes, VaultId,
};

verus! {

broadcast use vstd::std_specs::hash::group_hash_axioms;

/// Vault contract settings.
#[derive(Clone, Copy, Debug, PartialEq, Eq, Structural)]
pub struct VaultConfig {
    pub max_vaults_per_user: u64,
    pub min_lock_period: u64,
    pub max_lock_period: u64,
    /// Annual rate in basis points (500 = 5%).
    pub interest_rate: i128,
    pub auto_compound: bool,
}

/// The settings in force when none were stored: ten vaults per user, lock
/// periods from one second to five years, 5% interest.
pub open spec fn default_vault_config() -> VaultConfig {
    VaultConfig {
        max_vaults_per_user: 10,
        min_lock_period: 1,
        max_lock_period: 157_788_000,
        interest_rate: 500,
        auto_compound: true,
    }
}

impl Default for VaultConfig {
    fn default() -> (r: Self)
        ensures
            r == default_vault_config(),
    {
        VaultConfig {
            max_vaults_per_user: 10,
            min_lock_period: 1,
            max_lock_period: 157_788_000,
            interest_rate: 500,
            auto_compound: true,
        }
    }
}

/// The settings in force given the stored ones.
pub open spec fn effective_config(c: Option<VaultConfig>) -> VaultConfig {
    match c {
        Some(c) => c,
        None => default_vault_config(),
    }
}

/// Everything stored about one vault.
#[derive(Clone, Copy, Debug, PartialEq, Eq)]
pub struct VaultRecord {
    pub metadata: VaultMetadata,
    /// Withdrawable balance.
    pub balance: i128,
    /// Interest accrued so far (informational, not withdrawable).
    pub accrued_interest: i128,
    /// End of the last accrual period.
    pub last_accrual: u64,
}

/// Accrual of interest on `rec` at `rate` up to `now`: the period since the
/// last accrual is closed at `now`, and the interest it earned (zero for an
/// empty period, balance or rate) is added to the accrued total. Returns the
/// updated record and the interest of the period.
pub open spec fn accrual(rec: VaultRecord, rate: i128, now: u64) -> Result<(VaultRecord, i128), Error> {
    let elapsed: int = if now > rec.last_accrual { now - rec.last_accrual } else { 0 };
    let closed = VaultRecord { last_accrual: now, ..rec };
    if elapsed == 0 || rec.balance <= 0 || rate <= 0 {
        Ok((closed, 0i128))
    } else if interest_numerator(rec.balance as int, rate as int, elapsed) > i128::MAX {
        Err(Error::Overflow)
    } else {
        let interest = simple_interest(rec.balance as int, rate as int, elapsed);
        if interest > 0 {
            if rec.accrued_interest + interest > i128::MAX {
                Err(Error::Overflow)
            } else {
                Ok(
                    (
                        VaultRecord {
                            accrued_interest: (rec.accrued_interest + interest) as i128,
                            ..closed
                        },
                        interest as i128,
                    ),
                )
            }
        } else {
            Ok((closed, interest as i128))
        }
    }
}

/// Whether a vault in state `m` is locked at time `now`.
pub open spec fn locked_at(m: VaultMetadata, now: u64) -> bool {
    m.status == VaultStatus::Locked && now < m.unlock_time
}

/// The savings-vault contract.
///
/// The `n`-th vault created (counting from one) has id
/// `generate_vault_id(n)` and is kept at index `n - 1`.
pub struct VaultContract {
    records: Vec<VaultRecord>,
    user_vaults: HashMap<u64, Vec<u64>>,
    config: Option<VaultConfig>,
    admin: Option<u64>,
    pending_admin: Option<u64>,
    streaks_contract: Option<u64>,
    rewards_contract: Option<u64>,
}

impl VaultContract {
    /// The vaults, in creation order.
    pub closed spec fn vaults(&self) -> Seq<VaultRecord> {
        self.records@
    }

    /// Index of the vault with id bytes `id`, or -1.
    pub open spec fn index_of(&self, id: Seq<u8>) -> int {
        id_index(self.vaults().len() as int, id)
    }

    /// Whether a vault with id `id` exists.
    pub open spec fn has_vault(&self, id: Seq<u8>) -> bool {
        self.index_of(id) >= 0
    }

    /// The record of the vault with id `id` (meaningful when it exists).
    pub open spec fn vault(&self, id: Seq<u8>) -> VaultRecord {
        self.vaults()[self.index_of(id)]
    }

    /// Counters of the vaults listed for `user`.
    pub closed spec fn vaults_of(&self, user: u64) -> Seq<u64> {
        if self.user_vaults@.contains_key(user) {
            self.user_vaults@[user]@
        } else {
            Seq::empty()
        }
    }

    pub closed spec fn config_state(&self) -> Option<VaultConfig> {
        self.config
    }

    pub closed spec fn admin_id(&self) -> Option<u64> {
        self.admin
    }

    pub closed spec fn pending_admin_id(&self) -> Option<u64> {
        self.pending_admin
    }

    /// The linked streaks and rewards contracts.
    pub closed spec fn linked(&self) -> (Option<u64>, Option<u64>) {
        (self.streaks_contract, self.rewards_contract)
    }

    /// No vault holds a negative balance.
    pub open spec fn balances_nonnegative(&self) -> bool {
        forall|i: int| 0 <= i < self.vaults().len() ==> #[trigger] self.vaults()[i].balance >= 0
    }

    /// Only the record at index `k` differs between `self` and `other`, and
    /// it became `rec`; everything else is equal.
    pub open spec fn same_but_record(&self, other: &Self, k: int, rec: VaultRecord) -> bool {
        &&& other.vaults() == self.vaults().update(k, rec)
        &&& forall|u: u64| other.vaults_of(u) == self.vaults_of(u)
        &&& other.config_state() == self.config_state()
        &&& other.admin_id() == self.admin_id()
        &&& other.pending_admin_id() == self.pending_admin_id()
        &&& other.linked() == self.linked()
    }

    /// A contract with no vaults and no stored settings.
    pub fn new() -> (r: Self)
        ensures
            r.vaults() == Seq::<VaultRecord>::empty(),
            forall|u: u64| r.vaults_of(u) == Seq::<u64>::empty(),
            r.config_state() is None,
            r.admin_id() is None,
            r.pending_admin_id() is None,
            r.linked() == (None::<u64>, None::<u64>),
    {
        VaultContract {
            records: Vec::new(),
            user_vaults: HashMap::new(),
            config: None,
            admin: None,
            pending_admin: None,
            streaks_contract: None,
            rewards_contract: None,
        }
    }

    /// Set the admin and link the streaks and rewards contracts. Only once.
    pub fn initialize(&mut self, admin: u64, streaks_contract: u64, rewards_contract: u64) -> (r:
        Result<(), Error>)
        ensures
            old(self).admin_id() is Some ==> r == Err::<(), Error>(Error::AlreadyInitialized)
                && *final(self) == *old(self),
            old(self).admin_id() is None ==> r is Ok && final(self).admin_id() == Some(admin)
                && final(self).linked() == (Some(streaks_contract), Some(rewards_contract))
                && final(self).vaults() == old(self).vaults() && (forall|u: u64|
                final(self).vaults_of(u) == old(self).vaults_of(u)) && final(self).config_state()
                == old(self).config_state() && final(self).pending_admin_id() == old(self).pending_admin_id(),
    {
        if self.admin.is_some() {
            return Err(Error::AlreadyInitialized);
        }
        self.admin = Some(admin);
        self.streaks_contract = Some(streaks_contract);
        self.rewards_contract = Some(rewards_contract);
        Ok(())
    }

    /// The admin, or `NotInitialized`.
    pub fn get_admin(&self) -> (r: Result<u64, Error>)
        ensures
            r == (match self.admin_id() {
                Some(a) => Ok::<u64, Error>(a),
                None => Err::<u64, Error>(Error::NotInitialized),
            }),
    {
        match self.admin {
            Some(a) => Ok(a),
            None => Err(Error::NotInitialized),
        }
    }

    /// The proposed next admin, if a transfer is pending.
    pub fn get_pending_admin(&self) -> (r: Option<u64>)
        ensures
            r == self.pending_admin_id(),
    {
        self.pending_admin
    }

    /// The linked streaks contract, if any.
    pub fn streaks_contract(&self) -> (r: Option<u64>)
        ensures
            r == self.linked().0,
    {
        self.streaks_contract
    }

    /// The linked rewards contract, if any.
    pub fn rewards_contract(&self) -> (r: Option<u64>)
        ensures
            r == self.linked().1,
    {
        self.rewards_contract
    }

    /// Propose `new_admin`; only the current admin may.
    pub fn transfer_admin(&mut self, caller: u64, new_admin: u64) -> (r: Result<(), Error>)
        ensures
            old(self).admin_id() != Some(caller) ==> r == Err::<(), Error>(Error::Unauthorized)
                && *final(self) == *old(self),
            old(self).admin_id() == Some(caller) && new_admin == caller ==> r == Err::<(), Error>(
                Error::CannotTransferToSelf,
            ) && *final(self) == *old(self),
            old(self).admin_id() == Some(caller) && new_admin != caller ==> r is Ok && final(
                self).pending_admin_id() == Some(new_admin) && final(self).admin_id() == old(self).admin_id() && final(self).vaults() == old(self).vaults() && (forall|u: u64|
                final(self).vaults_of(u) == old(self).vaults_of(u)) && final(self).config_state()
                == old(self).config_state() && final(self).linked() == old(self).linked(),
    {
        match self.admin {
            Some(a) => {
                if a != caller {
                    return Err(Error::Unauthorized);
                }
            },
            None => return Err(Error::Unauthorized),
        }
        if new_admin == caller {
            return Err(Error::CannotTransferToSelf);
        }
        self.pending_admin = Some(new_admin);
        Ok(())
    }

    /// Complete a pending admin transfer; only the proposed admin may.
    pub fn accept_admin(&mut self, caller: u64) -> (r: Result<(), Error>)
        ensures
            old(self).pending_admin_id() is None ==> r == Err::<(), Error>(
                Error::NoAdminTransferPending,
            ) && *final(self) == *old(self),
            old(self).pending_admin_id() is Some && old(self).pending_admin_id() != Some(caller)
                ==> r == Err::<(), Error>(Error::Unauthorized) && *final(self) == *old(self),
            old(self).pending_admin_id() == Some(caller) ==> r is Ok && final(self).admin_id()
                == Some(caller) && final(self).pending_admin_id() is None && final(self).vaults()
                == old(self).vaults() && (forall|u: u64|
                final(self).vaults_of(u) == old(self).vaults_of(u)) && final(self).config_state()
                == old(self).config_state() && final(self).linked() == old(self).linked(),
    {
        let pending = match self.pending_admin {
            Some(p) => p,
            None => return Err(Error::NoAdminTransferPending),
        };
        if pending != caller {
            return Err(Error::Unauthorized);
        }
        self.admin = Some(pending);
        self.pending_admin = None;
        Ok(())
    }

    /// Whether `address` is the admin.
    fn is_admin(&self, address: u64) -> (r: bool)
        ensures
            r == (self.admin_id() == Some(address)),
    {
        match self.admin {
            Some(a) => a == address,
            None => false,
        }
    }

    /// Store new settings; only the admin may.
    pub fn set_config(&mut self, caller: u64, config: VaultConfig) -> (r: Result<(), Error>)
        ensures
            old(self).admin_id() != Some(caller) ==> r == Err::<(), Error>(Error::PermissionDenied)
                && *final(self) == *old(self),
            old(self).admin_id() == Some(caller) ==> r is Ok && final(self).config_state() == Some(
                config,
            ) && final(self).vaults() == old(self).vaults() && (forall|u: u64|
                final(self).vaults_of(u) == old(self).vaults_of(u)) && final(self).admin_id()
                == old(self).admin_id() && final(self).pending_admin_id() == old(self).pending_admin_id() && final(self).linked() == old(self).linked(),
    {
        if !self.is_admin(caller) {
            return Err(Error::PermissionDenied);
        }
        self.config = Some(config);
        Ok(())
    }

    /// The settings in force.
    pub fn get_config(&self) -> (r: Result<VaultConfig, Error>)
        ensures
            r == Ok::<VaultConfig, Error>(effective_config(self.config_state())),
    {
        match self.config {
            Some(c) => Ok(c),
            None => Ok(VaultConfig::default()),
        }
    }

    fn user_vault_list(&self, user: u64) -> (r: Vec<u64>)
        ensures
            r@ == self.vaults_of(user),
    {
        match self.user_vaults.get(&user) {
            Some(v) => v.clone(),
            None => Vec::new(),
        }
    }

    /// Create a vault for `owner` holding `token_contract` under `symbol`,
    /// locked for `lock_period` seconds from `now`.
    #[verifier::rlimit(30)]
    pub fn create_vault(
        &mut self,
        owner: u64,
        token_contract: u64,
        symbol: [u8; 32],
        lock_period: u64,
        now: u64,
    ) -> (r: Result<VaultId, Error>)
        ensures
            old(self).balances_nonnegative() ==> final(self).balances_nonnegative(),
            ({
                let cfg = effective_config(old(self).config_state());
                let n = old(self).vaults().len();
                &&& (lock_period < cfg.min_lock_period || lock_period > cfg.max_lock_period) ==> r
                    == Err::<VaultId, Error>(Error::InvalidLockPeriod)
                &&& !(lock_period < cfg.min_lock_period || lock_period > cfg.max_lock_period)
                    && old(self).vaults_of(owner).len() >= cfg.max_vaults_per_user ==> r == Err::<
                    VaultId,
                    Error,
                >(Error::InvalidParameters)
                &&& !(lock_period < cfg.min_lock_period || lock_period > cfg.max_lock_period)
                    && old(self).vaults_of(owner).len() < cfg.max_vaults_per_user && n >= u64::MAX
                    ==> r == Err::<VaultId, Error>(Error::Overflow)
                &&& !(lock_period < cfg.min_lock_period || lock_period > cfg.max_lock_period)
                    && old(self).vaults_of(owner).len() < cfg.max_vaults_per_user && n < u64::MAX
                    && !(1 <= lock_period <= 157_788_000) ==> r == Err::<VaultId, Error>(
                    Error::InvalidLockPeriod,
                )
                &&& !(lock_period < cfg.min_lock_period || lock_period > cfg.max_lock_period)
                    && old(self).vaults_of(owner).len() < cfg.max_vaults_per_user && n < u64::MAX
                    && 1 <= lock_period <= 157_788_000 && now + lock_period > u64::MAX ==> r
                    == Err::<VaultId, Error>(Error::Overflow)
                &&& !(lock_period < cfg.min_lock_period || lock_period > cfg.max_lock_period)
                    && old(self).vaults_of(owner).len() < cfg.max_vaults_per_user && n < u64::MAX
                    && 1 <= lock_period <= 157_788_000 && now + lock_period <= u64::MAX ==> r is Ok
                &&& r is Err ==> *final(self) == *old(self)
                &&& r matches Ok(id) ==> {
                    &&& !(lock_period < cfg.min_lock_period || lock_period > cfg.max_lock_period)
                    &&& old(self).vaults_of(owner).len() < cfg.max_vaults_per_user
                    &&& 1 <= lock_period <= 157_788_000
                    &&& id.0@ == vault_id_bytes((n + 1) as u64)
                    &&& !old(self).has_vault(id.0@)
                    &&& final(self).index_of(id.0@) == n
                    &&& forall|other: Seq<u8>|
                        old(self).has_vault(other) ==> final(self).index_of(other) == old(self).index_of(other)
                    &&& forall|other: Seq<u8>|
                        !old(self).has_vault(other) && other != id.0@ ==> !final(self).has_vault(other)
                    &&& final(self).vaults() == old(self).vaults().push(
                        VaultRecord {
                            metadata: VaultMetadata {
                                owner,
                                asset: Asset {
                                    token: token_contract,
                                    symbol,
                                    code: symbol,
                                    issuer: owner,
                                },
                                lock_period,
                                created_at: now,
                                unlock_time: (now + lock_period) as u64,
                                status: VaultStatus::Locked,
                            },
                            balance: 0,
                            accrued_interest: 0,
                            last_accrual: now,
                        },
                    )
                    &&& final(self).vaults_of(owner) == old(self).vaults_of(owner).push(
                        (n + 1) as u64,
                    )
                    &&& forall|u: u64|
                        u != owner ==> final(self).vaults_of(u) == old(self).vaults_of(u)
                    &&& final(self).config_state() == old(self).config_state()
                    &&& final(self).admin_id() == old(self).admin_id()
                    &&& final(self).pending_admin_id() == old(self).pending_admin_id()
                    &&& final(self).linked() == old(self).linked()
                }
            }),
    {
        let config = match self.get_config() {
            Ok(c) => c,
            Err(e) => return Err(e),
        };
        if lock_period < config.min_lock_period || lock_period > config.max_lock_period {
            return Err(Error::InvalidLockPeriod);
        }
        let mut user_vaults = self.user_vault_list(owner);
        if user_vaults.len() as u64 >= config.max_vaults_per_user {
            return Err(Error::InvalidParameters);
        }
        let count = self.records.len() as u64;
        if count == u64::MAX {
            return Err(Error::Overflow);
        }
        let new_counter = count + 1;
        if !ValidationHelper::validate_lock_period(lock_period) {
            return Err(Error::InvalidLockPeriod);
        }
        let unlock_time = match now.checked_add(lock_period) {
            Some(t) => t,
            None => return Err(Error::Overflow),
        };
        let id = VaultId(generate_vault_id(new_counter));
        proof {
            lemma_id_index_of(new_counter as int, new_counter);
            if id_index(count as int, id.0@) >= 0 {
                let k = id_index(count as int, id.0@);
                assert(vault_id_bytes((k + 1) as u64) == id.0@);
                lemma_id_index_of(new_counter as int, (k + 1) as u64);
            }
        }
        let metadata = VaultMetadata {
            owner,
            asset: Asset { token: token_contract, symbol, code: symbol, issuer: owner },
            lock_period,
            created_at: now,
            unlock_time,
            status: VaultStatus::Locked,
        };
        self.records.push(
            VaultRecord { metadata, balance: 0, accrued_interest: 0, last_accrual: now },
        );
        user_vaults.push(new_counter);
        self.user_vaults.insert(owner, user_vaults);
        proof {
            assert forall|other: Seq<u8>| old(self).has_vault(other) implies self.index_of(other)
                == old(self).index_of(other) by {
                lemma_id_index_grow(count as int, other);
            }
            assert forall|other: Seq<u8>| !old(self).has_vault(other) && other != id.0@ implies !self.has_vault(other) by {
                lemma_id_index_new(count as int, other);
            }
        }
        Ok(id)
    }

    /// Position of the vault with `id`, or `VaultNotFound`.
    fn locate(&self, id: &VaultId) -> (r: Result<usize, Error>)
        ensures
            self.has_vault(id.0@) ==> r is Ok,
            !self.has_vault(id.0@) ==> r == Err::<usize, Error>(Error::VaultNotFound),
            r matches Ok(k) ==> k as int == self.index_of(id.0@) && k < self.vaults().len(),
    {
        match find_vault_index(self.records.len(), id) {
            Some(k) => Ok(k),
            None => Err(Error::VaultNotFound),
        }
    }

    /// Close the open accrual period of `rec` at `now` at rate `rate`.
    fn accrue_record(rec: VaultRecord, rate: i128, now: u64) -> (r: Result<(VaultRecord, i128), Error>)
        ensures
            r == accrual(rec, rate, now),
    {
        let elapsed = now.saturating_sub(rec.last_accrual);
        let mut closed = rec;
        closed.last_accrual = now;
        if elapsed == 0 || rec.balance <= 0 || rate <= 0 {
            return Ok((closed, 0));
        }
        let interest = match calculate_interest(rec.balance, rate, elapsed) {
            Ok(i) => i,
            Err(e) => return Err(e),
        };
        if interest > 0 {
            let total = match rec.accrued_interest.checked_add(interest) {
                Some(t) => t,
                None => return Err(Error::Overflow),
            };
            closed.accrued_interest = total;
        }
        Ok((closed, interest))
    }

    /// Accrue the vault's interest for the period since its last accrual up
    /// to `now`; returns the interest of that period.
    pub fn accrue_vault_interest(&mut self, vault_id: &VaultId, now: u64) -> (r: Result<i128, Error>)
        ensures
            old(self).balances_nonnegative() ==> final(self).balances_nonnegative(),
            !old(self).has_vault(vault_id.0@) ==> r == Err::<i128, Error>(Error::VaultNotFound)
                && *final(self) == *old(self),
            old(self).has_vault(vault_id.0@) ==> match accrual(
                old(self).vault(vault_id.0@),
                effective_config(old(self).config_state()).interest_rate,
                now,
            ) {
                Err(e) => r == Err::<i128, Error>(e) && *final(self) == *old(self),
                Ok((rec, interest)) => r == Ok::<i128, Error>(interest) && old(self).same_but_record(
                    &*final(self),
                    old(self).index_of(vault_id.0@),
                    rec,
                ),
            },
    {
        let k = match self.locate(vault_id) {
            Ok(k) => k,
            Err(e) => return Err(e),
        };
        let config = match self.get_config() {
            Ok(c) => c,
            Err(e) => return Err(e),
        };
        let (rec, interest) = match Self::accrue_record(self.records[k], config.interest_rate, now) {
            Ok(v) => v,
            Err(e) => return Err(e),
        };
        self.records.set(k, rec);
        Ok(interest)
    }

    /// The vault's record after depositing `amount` at `now` (its interest
    /// accrued first), or the error of the deposit.
    pub open spec fn deposit_result(&self, id: Seq<u8>, amount: i128, now: u64) -> Result<
        VaultRecord,
        Error,
    > {
        if amount <= 0 {
            Err(Error::InvalidAmount)
        } else if !self.has_vault(id) {
            Err(Error::VaultNotFound)
        } else {
            match accrual(self.vault(id), effective_config(self.config_state()).interest_rate, now) {
                Err(e) => Err(e),
                Ok((rec, _)) => if rec.balance + amount > i128::MAX {
                    Err(Error::Overflow)
                } else {
                    Ok(VaultRecord { balance: (rec.balance + amount) as i128, ..rec })
                },
            }
        }
    }

    /// Position and new record of a deposit, without storing it.
    fn deposit_record(&self, vault_id: &VaultId, amount: i128, now: u64) -> (r: Result<
        (usize, VaultRecord),
        Error,
    >)
        ensures
            match self.deposit_result(vault_id.0@, amount, now) {
                Err(e) => r == Err::<(usize, VaultRecord), Error>(e),
                Ok(rec) => r matches Ok((k, rec2)) && k as int == self.index_of(vault_id.0@) && k
                    < self.vaults().len() && rec2 == rec,
            },
    {
        if !ValidationHelper::validate_positive_amount(amount) {
            return Err(Error::InvalidAmount);
        }
        let k = match self.locate(vault_id) {
            Ok(k) => k,
            Err(e) => return Err(e),
        };
        let config = match self.get_config() {
            Ok(c) => c,
            Err(e) => return Err(e),
        };
        let (mut rec, _interest) = match Self::accrue_record(
            self.records[k],
            config.interest_rate,
            now,
        ) {
            Ok(v) => v,
            Err(e) => return Err(e),
        };
        rec.balance = match rec.balance.checked_add(amount) {
            Some(b) => b,
            None => return Err(Error::Overflow),
        };
        Ok((k, rec))
    }

    /// Whether a deposit of `amount` at `now` would succeed, and its error
    /// if not; nothing is changed.
    pub fn check_deposit(&self, vault_id: &VaultId, amount: i128, now: u64) -> (r: Result<
        (),
        Error,
    >)
        ensures
            match self.deposit_result(vault_id.0@, amount, now) {
                Err(e) => r == Err::<(), Error>(e),
                Ok(_) => r is Ok,
            },
    {
        match self.deposit_record(vault_id, amount, now) {
            Ok(_) => Ok(()),
            Err(e) => Err(e),
        }
    }

    /// Deposit `amount` into the vault at time `now`, after accruing its
    /// interest. The token transfer into custody is performed around this
    /// transition and reverts it when it fails.
    pub fn deposit(&mut self, vault_id: &VaultId, amount: i128, now: u64) -> (r: Result<(), Error>)
        ensures
            old(self).balances_nonnegative() ==> final(self).balances_nonnegative(),
            match old(self).deposit_result(vault_id.0@, amount, now) {
                Err(e) => r == Err::<(), Error>(e) && *final(self) == *old(self),
                Ok(rec) => r is Ok && old(self).same_but_record(
                    &*final(self),
                    old(self).index_of(vault_id.0@),
                    rec,
                ),
            },
    {
        let (k, rec) = match self.deposit_record(vault_id, amount, now) {
            Ok(v) => v,
            Err(e) => return Err(e),
        };
        self.records.set(k, rec);
        Ok(())
    }

    /// Withdraw `amount` from the vault at time `now`; only its owner may,
    /// and only once the unlock time is reached. A locked vault past its
    /// unlock time becomes `Unlocked`. The token transfer out of custody is
    /// performed around this transition.
    #[verifier::rlimit(30)]
    pub fn withdraw(&mut self, vault_id: &VaultId, caller: u64, amount: i128, now: u64) -> (r:
        Result<(), Error>)
        ensures
            old(self).balances_nonnegative() ==> final(self).balances_nonnegative(),
            ({
                let rate = effective_config(old(self).config_state()).interest_rate;
                let k = old(self).index_of(vault_id.0@);
                let v = old(self).vault(vault_id.0@);
                let outcome = accrual(v, rate, now);
                let rec = outcome->Ok_0.0;
                let status = if v.metadata.status == VaultStatus::Locked {
                    VaultStatus::Unlocked
                } else {
                    v.metadata.status
                };
                &&& !old(self).has_vault(vault_id.0@) ==> r == Err::<(), Error>(
                    Error::VaultNotFound,
                )
                &&& old(self).has_vault(vault_id.0@) && caller != v.metadata.owner ==> r == Err::<
                    (),
                    Error,
                >(Error::Unauthorized)
                &&& old(self).has_vault(vault_id.0@) && caller == v.metadata.owner && amount <= 0
                    ==> r == Err::<(), Error>(Error::InvalidAmount)
                &&& old(self).has_vault(vault_id.0@) && caller == v.metadata.owner && amount > 0
                    && outcome is Err ==> r == Err::<(), Error>(outcome->Err_0)
                &&& old(self).has_vault(vault_id.0@) && caller == v.metadata.owner && amount > 0
                    && outcome is Ok && locked_at(v.metadata, now) ==> r == Err::<(), Error>(
                    Error::VaultLocked,
                )
                &&& old(self).has_vault(vault_id.0@) && caller == v.metadata.owner && amount > 0
                    && outcome is Ok && !locked_at(v.metadata, now) && amount > rec.balance ==> r
                    == Err::<(), Error>(Error::InsufficientBalance)
                &&& old(self).has_vault(vault_id.0@) && caller == v.metadata.owner && amount > 0
                    && outcome is Ok && !locked_at(v.metadata, now) && amount <= rec.balance ==> r
                    is Ok && old(self).same_but_record(
                    &*final(self),
                    k,
                    VaultRecord {
                        balance: (rec.balance - amount) as i128,
                        metadata: VaultMetadata { status, ..rec.metadata },
                        ..rec
                    },
                )
                &&& r is Err ==> *final(self) == *old(self)
            }),
    {
        let k = match self.locate(vault_id) {
            Ok(k) => k,
            Err(e) => return Err(e),
        };
        let current = self.records[k];
        if caller != current.metadata.owner {
            return Err(Error::Unauthorized);
        }
        if !ValidationHelper::validate_positive_amount(amount) {
            return Err(Error::InvalidAmount);
        }
        let config = match self.get_config() {
            Ok(c) => c,
            Err(e) => return Err(e),
        };
        let (mut rec, _interest) = match Self::accrue_record(current, config.interest_rate, now) {
            Ok(v) => v,
            Err(e) => return Err(e),
        };
        if rec.metadata.status == VaultStatus::Locked {
            if now < rec.metadata.unlock_time {
                return Err(Error::VaultLocked);
            }
            rec.metadata.status = VaultStatus::Unlocked;
        }
        if amount > rec.balance {
            return Err(Error::InsufficientBalance);
        }
        rec.balance = rec.balance - amount;
        self.records.set(k, rec);
        Ok(())
    }

    /// The vault's withdrawable balance.
    pub fn get_balance(&self, vault_id: &VaultId) -> (r: Result<i128, Error>)
        ensures
            self.has_vault(vault_id.0@) ==> r == Ok::<i128, Error>(self.vault(vault_id.0@).balance),
            !self.has_vault(vault_id.0@) ==> r == Err::<i128, Error>(Error::VaultNotFound),
    {
        match self.locate(vault_id) {
            Ok(k) => Ok(self.records[k].balance),
            Err(e) => Err(e),
        }
    }

    /// The vault's metadata.
    pub fn get_vault(&self, vault_id: &VaultId) -> (r: Result<VaultMetadata, Error>)
        ensures
            self.has_vault(vault_id.0@) ==> r == Ok::<VaultMetadata, Error>(
                self.vault(vault_id.0@).metadata,
            ),
            !self.has_vault(vault_id.0@) ==> r == Err::<VaultMetadata, Error>(Error::VaultNotFound),
    {
        match self.locate(vault_id) {
            Ok(k) => Ok(self.records[k].metadata),
            Err(e) => Err(e),
        }
    }

    /// The vault's metadata, looked up by its raw id bytes.
    pub fn get_vault_by_bytes(&self, vault_id: [u8; 32]) -> (r: Result<VaultMetadata, Error>)
        ensures
            self.has_vault(vault_id@) ==> r == Ok::<VaultMetadata, Error>(
                self.vault(vault_id@).metadata,
            ),
            !self.has_vault(vault_id@) ==> r == Err::<VaultMetadata, Error>(Error::VaultNotFound),
    {
        self.get_vault(&VaultId(vault_id))
    }

    /// The vault's lock period.
    pub fn get_lock_period(&self, vault_id: &VaultId) -> (r: Result<u64, Error>)
        ensures
            self.has_vault(vault_id.0@) ==> r == Ok::<u64, Error>(
                self.vault(vault_id.0@).metadata.lock_period,
            ),
            !self.has_vault(vault_id.0@) ==> r == Err::<u64, Error>(Error::VaultNotFound),
    {
        match self.get_vault(vault_id) {
            Ok(m) => Ok(m.lock_period),
            Err(e) => Err(e),
        }
    }

    /// The vault's unlock time.
    pub fn get_unlock_time(&self, vault_id: &VaultId) -> (r: Result<u64, Error>)
        ensures
            self.has_vault(vault_id.0@) ==> r == Ok::<u64, Error>(
                self.vault(vault_id.0@).metadata.unlock_time,
            ),
            !self.has_vault(vault_id.0@) ==> r == Err::<u64, Error>(Error::VaultNotFound),
    {
        match self.get_vault(vault_id) {
            Ok(m) => Ok(m.unlock_time),
            Err(e) => Err(e),
        }
    }

    /// Interest accrued on the vault so far.
    pub fn get_accrued_interest(&self, vault_id: &VaultId) -> (r: Result<i128, Error>)
        ensures
            self.has_vault(vault_id.0@) ==> r == Ok::<i128, Error>(
                self.vault(vault_id.0@).accrued_interest,
            ),
            !self.has_vault(vault_id.0@) ==> r == Err::<i128, Error>(Error::VaultNotFound),
    {
        match self.locate(vault_id) {
            Ok(k) => Ok(self.records[k].accrued_interest),
            Err(e) => Err(e),
        }
    }

    /// End of the vault's last accrual period.
    pub fn get_last_accrual_time(&self, vault_id: &VaultId) -> (r: Result<u64, Error>)
        ensures
            self.has_vault(vault_id.0@) ==> r == Ok::<u64, Error>(
                self.vault(vault_id.0@).last_accrual,
            ),
            !self.has_vault(vault_id.0@) ==> r == Err::<u64, Error>(Error::VaultNotFound),
    {
        match self.locate(vault_id) {
            Ok(k) => Ok(self.records[k].last_accrual),
            Err(e) => Err(e),
        }
    }

    /// Ids of the vaults listed for `user`.
    pub fn get_user_vaults(&self, user: u64) -> (r: Result<Vec<VaultId>, Error>)
        ensures
            r matches Ok(ids) && ids@.len() == self.vaults_of(user).len() && (forall|i: int|
                0 <= i < ids@.len() ==> (#[trigger] ids@[i]).0@ == vault_id_bytes(
                    self.vaults_of(user)[i],
                )),
    {
        let counters = self.user_vault_list(user);
        let mut ids: Vec<VaultId> = Vec::new();
        let mut i: usize = 0;
        while i < counters.len()
            invariant
                i <= counters@.len(),
                counters@ == self.vaults_of(user),
                ids@.len() == i,
                forall|j: int| 0 <= j < i ==> (#[trigger] ids@[j]).0@ == vault_id_bytes(counters@[j]),
            decreases counters@.len() - i,
        {
            ids.push(VaultId(generate_vault_id(counters[i])));
            i += 1;
        }
        Ok(ids)
    }

    /// Whether the vault is locked at `now`: status `Locked` and `now`
    /// strictly before the unlock time.
    pub fn is_locked(&self, vault_id: &VaultId, now: u64) -> (r: Result<bool, Error>)
        ensures
            self.has_vault(vault_id.0@) ==> r == Ok::<bool, Error>(
                locked_at(self.vault(vault_id.0@).metadata, now),
            ),
            !self.has_vault(vault_id.0@) ==> r == Err::<bool, Error>(Error::VaultNotFound),
    {
        match self.get_vault(vault_id) {
            Ok(m) => Ok(m.status == VaultStatus::Locked && now < m.unlock_time),
            Err(e) => Err(e),
        }
    }

    /// Replace the status of the vault at `k`.
    fn set_status(&mut self, k: usize, status: VaultStatus)
        requires
            k < old(self).vaults().len(),
        ensures
            old(self).balances_nonnegative() ==> final(self).balances_nonnegative(),
            old(self).same_but_record(
                &*final(self),
                k as int,
                VaultRecord {
                    metadata: VaultMetadata { status, ..old(self).vaults()[k as int].metadata },
                    ..old(self).vaults()[k as int]
                },
            ),
    {
        let mut rec = self.records[k];
        rec.metadata.status = status;
        self.records.set(k, rec);
    }

    /// Lock an `Active` vault (used while it backs a loan).
    pub fn lock_vault(&mut self, vault_id: &VaultId) -> (r: Result<(), Error>)
        ensures
            old(self).balances_nonnegative() ==> final(self).balances_nonnegative(),
            ({
                let v = old(self).vault(vault_id.0@);
                &&& !old(self).has_vault(vault_id.0@) ==> r == Err::<(), Error>(
                    Error::VaultNotFound,
                ) && *final(self) == *old(self)
                &&& old(self).has_vault(vault_id.0@) && v.metadata.status != VaultStatus::Active
                    ==> r == Err::<(), Error>(Error::InvalidParameters) && *final(self) == *old(self)
                &&& old(self).has_vault(vault_id.0@) && v.metadata.status == VaultStatus::Active
                    ==> r is Ok && old(self).same_but_record(
                    &*final(self),
                    old(self).index_of(vault_id.0@),
                    VaultRecord {
                        metadata: VaultMetadata { status: VaultStatus::Locked, ..v.metadata },
                        ..v
                    },
                )
            }),
    {
        let k = match self.locate(vault_id) {
            Ok(k) => k,
            Err(e) => return Err(e),
        };
        if self.records[k].metadata.status != VaultStatus::Active {
            return Err(Error::InvalidParameters);
        }
        self.set_status(k, VaultStatus::Locked);
        Ok(())
    }

    /// Mark a matured `Locked` vault `Unlocked`, once its unlock time is
    /// reached at `now`; a vault is unlocked at most once.
    pub fn unlock_vault(&mut self, vault_id: &VaultId, now: u64) -> (r: Result<(), Error>)
        ensures
            old(self).balances_nonnegative() ==> final(self).balances_nonnegative(),
            ({
                let v = old(self).vault(vault_id.0@);
                &&& !old(self).has_vault(vault_id.0@) ==> r == Err::<(), Error>(
                    Error::VaultNotFound,
                ) && *final(self) == *old(self)
                &&& old(self).has_vault(vault_id.0@) && v.metadata.status == VaultStatus::Unlocked
                    ==> r == Err::<(), Error>(Error::VaultAlreadyUnlocked) && *final(self) == *old(self)
                &&& old(self).has_vault(vault_id.0@) && v.metadata.status != VaultStatus::Unlocked
                    && v.metadata.status != VaultStatus::Locked ==> r == Err::<(), Error>(
                    Error::InvalidParameters,
                ) && *final(self) == *old(self)
                &&& old(self).has_vault(vault_id.0@) && v.metadata.status == VaultStatus::Locked
                    && now < v.metadata.unlock_time ==> r == Err::<(), Error>(Error::VaultLocked)
                    && *final(self) == *old(self)
                &&& old(self).has_vault(vault_id.0@) && v.metadata.status == VaultStatus::Locked
                    && now >= v.metadata.unlock_time ==> r is Ok && old(self).same_but_record(
                    &*final(self),
                    old(self).index_of(vault_id.0@),
                    VaultRecord {
                        metadata: VaultMetadata { status: VaultStatus::Unlocked, ..v.metadata },
                        ..v
                    },
                )
            }),
    {
        let k = match self.locate(vault_id) {
            Ok(k) => k,
            Err(e) => return Err(e),
        };
        let status = self.records[k].metadata.status;
        if status != VaultStatus::Locked {
            if status == VaultStatus::Unlocked {
                return Err(Error::VaultAlreadyUnlocked);
            }
            return Err(Error::InvalidParameters);
        }
        if now < self.records[k].metadata.unlock_time {
            return Err(Error::VaultLocked);
        }
        self.set_status(k, VaultStatus::Unlocked);
        Ok(())
    }

    /// Return a `Locked` vault to `Active` (after the loan it backs is
    /// repaid).
    pub fn unlock_collateral_vault(&mut self, vault_id: &VaultId) -> (r: Result<(), Error>)
        ensures
            old(self).balances_nonnegative() ==> final(self).balances_nonnegative(),
            ({
                let v = old(self).vault(vault_id.0@);
                &&& !old(self).has_vault(vault_id.0@) ==> r == Err::<(), Error>(
                    Error::VaultNotFound,
                ) && *final(self) == *old(self)
                &&& old(self).has_vault(vault_id.0@) && v.metadata.status != VaultStatus::Locked
                    ==> r == Err::<(), Error>(Error::InvalidParameters) && *final(self) == *old(self)
                &&& old(self).has_vault(vault_id.0@) && v.metadata.status == VaultStatus::Locked
                    ==> r is Ok && old(self).same_but_record(
                    &*final(self),
                    old(self).index_of(vault_id.0@),
                    VaultRecord {
                        metadata: VaultMetadata { status: VaultStatus::Active, ..v.metadata },
                        ..v
                    },
                )
            }),
    {
        let k = match self.locate(vault_id) {
            Ok(k) => k,
            Err(e) => return Err(e),
        };
        if self.records[k].metadata.status != VaultStatus::Locked {
            return Err(Error::InvalidParameters);
        }
        self.set_status(k, VaultStatus::Active);
        Ok(())
    }

    /// Hand the vault to `new_owner` (used in liquidation): it leaves the old
    /// owner's list, becomes `Active`, and joins the end of the new owner's
    /// list.
    #[verifier::rlimit(30)]
    pub fn transfer_vault_ownership(&mut self, vault_id: &VaultId, new_owner: u64) -> (r: Result<
        (),
        Error,
    >)
        ensures
            old(self).balances_nonnegative() ==> final(self).balances_nonnegative(),
            ({
                let v = old(self).vault(vault_id.0@);
                let k = old(self).index_of(vault_id.0@);
                let c = (k + 1) as u64;
                let old_owner = v.metadata.owner;
                &&& !old(self).has_vault(vault_id.0@) ==> r == Err::<(), Error>(
                    Error::VaultNotFound,
                ) && *final(self) == *old(self)
                &&& old(self).has_vault(vault_id.0@) ==> r is Ok && final(self).vaults() == old(self).vaults().update(
                    k,
                    VaultRecord {
                        metadata: VaultMetadata {
                            owner: new_owner,
                            status: VaultStatus::Active,
                            ..v.metadata
                        },
                        ..v
                    },
                ) && final(self).vaults_of(new_owner) == (if new_owner == old_owner {
                    old(self).vaults_of(old_owner).filter(|x: u64| x != c)
                } else {
                    old(self).vaults_of(new_owner)
                }).push(c) && (new_owner != old_owner ==> final(self).vaults_of(old_owner) == old(self).vaults_of(old_owner).filter(|x: u64| x != c)) && (forall|u: u64|
                    u != old_owner && u != new_owner ==> final(self).vaults_of(u) == old(self).vaults_of(u)) && final(self).config_state() == old(self).config_state()
                    && final(self).admin_id() == old(self).admin_id() && final(
                    self).pending_admin_id() == old(self).pending_admin_id() && final(self).linked()
                    == old(self).linked()
            }),
    {
        let k = match self.locate(vault_id) {
            Ok(k) => k,
            Err(e) => return Err(e),
        };
        let ghost c = (k + 1) as u64;
        assert(k < self.records.len());
        let counter = (k + 1) as u64;
        let mut rec = self.records[k];
        let old_owner = rec.metadata.owner;
        let old_list = self.user_vault_list(old_owner);
        let mut kept: Vec<u64> = Vec::new();
        let mut i: usize = 0;
        while i < old_list.len()
            invariant
                i <= old_list@.len(),
                kept@ == old_list@.take(i as int).filter(|x: u64| x != counter),
            decreases old_list@.len() - i,
        {
            proof {
                assert(old_list@.take(i + 1).drop_last() =~= old_list@.take(i as int));
                reveal_with_fuel(Seq::<_>::filter, 1);
            }
            if old_list[i] != counter {
                kept.push(old_list[i]);
            }
            i += 1;
        }
        assert(old_list@.take(old_list@.len() as int) =~= old_list@);
        assert(counter == c);
        self.user_vaults.insert(old_owner, kept);
        rec.metadata.owner = new_owner;
        rec.metadata.status = VaultStatus::Active;
        self.records.set(k, rec);
        let mut new_list = self.user_vault_list(new_owner);
        new_list.push(counter);
        self.user_vaults.insert(new_owner, new_list);
        Ok(())
    }
}

/// Accruing twice at the same time adds nothing the second time: the
/// period closed by the first accrual is empty for the second.
pub proof fn law_accrual_same_time_adds_nothing(rec: VaultRecord, rate: i128, now: u64)
    requires
        accrual(rec, rate, now) is Ok,
    ensures
        accrual(accrual(rec, rate, now)->Ok_0.0, rate, now) == Ok::<(VaultRecord, i128), Error>(
            (accrual(rec, rate, now)->Ok_0.0, 0i128),
        ),
{
}

/// Accrual never touches the withdrawable balance or the metadata; it only
/// closes the period at `now` and adds the period's interest, which is never
/// negative, to the informational total.
pub proof fn law_accrual_keeps_balance(rec: VaultRecord, rate: i128, now: u64)
    requires
        accrual(rec, rate, now) is Ok,
    ensures
        accrual(rec, rate, now)->Ok_0.0.balance == rec.balance,
        accrual(rec, rate, now)->Ok_0.0.metadata == rec.metadata,
        accrual(rec, rate, now)->Ok_0.0.last_accrual == now,
        accrual(rec, rate, now)->Ok_0.1 >= 0,
        accrual(rec, rate, now)->Ok_0.0.accrued_interest == rec.accrued_interest + accrual(
            rec,
            rate,
            now,
        )->Ok_0.1,
{
    let elapsed: int = if now > rec.last_accrual { now - rec.last_accrual } else { 0 };
    if !(elapsed == 0 || rec.balance <= 0 || rate <= 0) {
        assert(interest_numerator(rec.balance as int, rate as int, elapsed) >= 0) by (
        nonlinear_arith)
            requires
                rec.balance > 0,
                rate > 0,
                elapsed > 0,
        ;
    }
}

/// Interest accrued over two consecutive periods never exceeds the interest
/// of the whole span, and falls short of it by at most one unit (each
/// period is rounded down on its own).
pub proof fn law_split_periods(balance: int, rate: int, first: int, second: int)
    requires
        balance >= 0,
        rate >= 0,
        first >= 0,
        second >= 0,
    ensures
        simple_interest(balance, rate, first) + simple_interest(balance, rate, second)
            <= simple_interest(balance, rate, first + second),
        simple_interest(balance, rate, first + second) <= simple_interest(balance, rate, first)
            + simple_interest(balance, rate, second) + 1,
{
    let x = interest_numerator(balance, rate, first);
    let y = interest_numerator(balance, rate, second);
    let d: int = 315_360_000_000;
    assert(x + y == interest_numerator(balance, rate, first + second)) by (nonlinear_arith)
        requires
            x == balance * rate * first,
            y == balance * rate * second,
    ;
    assert(x >= 0 && y >= 0) by (nonlinear_arith)
        requires
            x == balance * rate * first,
            y == balance * rate * second,
            balance >= 0,
            rate >= 0,
            first >= 0,
            second >= 0,
    ;
    assert(x / d + y / d <= (x + y) / d <= x / d + y / d + 1) by (nonlinear_arith)
        requires
            x >= 0,
            y >= 0,
            d > 0,
    {
        vstd::arithmetic::div_mod::lemma_fundamental_div_mod(x, d);
        vstd::arithmetic::div_mod::lemma_fundamental_div_mod(y, d);
        vstd::arithmetic::div_mod::lemma_fundamental_div_mod(x + y, d);
    }
}

/// A successful deposit credits exactly the amount deposited to the
/// withdrawable balance.
pub proof fn law_deposit_credits_amount(c: VaultContract, id: Seq<u8>, amount: i128, now: u64)
    requires
        c.deposit_result(id, amount, now) is Ok,
    ensures
        c.deposit_result(id, amount, now)->Ok_0.balance == c.vault(id).balance + amount,
        c.deposit_result(id, amount, now)->Ok_0.metadata == c.vault(id).metadata,
{
    law_accrual_keeps_balance(c.vault(id), effective_config(c.config_state()).interest_rate, now);
}

/// A vault appended by `create_vault` is found again under its id, with
/// what was stored.
pub proof fn law_created_vault_is_found(
    before: VaultContract,
    after: VaultContract,
    id: Seq<u8>,
    rec: VaultRecord,
)
    requires
        after.vaults() == before.vaults().push(rec),
        after.index_of(id) == before.vaults().len(),
    ensures
        after.has_vault(id),
        after.vault(id) == rec,
{
}

} // verus!
