//! Lending pools.
//!
//! Suppliers deposit a pool's asset for shares and redeem shares for tokens
//! while the pool holds enough liquidity; the borrowing contract bound to a
//! pool draws, repays and re-books its debt. Deposits stop while an admin
//! holds the pool in an emergency stop or its rate limit is used up. Before
//! any movement of a pool's funds and any read of its accounting, the
//! interest of the outstanding debt since the last accrual is added to the
//! pool's accrued interest and its interest index grows. A failed operation
//! changes nothing.
use std::collections::HashMap;
use vstd::prelude::*;
use crate::errors::Error;
use crate::fixed_math::{
    grown_index, fixed_interest, lemma_fixed_interest_fits, lemma_mul_div_fits, lemma_mul_trunc_div_cancel, redeem_value,
    share_interest, shares_for_deposit, FixedMath,
};
use crate::positions::PositionBook;
use crate::reward_ledger::rate_limit_after;
use crate::table::ByteKeyMap;
use crate::types::{
    EmergencyStop, InterestParams, Permission, PoolAccounting, PoolConfig, PoolStatus, RateLimit,
    Role, ShareBalance, FIXED_SCALE,
};
use crate::utils::{trunc_div, SafeMath, ValidationHelper, SECONDS_PER_YEAR};

verus! {

broadcast use vstd::std_specs::hash::group_hash_axioms;

/// Everything stored about one lending pool.
#[derive(Clone, Copy, Debug, PartialEq, Eq)]
pub struct PoolState {
    pub config: PoolConfig,
    pub accounting: PoolAccounting,
    pub params: InterestParams,
    /// The borrowing contract allowed to move the pool's funds; set once.
    pub borrowing_contract: Option<u64>,
}

/// Whether `v` fits in an `i128`.
pub open spec fn fits(v: int) -> bool {
    i128::MIN <= v <= i128::MAX
}

/// Fixed-point rate per second of an annual rate of `bps` basis points.
pub open spec fn rate_per_second(bps: int) -> int {
    (bps * 100_000_000_000_000) / (SECONDS_PER_YEAR as int)
}

/// A new pool of `asset` run by `admin` at `rate` basis points a year: no
/// assets, shares or debt, an interest index of one, accrual from `now`.
pub open spec fn new_pool_state(admin: u64, asset: [u8; 32], rate: i128, now: u64) -> PoolState {
    PoolState {
        config: PoolConfig { asset, admin, interest_rate: rate, last_update: now, reserve_factor: 0 },
        accounting: PoolAccounting {
            total_assets: 0,
            total_shares: 0,
            available_liquidity: 0,
            outstanding_debt: 0,
            accrued_interest: 0,
            interest_index: FIXED_SCALE,
        },
        params: InterestParams {
            rate_per_second: rate_per_second(rate as int) as i128,
            last_accrual_time: now,
            utilization_multiplier: 10000,
            base_rate: rate,
        },
        borrowing_contract: None,
    }
}

/// Pool `st` brought up to `now`: when time has passed since the last
/// accrual, the interest of the outstanding debt over that time is added to
/// the accrued interest, the interest index grows by the rate over that
/// time, and the accrual time moves to `now`. `Overflow` when a value does
/// not fit.
pub open spec fn accrue_state(st: PoolState, now: u64) -> Result<PoolState, Error> {
    if now <= st.params.last_accrual_time {
        Ok(st)
    } else {
        let elapsed: int = now - st.params.last_accrual_time;
        let a = st.accounting;
        let rate = st.params.rate_per_second as int;
        let accrued: Option<int> = if a.outstanding_debt > 0 {
            match fixed_interest(a.outstanding_debt as int, rate, elapsed) {
                Some(i) => if fits(a.accrued_interest + i) {
                    Some(a.accrued_interest + i)
                } else {
                    None
                },
                None => None,
            }
        } else {
            Some(a.accrued_interest as int)
        };
        match (accrued, grown_index(a.interest_index as int, rate, elapsed)) {
            (Some(ai), Some(ix)) => Ok(
                PoolState {
                    accounting: PoolAccounting {
                        accrued_interest: ai as i128,
                        interest_index: ix as i128,
                        ..a
                    },
                    params: InterestParams { last_accrual_time: now, ..st.params },
                    ..st
                },
            ),
            _ => Err(Error::Overflow),
        }
    }
}

/// A deposit of `amount` into pool `st` at `now` by a lender holding `held`:
/// the pool is accrued, shares are minted at the pool's price, and the
/// pool's assets, shares and liquidity and the lender's shares grow. Gives
/// the pool and the lender's position afterwards.
pub open spec fn deposit_effect(st: PoolState, held: Option<ShareBalance>, amount: i128, now: u64) -> Result<
    (PoolState, ShareBalance),
    Error,
> {
    match accrue_state(st, now) {
        Err(e) => Err(e),
        Ok(s) => {
            let a = s.accounting;
            let prior: int = match held {
                Some(b) => b.shares as int,
                None => 0,
            };
            match shares_for_deposit(amount as int, a.total_assets as int, a.total_shares as int) {
                None => Err(Error::Overflow),
                Some(minted) => if !fits(a.total_assets + amount) || !fits(a.total_shares + minted)
                    || !fits(a.available_liquidity + amount) || !fits(prior + minted) {
                    Err(Error::Overflow)
                } else {
                    Ok(
                        (
                            PoolState {
                                accounting: PoolAccounting {
                                    total_assets: (a.total_assets + amount) as i128,
                                    total_shares: (a.total_shares + minted) as i128,
                                    available_liquidity: (a.available_liquidity + amount) as i128,
                                    ..a
                                },
                                ..s
                            },
                            ShareBalance {
                                shares: (prior + minted) as i128,
                                last_interest_index: a.interest_index,
                            },
                        ),
                    )
                },
            }
        },
    }
}

/// A redemption of `shares` from pool `st` at `now` by a lender holding
/// `held`: the pool is accrued; refused when the lender holds fewer shares
/// or the pool's liquidity does not cover their value. Gives the pool, the
/// lender's position and the tokens paid.
pub open spec fn withdraw_effect(st: PoolState, held: Option<ShareBalance>, shares: i128, now: u64) -> Result<
    (PoolState, ShareBalance, i128),
    Error,
> {
    match accrue_state(st, now) {
        Err(e) => Err(e),
        Ok(s) => {
            let a = s.accounting;
            match held {
                None => Err(Error::InsufficientShares),
                Some(b) => if b.shares < shares {
                    Err(Error::InsufficientShares)
                } else {
                    match redeem_value(shares as int, a.total_assets as int, a.total_shares as int) {
                        None => Err(Error::Underflow),
                        Some(paid) => if paid > a.available_liquidity {
                            Err(Error::InsufficientLiquidity)
                        } else if !fits(a.total_assets - paid) || !fits(a.total_shares - shares)
                            || !fits(a.available_liquidity - paid) {
                            Err(Error::Underflow)
                        } else {
                            Ok(
                                (
                                    PoolState {
                                        accounting: PoolAccounting {
                                            total_assets: (a.total_assets - paid) as i128,
                                            total_shares: (a.total_shares - shares) as i128,
                                            available_liquidity: (a.available_liquidity
                                                - paid) as i128,
                                            ..a
                                        },
                                        ..s
                                    },
                                    ShareBalance {
                                        shares: (b.shares - shares) as i128,
                                        last_interest_index: a.interest_index,
                                    },
                                    paid as i128,
                                ),
                            )
                        },
                    }
                },
            }
        },
    }
}

/// `amount` lent out of pool `st` at `now` on behalf of `caller`: only the
/// bound borrowing contract may; the pool is accrued and the amount moves
/// from liquidity to debt when the liquidity covers it.
pub open spec fn borrow_effect(st: PoolState, caller: u64, amount: i128, now: u64) -> Result<
    PoolState,
    Error,
> {
    if st.borrowing_contract != Some(caller) {
        Err(Error::Unauthorized)
    } else {
        match accrue_state(st, now) {
            Err(e) => Err(e),
            Ok(s) => {
                let a = s.accounting;
                if a.available_liquidity < amount {
                    Err(Error::InsufficientLiquidity)
                } else if !fits(a.available_liquidity - amount) {
                    Err(Error::Underflow)
                } else if !fits(a.outstanding_debt + amount) {
                    Err(Error::Overflow)
                } else {
                    Ok(
                        PoolState {
                            accounting: PoolAccounting {
                                available_liquidity: (a.available_liquidity - amount) as i128,
                                outstanding_debt: (a.outstanding_debt + amount) as i128,
                                ..a
                            },
                            ..s
                        },
                    )
                }
            },
        }
    }
}

/// `principal` and `interest` paid back into pool `st` at `now` on behalf of
/// `caller`: only the bound borrowing contract may; both return to the
/// liquidity, the principal leaves the debt and the interest is added to the
/// accrued interest.
pub open spec fn repay_effect(
    st: PoolState,
    caller: u64,
    principal: i128,
    interest: i128,
    now: u64,
) -> Result<PoolState, Error> {
    if st.borrowing_contract != Some(caller) {
        Err(Error::Unauthorized)
    } else {
        match accrue_state(st, now) {
            Err(e) => Err(e),
            Ok(s) => {
                let a = s.accounting;
                if !fits(principal + interest) || !fits(a.available_liquidity + principal + interest) {
                    Err(Error::Overflow)
                } else if !fits(a.outstanding_debt - principal) {
                    Err(Error::Underflow)
                } else if !fits(a.accrued_interest + interest) {
                    Err(Error::Overflow)
                } else {
                    Ok(
                        PoolState {
                            accounting: PoolAccounting {
                                available_liquidity: (a.available_liquidity + principal
                                    + interest) as i128,
                                outstanding_debt: (a.outstanding_debt - principal) as i128,
                                accrued_interest: (a.accrued_interest + interest) as i128,
                                ..a
                            },
                            ..s
                        },
                    )
                }
            },
        }
    }
}

/// The debt of pool `st` re-booked by `delta` at `now` on behalf of
/// `caller`: only the bound borrowing contract may; a positive `delta` moves
/// from liquidity to debt, a negative one back.
pub open spec fn update_debt_effect(st: PoolState, caller: u64, delta: i128, now: u64) -> Result<
    PoolState,
    Error,
> {
    if st.borrowing_contract != Some(caller) {
        Err(Error::Unauthorized)
    } else {
        match accrue_state(st, now) {
            Err(e) => Err(e),
            Ok(s) => {
                let a = s.accounting;
                if delta > 0 {
                    if !fits(a.outstanding_debt + delta) {
                        Err(Error::Overflow)
                    } else if !fits(a.available_liquidity - delta) {
                        Err(Error::InsufficientLiquidity)
                    } else {
                        Ok(
                            PoolState {
                                accounting: PoolAccounting {
                                    outstanding_debt: (a.outstanding_debt + delta) as i128,
                                    available_liquidity: (a.available_liquidity - delta) as i128,
                                    ..a
                                },
                                ..s
                            },
                        )
                    }
                } else {
                    if !fits(a.outstanding_debt + delta) {
                        Err(Error::Underflow)
                    } else if !fits(a.available_liquidity - delta) {
                        Err(Error::Overflow)
                    } else {
                        Ok(
                            PoolState {
                                accounting: PoolAccounting {
                                    outstanding_debt: (a.outstanding_debt + delta) as i128,
                                    available_liquidity: (a.available_liquidity - delta) as i128,
                                    ..a
                                },
                                ..s
                            },
                        )
                    }
                }
            },
        }
    }
}

/// Pool `st` accrued to `now`, whose interest index has moved since a
/// lender holding `held` last acted: the interest those shares earned.
pub open spec fn lender_interest(st: PoolState, held: Option<ShareBalance>, now: u64) -> Result<
    (PoolState, i128),
    Error,
> {
    match accrue_state(st, now) {
        Err(e) => Err(e),
        Ok(s) => match held {
            None => Err(Error::InsufficientShares),
            Some(b) => match share_interest(
                b.shares as int,
                s.accounting.interest_index as int,
                b.last_interest_index as int,
            ) {
                Some(v) => Ok((s, v as i128)),
                None => Err(Error::Overflow),
            },
        },
    }
}

/// Pool `st` brought up to `now`.
fn accrue(st: PoolState, now: u64) -> (r: Result<PoolState, Error>)
    ensures
        r == accrue_state(st, now),
{
    if now <= st.params.last_accrual_time {
        return Ok(st);
    }
    let elapsed = (now - st.params.last_accrual_time) as i128;
    let rate = st.params.rate_per_second;
    let mut acc = st.accounting;
    if acc.outstanding_debt > 0 {
        proof {
            lemma_fixed_interest_fits(acc.outstanding_debt as int, rate as int, elapsed as int);
        }
        let interest = match FixedMath::calculate_interest(acc.outstanding_debt, rate, elapsed) {
            Some(v) => v,
            None => return Err(Error::Overflow),
        };
        acc.accrued_interest = match acc.accrued_interest.checked_add(interest) {
            Some(v) => v,
            None => return Err(Error::Overflow),
        };
    }
    let index = match FixedMath::calculate_new_index(acc.interest_index, rate, elapsed) {
        Some(v) => v,
        None => return Err(Error::Overflow),
    };
    acc.interest_index = index;
    let params = InterestParams {
        rate_per_second: st.params.rate_per_second,
        last_accrual_time: now,
        utilization_multiplier: st.params.utilization_multiplier,
        base_rate: st.params.base_rate,
    };
    Ok(PoolState { config: st.config, accounting: acc, params, borrowing_contract: st.borrowing_contract })
}

/// The lending contract: its pools, the supplier positions, the accounts
/// granted the admin role, and per-pool status, rate limit and emergency
/// stop.
pub struct LendingContract {
    admin: Option<u64>,
    pools: ByteKeyMap<PoolState>,
    positions: PositionBook,
    admins: HashMap<u64, Permission>,
    statuses: ByteKeyMap<PoolStatus>,
    rate_limits: ByteKeyMap<RateLimit>,
    emergency_stops: ByteKeyMap<Option<EmergencyStop>>,
}

impl LendingContract {
    /// The pools, by id.
    pub closed spec fn pools(&self) -> Map<Seq<u8>, PoolState> {
        self.pools@
    }

    /// The share balance of each (pool, lender) pair holding a position.
    pub closed spec fn positions(&self) -> Map<(Seq<u8>, u64), ShareBalance> {
        self.positions@
    }

    /// Sum of the shares of all positions in pool `p`.
    pub closed spec fn pool_shares(&self, p: Seq<u8>) -> int {
        self.positions.pool_total(p)
    }

    pub closed spec fn admin_id(&self) -> Option<u64> {
        self.admin
    }

    /// The permissions granted, by account.
    pub closed spec fn permissions(&self) -> Map<u64, Permission> {
        self.admins@
    }

    /// The stored pool statuses.
    pub closed spec fn statuses(&self) -> Map<Seq<u8>, PoolStatus> {
        self.statuses@
    }

    /// The stored rate limits.
    pub closed spec fn rate_limits(&self) -> Map<Seq<u8>, RateLimit> {
        self.rate_limits@
    }

    /// The stored emergency stops (`None` once lifted).
    pub closed spec fn emergency_stops(&self) -> Map<Seq<u8>, Option<EmergencyStop>> {
        self.emergency_stops@
    }

    /// The position of `lender` in pool `p`, if any.
    pub open spec fn position(&self, p: Seq<u8>, lender: u64) -> Option<ShareBalance> {
        if self.positions().contains_key((p, lender)) {
            Some(self.positions()[(p, lender)])
        } else {
            None
        }
    }

    /// Whether `address` holds the admin role.
    pub open spec fn has_admin_role(&self, address: u64) -> bool {
        self.permissions().contains_key(address) && self.permissions()[address].role == Role::Admin
    }

    /// The contract is consistent: in every pool the total shares equal the
    /// total assets and the sum of the shares of its positions, and every
    /// position holds a positive number of shares in an existing pool.
    pub closed spec fn wf(&self) -> bool {
        &&& self.pools.wf()
        &&& self.positions.wf()
        &&& self.statuses.wf()
        &&& self.rate_limits.wf()
        &&& self.emergency_stops.wf()
        &&& forall|p: Seq<u8>| #[trigger]
            self.pools@.contains_key(p) ==> {
                let a = self.pools@[p].accounting;
                &&& a.total_shares >= 0
                &&& a.total_assets == a.total_shares
                &&& a.total_shares == self.positions.pool_total(p)
            }
        &&& forall|k: (Seq<u8>, u64)| #[trigger]
            self.positions@.contains_key(k) ==> self.pools@.contains_key(k.0)
                && self.positions@[k].shares > 0
    }

    /// Everything but the pools and positions is the same in `self` and
    /// `other`.
    pub open spec fn settings_same(&self, other: Self) -> bool {
        &&& other.admin_id() == self.admin_id()
        &&& other.permissions() == self.permissions()
        &&& other.statuses() == self.statuses()
        &&& other.rate_limits() == self.rate_limits()
        &&& other.emergency_stops() == self.emergency_stops()
    }

    /// `after` is `self` with pool `p` now `st` and the positions `positions`.
    pub open spec fn moved_to(
        &self,
        after: Self,
        p: Seq<u8>,
        st: PoolState,
        positions: Map<(Seq<u8>, u64), ShareBalance>,
    ) -> bool {
        &&& after.pools() == self.pools().insert(p, st)
        &&& after.positions() == positions
        &&& self.settings_same(after)
    }

    /// Everything but the pools and positions stays; the pools and positions
    /// are those of `self`.
    pub open spec fn pools_same(&self, other: Self) -> bool {
        &&& other.pools() == self.pools()
        &&& other.positions() == self.positions()
    }

    /// A contract without pools, positions, admins or settings.
    pub fn new() -> (r: Self)
        ensures
            r.wf(),
            r.pools() == Map::<Seq<u8>, PoolState>::empty(),
            r.positions() == Map::<(Seq<u8>, u64), ShareBalance>::empty(),
            r.admin_id() is None,
            r.permissions() == Map::<u64, Permission>::empty(),
            r.statuses() == Map::<Seq<u8>, PoolStatus>::empty(),
            r.rate_limits() == Map::<Seq<u8>, RateLimit>::empty(),
            r.emergency_stops() == Map::<Seq<u8>, Option<EmergencyStop>>::empty(),
    {
        let r = LendingContract {
            admin: None,
            pools: ByteKeyMap::new(),
            positions: PositionBook::new(),
            admins: HashMap::new(),
            statuses: ByteKeyMap::new(),
            rate_limits: ByteKeyMap::new(),
            emergency_stops: ByteKeyMap::new(),
        };
        assert(r.admins@ =~= Map::<u64, Permission>::empty());
        r
    }

    /// Set the contract admin. Only once.
    pub fn initialize(&mut self, admin: u64) -> (r: Result<(), Error>)
        requires
            old(self).wf(),
        ensures
            final(self).wf(),
            old(self).admin_id() is Some ==> r == Err::<(), Error>(Error::AlreadyInitialized)
                && *final(self) == *old(self),
            old(self).admin_id() is None ==> r is Ok && final(self).admin_id() == Some(admin)
                && old(self).pools_same(*final(self)) && final(self).permissions() == old(self).permissions() && final(self).statuses() == old(self).statuses() && final(self).rate_limits() == old(self).rate_limits() && final(self).emergency_stops() == old(self).emergency_stops(),
    {
        if self.admin.is_some() {
            return Err(Error::AlreadyInitialized);
        }
        self.admin = Some(admin);
        Ok(())
    }
    /// Open a pool for `asset`, run by `admin`, at `interest_rate_bps` a
    /// year (more than 0, at most 10000). The pool's id is the asset's id.
    pub fn create_pool(&mut self, admin: u64, asset: [u8; 32], interest_rate_bps: i128, now: u64) -> (r:
        Result<[u8; 32], Error>)
        requires
            old(self).wf(),
        ensures
            final(self).wf(),
            (interest_rate_bps <= 0 || interest_rate_bps > 10000) ==> r == Err::<[u8; 32], Error>(
                Error::InvalidInterestRate,
            ),
            0 < interest_rate_bps <= 10000 && old(self).pools().contains_key(asset@) ==> r == Err::<
                [u8; 32],
                Error,
            >(Error::PoolAlreadyInitialized),
            0 < interest_rate_bps <= 10000 && !old(self).pools().contains_key(asset@) ==> r == Ok::<
                [u8; 32],
                Error,
            >(asset) && final(self).pools() == old(self).pools().insert(
                asset@,
                new_pool_state(admin, asset, interest_rate_bps, now),
            ) && final(self).positions() == old(self).positions() && old(self).settings_same(*final(self)),
            r is Err ==> *final(self) == *old(self),
    {
        if interest_rate_bps <= 0 || interest_rate_bps > 10_000 {
            return Err(Error::InvalidInterestRate);
        }
        let pool_id = asset;
        if self.pools.contains_key(&pool_id) {
            return Err(Error::PoolAlreadyInitialized);
        }
        let fixed_rate = match FixedMath::basis_points_to_fixed(interest_rate_bps) {
            Some(v) => v,
            None => return Err(Error::Overflow),
        };
        let rate = match SafeMath::div(fixed_rate, SECONDS_PER_YEAR) {
            Some(v) => v,
            None => return Err(Error::Overflow),
        };
        let index = match FixedMath::basis_points_to_fixed(10_000) {
            Some(v) => v,
            None => return Err(Error::Overflow),
        };
        let st = PoolState {
            config: PoolConfig {
                asset,
                admin,
                interest_rate: interest_rate_bps,
                last_update: now,
                reserve_factor: 0,
            },
            accounting: PoolAccounting {
                total_assets: 0,
                total_shares: 0,
                available_liquidity: 0,
                outstanding_debt: 0,
                accrued_interest: 0,
                interest_index: index,
            },
            params: InterestParams {
                rate_per_second: rate,
                last_accrual_time: now,
                utilization_multiplier: 10000,
                base_rate: interest_rate_bps,
            },
            borrowing_contract: None,
        };
        proof {
            assert forall|l: u64| !self.positions@.contains_key((pool_id@, l)) by {
                if self.positions@.contains_key((pool_id@, l)) {
                    assert(self.pools@.contains_key((pool_id@, l).0));
                }
            }
            self.positions.lemma_empty_pool_total(pool_id@);
        }
        self.pools.insert(pool_id, st);
        proof {
            assert(st == new_pool_state(admin, asset, interest_rate_bps, now));
            assert forall|p: Seq<u8>| #[trigger] self.pools@.contains_key(p) implies {
                let a = self.pools@[p].accounting;
                &&& a.total_shares >= 0
                &&& a.total_assets == a.total_shares
                &&& a.total_shares == self.positions.pool_total(p)
            } by {
                if p != pool_id@ {
                    assert(old(self).pools@.contains_key(p));
                }
            }
            assert forall|k: (Seq<u8>, u64)| #[trigger] self.positions@.contains_key(k) implies self.pools@.contains_key(k.0)
                && self.positions@[k].shares > 0 by {
                assert(old(self).pools@.contains_key(k.0));
            }
        }
        Ok(pool_id)
    }

    /// Deposit `amount` into pool `pool_id` for `from`: refused while the
    /// pool is stopped or its rate limit is used up; otherwise the operation
    /// is counted, the pool is accrued, and one share per token is minted.
    /// Gives the shares minted.
    pub fn deposit(&mut self, pool_id: [u8; 32], from: u64, amount: i128, now: u64) -> (r: Result<
        i128,
        Error,
    >)
        requires
            old(self).wf(),
            old(self).rate_limit_of(pool_id@).period_start + old(self).rate_limit_of(
                pool_id@,
            ).period_seconds <= u64::MAX,
        ensures
            final(self).wf(),
            amount <= 0 ==> r == Err::<i128, Error>(Error::InvalidAmount),
            amount > 0 && !old(self).pools().contains_key(pool_id@) ==> r == Err::<i128, Error>(
                Error::PoolNotFound,
            ),
            amount > 0 && old(self).pools().contains_key(pool_id@) && old(self).stopped(pool_id@)
                ==> r == Err::<i128, Error>(Error::EmergencyStopActive),
            amount > 0 && old(self).pools().contains_key(pool_id@) && !old(self).stopped(pool_id@)
                ==> match rate_limit_after(old(self).rate_limit_of(pool_id@), now) {
                Err(e) => r == Err::<i128, Error>(e),
                Ok(rl) => match deposit_effect(
                    old(self).pools()[pool_id@],
                    old(self).position(pool_id@, from),
                    amount,
                    now,
                ) {
                    Err(e) => r == Err::<i128, Error>(e),
                    Ok((st, bal)) => {
                        &&& r == Ok::<i128, Error>(amount)
                        &&& final(self).pools() == old(self).pools().insert(pool_id@, st)
                        &&& final(self).positions() == old(self).positions().insert((pool_id@, from), bal)
                        &&& final(self).rate_limits() == old(self).rate_limits().insert(pool_id@, rl)
                        &&& final(self).admin_id() == old(self).admin_id()
                        &&& final(self).permissions() == old(self).permissions()
                        &&& final(self).statuses() == old(self).statuses()
                        &&& final(self).emergency_stops() == old(self).emergency_stops()
                    },
                },
            },
            r is Err ==> *final(self) == *old(self),
    {
        if !ValidationHelper::validate_positive_amount(amount) {
            return Err(Error::InvalidAmount);
        }
        let st = match self.pools.get(&pool_id) {
            Some(s) => s,
            None => return Err(Error::PoolNotFound),
        };
        match self.check_emergency_stop(&pool_id) {
            Ok(()) => {},
            Err(e) => return Err(e),
        }
        let window = match self.next_rate_limit(&pool_id, now) {
            Ok(rl) => rl,
            Err(e) => return Err(e),
        };
        let s = match accrue(st, now) {
            Ok(s) => s,
            Err(e) => return Err(e),
        };
        let a = s.accounting;
        proof {
            assert(self.pools@.contains_key(pool_id@));
        }
        let minted = match FixedMath::calculate_shares(amount, a.total_assets, a.total_shares) {
            Some(v) => v,
            None => return Err(Error::Overflow),
        };
        let total_assets = match a.total_assets.checked_add(amount) {
            Some(v) => v,
            None => return Err(Error::Overflow),
        };
        let total_shares = match a.total_shares.checked_add(minted) {
            Some(v) => v,
            None => return Err(Error::Overflow),
        };
        let liquidity = match a.available_liquidity.checked_add(amount) {
            Some(v) => v,
            None => return Err(Error::Overflow),
        };
        let prior: i128 = match self.positions.get(&pool_id, from) {
            Some(b) => b.shares,
            None => 0,
        };
        let shares = match prior.checked_add(minted) {
            Some(v) => v,
            None => return Err(Error::Overflow),
        };
        proof {
            if a.total_shares > 0 {
                lemma_mul_trunc_div_cancel(amount as int, a.total_shares as int);
            }
            assert(minted == amount);
        }
        let new_state = PoolState {
            config: s.config,
            accounting: PoolAccounting {
                total_assets,
                total_shares,
                available_liquidity: liquidity,
                outstanding_debt: a.outstanding_debt,
                accrued_interest: a.accrued_interest,
                interest_index: a.interest_index,
            },
            params: s.params,
            borrowing_contract: s.borrowing_contract,
        };
        let balance = ShareBalance { shares, last_interest_index: a.interest_index };
        self.pools.insert(pool_id, new_state);
        self.positions.set(pool_id, from, balance);
        self.rate_limits.insert(pool_id, window);
        proof {
            assert forall|p: Seq<u8>| #[trigger] self.pools@.contains_key(p) implies {
                let a = self.pools@[p].accounting;
                &&& a.total_shares >= 0
                &&& a.total_assets == a.total_shares
                &&& a.total_shares == self.positions.pool_total(p)
            } by {
                if p != pool_id@ {
                    assert(old(self).pools@.contains_key(p));
                }
            }
            assert forall|k: (Seq<u8>, u64)| #[trigger] self.positions@.contains_key(k) implies self.pools@.contains_key(k.0)
                && self.positions@[k].shares > 0 by {
                if k != (pool_id@, from) {
                    assert(old(self).positions@.contains_key(k));
                }
            }
        }
        Ok(minted)
    }
    /// Redeem `shares` of `to` from pool `pool_id`: the pool is accrued,
    /// then one token is paid per share when the lender holds the shares and
    /// the liquidity covers them. A position left without shares is dropped.
    /// Gives the tokens paid.
    pub fn withdraw(&mut self, pool_id: [u8; 32], to: u64, shares: i128, now: u64) -> (r: Result<
        i128,
        Error,
    >)
        requires
            old(self).wf(),
        ensures
            final(self).wf(),
            shares <= 0 ==> r == Err::<i128, Error>(Error::InvalidAmount),
            shares > 0 && !old(self).pools().contains_key(pool_id@) ==> r == Err::<i128, Error>(
                Error::PoolNotFound,
            ),
            shares > 0 && old(self).pools().contains_key(pool_id@) ==> match withdraw_effect(
                old(self).pools()[pool_id@],
                old(self).position(pool_id@, to),
                shares,
                now,
            ) {
                Err(e) => r == Err::<i128, Error>(e),
                Ok((st, bal, paid)) => r == Ok::<i128, Error>(paid) && paid == shares && old(
                    self).moved_to(
                    *final(self),
                    pool_id@,
                    st,
                    if bal.shares == 0 {
                        old(self).positions().remove((pool_id@, to))
                    } else {
                        old(self).positions().insert((pool_id@, to), bal)
                    },
                ),
            },
            r matches Ok(paid) ==> paid <= old(self).pools()[pool_id@].accounting.available_liquidity,
            r is Err ==> *final(self) == *old(self),
    {
        if !ValidationHelper::validate_positive_amount(shares) {
            return Err(Error::InvalidAmount);
        }
        let st = match self.pools.get(&pool_id) {
            Some(s) => s,
            None => return Err(Error::PoolNotFound),
        };
        let s = match accrue(st, now) {
            Ok(s) => s,
            Err(e) => return Err(e),
        };
        let a = s.accounting;
        proof {
            assert(self.pools@.contains_key(pool_id@));
        }
        let held = match self.positions.get(&pool_id, to) {
            Some(b) => b,
            None => return Err(Error::InsufficientShares),
        };
        if held.shares < shares {
            return Err(Error::InsufficientShares);
        }
        proof {
            assert forall|k: (Seq<u8>, u64)| #[trigger] self.positions@.contains_key(k) implies self.positions@[k].shares >= 0 by {
            }
            self.positions.lemma_position_within_total(pool_id@, to);
            lemma_mul_trunc_div_cancel(shares as int, a.total_shares as int);
        }
        let paid = match FixedMath::calculate_redeem_amount(shares, a.total_assets, a.total_shares) {
            Some(v) => v,
            None => return Err(Error::Underflow),
        };
        if paid > a.available_liquidity {
            return Err(Error::InsufficientLiquidity);
        }
        let total_assets = match a.total_assets.checked_sub(paid) {
            Some(v) => v,
            None => return Err(Error::Underflow),
        };
        let total_shares = match a.total_shares.checked_sub(shares) {
            Some(v) => v,
            None => return Err(Error::Underflow),
        };
        let liquidity = match a.available_liquidity.checked_sub(paid) {
            Some(v) => v,
            None => return Err(Error::Underflow),
        };
        let remaining = held.shares - shares;
        let new_state = PoolState {
            config: s.config,
            accounting: PoolAccounting {
                total_assets,
                total_shares,
                available_liquidity: liquidity,
                outstanding_debt: a.outstanding_debt,
                accrued_interest: a.accrued_interest,
                interest_index: a.interest_index,
            },
            params: s.params,
            borrowing_contract: s.borrowing_contract,
        };
        self.pools.insert(pool_id, new_state);
        if remaining == 0 {
            self.positions.remove(&pool_id, to);
        } else {
            self.positions.set(
                pool_id,
                to,
                ShareBalance { shares: remaining, last_interest_index: a.interest_index },
            );
        }
        proof {
            assert forall|p: Seq<u8>| #[trigger] self.pools@.contains_key(p) implies {
                let a = self.pools@[p].accounting;
                &&& a.total_shares >= 0
                &&& a.total_assets == a.total_shares
                &&& a.total_shares == self.positions.pool_total(p)
            } by {
                if p != pool_id@ {
                    assert(old(self).pools@.contains_key(p));
                }
            }
            assert forall|k: (Seq<u8>, u64)| #[trigger] self.positions@.contains_key(k) implies self.pools@.contains_key(k.0)
                && self.positions@[k].shares > 0 by {
                if k != (pool_id@, to) {
                    assert(old(self).positions@.contains_key(k));
                }
            }
        }
        Ok(paid)
    }

    /// Whether `caller` is the borrowing contract bound to pool `st`.
    fn is_bound(st: &PoolState, caller: u64) -> (r: bool)
        ensures
            r == (st.borrowing_contract == Some(caller)),
    {
        match st.borrowing_contract {
            Some(c) => c == caller,
            None => false,
        }
    }

    /// Lend `amount` out of pool `pool_id`, on behalf of `caller`, which must
    /// be the pool's borrowing contract.
    pub fn borrow(&mut self, pool_id: [u8; 32], caller: u64, amount: i128, now: u64) -> (r: Result<
        (),
        Error,
    >)
        requires
            old(self).wf(),
        ensures
            final(self).wf(),
            amount <= 0 ==> r == Err::<(), Error>(Error::InvalidAmount),
            amount > 0 && !old(self).pools().contains_key(pool_id@) ==> r == Err::<(), Error>(
                Error::PoolNotFound,
            ),
            amount > 0 && old(self).pools().contains_key(pool_id@) ==> match borrow_effect(
                old(self).pools()[pool_id@],
                caller,
                amount,
                now,
            ) {
                Err(e) => r == Err::<(), Error>(e),
                Ok(st) => r is Ok && old(self).moved_to(*final(self), pool_id@, st, old(self).positions()),
            },
            r is Err ==> *final(self) == *old(self),
    {
        if !ValidationHelper::validate_positive_amount(amount) {
            return Err(Error::InvalidAmount);
        }
        let st = match self.pools.get(&pool_id) {
            Some(s) => s,
            None => return Err(Error::PoolNotFound),
        };
        if !Self::is_bound(&st, caller) {
            return Err(Error::Unauthorized);
        }
        let s = match accrue(st, now) {
            Ok(s) => s,
            Err(e) => return Err(e),
        };
        let a = s.accounting;
        if a.available_liquidity < amount {
            return Err(Error::InsufficientLiquidity);
        }
        let liquidity = match a.available_liquidity.checked_sub(amount) {
            Some(v) => v,
            None => return Err(Error::Underflow),
        };
        let debt = match a.outstanding_debt.checked_add(amount) {
            Some(v) => v,
            None => return Err(Error::Overflow),
        };
        let new_state = PoolState {
            config: s.config,
            accounting: PoolAccounting {
                total_assets: a.total_assets,
                total_shares: a.total_shares,
                available_liquidity: liquidity,
                outstanding_debt: debt,
                accrued_interest: a.accrued_interest,
                interest_index: a.interest_index,
            },
            params: s.params,
            borrowing_contract: s.borrowing_contract,
        };
        self.pools.insert(pool_id, new_state);
        proof {
            assert forall|p: Seq<u8>| #[trigger] self.pools@.contains_key(p) implies {
                let a = self.pools@[p].accounting;
                &&& a.total_shares >= 0
                &&& a.total_assets == a.total_shares
                &&& a.total_shares == self.positions.pool_total(p)
            } by {
                if p != pool_id@ {
                    assert(old(self).pools@.contains_key(p));
                }
            }
            assert forall|k: (Seq<u8>, u64)| #[trigger] self.positions@.contains_key(k) implies self.pools@.contains_key(k.0)
                && self.positions@[k].shares > 0 by {
                assert(old(self).positions@.contains_key(k));
            }
        }
        Ok(())
    }

    /// Pay `principal_amount` and `interest_amount` back into pool
    /// `pool_id`, on behalf of `caller`, which must be the pool's borrowing
    /// contract; both amounts must be positive.
    pub fn repay(
        &mut self,
        pool_id: [u8; 32],
        caller: u64,
        principal_amount: i128,
        interest_amount: i128,
        now: u64,
    ) -> (r: Result<(), Error>)
        requires
            old(self).wf(),
        ensures
            final(self).wf(),
            (principal_amount <= 0 || interest_amount <= 0) ==> r == Err::<(), Error>(
                Error::InvalidAmount,
            ),
            principal_amount > 0 && interest_amount > 0 && !old(self).pools().contains_key(pool_id@)
                ==> r == Err::<(), Error>(Error::PoolNotFound),
            principal_amount > 0 && interest_amount > 0 && old(self).pools().contains_key(pool_id@)
                ==> match repay_effect(
                old(self).pools()[pool_id@],
                caller,
                principal_amount,
                interest_amount,
                now,
            ) {
                Err(e) => r == Err::<(), Error>(e),
                Ok(st) => r is Ok && old(self).moved_to(*final(self), pool_id@, st, old(self).positions()),
            },
            r is Err ==> *final(self) == *old(self),
    {
        if !ValidationHelper::validate_positive_amount(principal_amount)
            || !ValidationHelper::validate_positive_amount(interest_amount) {
            return Err(Error::InvalidAmount);
        }
        let st = match self.pools.get(&pool_id) {
            Some(s) => s,
            None => return Err(Error::PoolNotFound),
        };
        if !Self::is_bound(&st, caller) {
            return Err(Error::Unauthorized);
        }
        let s = match accrue(st, now) {
            Ok(s) => s,
            Err(e) => return Err(e),
        };
        let a = s.accounting;
        let total = match SafeMath::add(principal_amount, interest_amount) {
            Some(v) => v,
            None => return Err(Error::Overflow),
        };
        let liquidity = match a.available_liquidity.checked_add(total) {
            Some(v) => v,
            None => return Err(Error::Overflow),
        };
        let debt = match a.outstanding_debt.checked_sub(principal_amount) {
            Some(v) => v,
            None => return Err(Error::Underflow),
        };
        let accrued = match a.accrued_interest.checked_add(interest_amount) {
            Some(v) => v,
            None => return Err(Error::Overflow),
        };
        let new_state = PoolState {
            config: s.config,
            accounting: PoolAccounting {
                total_assets: a.total_assets,
                total_shares: a.total_shares,
                available_liquidity: liquidity,
                outstanding_debt: debt,
                accrued_interest: accrued,
                interest_index: a.interest_index,
            },
            params: s.params,
            borrowing_contract: s.borrowing_contract,
        };
        self.pools.insert(pool_id, new_state);
        proof {
            assert forall|p: Seq<u8>| #[trigger] self.pools@.contains_key(p) implies {
                let a = self.pools@[p].accounting;
                &&& a.total_shares >= 0
                &&& a.total_assets == a.total_shares
                &&& a.total_shares == self.positions.pool_total(p)
            } by {
                if p != pool_id@ {
                    assert(old(self).pools@.contains_key(p));
                }
            }
            assert forall|k: (Seq<u8>, u64)| #[trigger] self.positions@.contains_key(k) implies self.pools@.contains_key(k.0)
                && self.positions@[k].shares > 0 by {
                assert(old(self).positions@.contains_key(k));
            }
        }
        Ok(())
    }

    /// Re-book the debt of pool `pool_id` by `debt_change`, on behalf of
    /// `caller`, which must be the pool's borrowing contract: a positive
    /// change draws liquidity into debt, a negative one returns it.
    pub fn update_debt(&mut self, pool_id: [u8; 32], caller: u64, debt_change: i128, now: u64) -> (r:
        Result<(), Error>)
        requires
            old(self).wf(),
            debt_change > i128::MIN,
        ensures
            final(self).wf(),
            !old(self).pools().contains_key(pool_id@) ==> r == Err::<(), Error>(Error::PoolNotFound),
            old(self).pools().contains_key(pool_id@) ==> match update_debt_effect(
                old(self).pools()[pool_id@],
                caller,
                debt_change,
                now,
            ) {
                Err(e) => r == Err::<(), Error>(e),
                Ok(st) => r is Ok && old(self).moved_to(*final(self), pool_id@, st, old(self).positions()),
            },
            r is Err ==> *final(self) == *old(self),
    {
        let st = match self.pools.get(&pool_id) {
            Some(s) => s,
            None => return Err(Error::PoolNotFound),
        };
        if !Self::is_bound(&st, caller) {
            return Err(Error::Unauthorized);
        }
        let s = match accrue(st, now) {
            Ok(s) => s,
            Err(e) => return Err(e),
        };
        let a = s.accounting;
        let debt;
        let liquidity;
        if debt_change > 0 {
            debt = match a.outstanding_debt.checked_add(debt_change) {
                Some(v) => v,
                None => return Err(Error::Overflow),
            };
            liquidity = match a.available_liquidity.checked_sub(debt_change) {
                Some(v) => v,
                None => return Err(Error::InsufficientLiquidity),
            };
        } else {
            let repayment = -debt_change;
            debt = match a.outstanding_debt.checked_sub(repayment) {
                Some(v) => v,
                None => return Err(Error::Underflow),
            };
            liquidity = match a.available_liquidity.checked_add(repayment) {
                Some(v) => v,
                None => return Err(Error::Overflow),
            };
        }
        let new_state = PoolState {
            config: s.config,
            accounting: PoolAccounting {
                total_assets: a.total_assets,
                total_shares: a.total_shares,
                available_liquidity: liquidity,
                outstanding_debt: debt,
                accrued_interest: a.accrued_interest,
                interest_index: a.interest_index,
            },
            params: s.params,
            borrowing_contract: s.borrowing_contract,
        };
        self.pools.insert(pool_id, new_state);
        proof {
            assert forall|p: Seq<u8>| #[trigger] self.pools@.contains_key(p) implies {
                let a = self.pools@[p].accounting;
                &&& a.total_shares >= 0
                &&& a.total_assets == a.total_shares
                &&& a.total_shares == self.positions.pool_total(p)
            } by {
                if p != pool_id@ {
                    assert(old(self).pools@.contains_key(p));
                }
            }
            assert forall|k: (Seq<u8>, u64)| #[trigger] self.positions@.contains_key(k) implies self.pools@.contains_key(k.0)
                && self.positions@[k].shares > 0 by {
                assert(old(self).positions@.contains_key(k));
            }
        }
        Ok(())
    }
    /// Bind pool `pool_id` to the borrowing contract `borrowing_contract`;
    /// only the pool's admin may, and only once.
    pub fn initialize_borrowing_contract(
        &mut self,
        pool_id: [u8; 32],
        caller: u64,
        borrowing_contract: u64,
    ) -> (r: Result<(), Error>)
        requires
            old(self).wf(),
        ensures
            final(self).wf(),
            !old(self).pools().contains_key(pool_id@) ==> r == Err::<(), Error>(Error::PoolNotFound),
            old(self).pools().contains_key(pool_id@) && old(self).pools()[pool_id@].config.admin
                != caller ==> r == Err::<(), Error>(Error::Unauthorized),
            old(self).pools().contains_key(pool_id@) && old(self).pools()[pool_id@].config.admin
                == caller && old(self).pools()[pool_id@].borrowing_contract is Some ==> r == Err::<
                (),
                Error,
            >(Error::AlreadyInitialized),
            old(self).pools().contains_key(pool_id@) && old(self).pools()[pool_id@].config.admin
                == caller && old(self).pools()[pool_id@].borrowing_contract is None ==> r is Ok
                && old(self).moved_to(
                *final(self),
                pool_id@,
                PoolState {
                    borrowing_contract: Some(borrowing_contract),
                    ..old(self).pools()[pool_id@]
                },
                old(self).positions(),
            ),
            r is Err ==> *final(self) == *old(self),
    {
        let st = match self.pools.get(&pool_id) {
            Some(s) => s,
            None => return Err(Error::PoolNotFound),
        };
        if st.config.admin != caller {
            return Err(Error::Unauthorized);
        }
        if st.borrowing_contract.is_some() {
            return Err(Error::AlreadyInitialized);
        }
        let new_state = PoolState {
            config: st.config,
            accounting: st.accounting,
            params: st.params,
            borrowing_contract: Some(borrowing_contract),
        };
        self.pools.insert(pool_id, new_state);
        proof {
            assert forall|p: Seq<u8>| #[trigger] self.pools@.contains_key(p) implies {
                let a = self.pools@[p].accounting;
                &&& a.total_shares >= 0
                &&& a.total_assets == a.total_shares
                &&& a.total_shares == self.positions.pool_total(p)
            } by {
                if p != pool_id@ {
                    assert(old(self).pools@.contains_key(p));
                }
            }
            assert forall|k: (Seq<u8>, u64)| #[trigger] self.positions@.contains_key(k) implies self.pools@.contains_key(k.0)
                && self.positions@[k].shares > 0 by {
                assert(old(self).positions@.contains_key(k));
            }
        }
        Ok(())
    }

    /// The borrowing contract bound to pool `pool_id`.
    pub fn get_borrowing_contract(&self, pool_id: &[u8; 32]) -> (r: Result<u64, Error>)
        requires
            self.wf(),
        ensures
            !self.pools().contains_key(pool_id@) ==> r == Err::<u64, Error>(Error::PoolNotFound),
            self.pools().contains_key(pool_id@) ==> r == (match self.pools()[pool_id@].borrowing_contract {
                Some(c) => Ok::<u64, Error>(c),
                None => Err::<u64, Error>(Error::NotInitialized),
            }),
    {
        match self.pools.get(pool_id) {
            Some(st) => match st.borrowing_contract {
                Some(c) => Ok(c),
                None => Err(Error::NotInitialized),
            },
            None => Err(Error::PoolNotFound),
        }
    }

    /// The annual interest rate of pool `pool_id`, in basis points.
    pub fn get_interest_rate(&self, pool_id: &[u8; 32]) -> (r: Result<i128, Error>)
        requires
            self.wf(),
        ensures
            !self.pools().contains_key(pool_id@) ==> r == Err::<i128, Error>(Error::PoolNotFound),
            self.pools().contains_key(pool_id@) ==> r == Ok::<i128, Error>(
                self.pools()[pool_id@].config.interest_rate,
            ),
    {
        match self.pools.get(pool_id) {
            Some(st) => Ok(st.config.interest_rate),
            None => Err(Error::PoolNotFound),
        }
    }

    /// Bring pool `pool_id` up to `now`, or leave everything as it was and
    /// give the error.
    pub fn accrue_interest(&mut self, pool_id: [u8; 32], now: u64) -> (r: Result<PoolState, Error>)
        requires
            old(self).wf(),
        ensures
            final(self).wf(),
            !old(self).pools().contains_key(pool_id@) ==> r == Err::<PoolState, Error>(
                Error::PoolNotFound,
            ),
            old(self).pools().contains_key(pool_id@) ==> r == accrue_state(
                old(self).pools()[pool_id@],
                now,
            ),
            r matches Ok(st) ==> old(self).moved_to(*final(self), pool_id@, st, old(self).positions()),
            r is Err ==> *final(self) == *old(self),
    {
        let st = match self.pools.get(&pool_id) {
            Some(s) => s,
            None => return Err(Error::PoolNotFound),
        };
        let s = match accrue(st, now) {
            Ok(s) => s,
            Err(e) => return Err(e),
        };
        self.pools.insert(pool_id, s);
        proof {
            assert forall|p: Seq<u8>| #[trigger] self.pools@.contains_key(p) implies {
                let a = self.pools@[p].accounting;
                &&& a.total_shares >= 0
                &&& a.total_assets == a.total_shares
                &&& a.total_shares == self.positions.pool_total(p)
            } by {
                if p != pool_id@ {
                    assert(old(self).pools@.contains_key(p));
                }
            }
            assert forall|k: (Seq<u8>, u64)| #[trigger] self.positions@.contains_key(k) implies self.pools@.contains_key(k.0)
                && self.positions@[k].shares > 0 by {
                assert(old(self).positions@.contains_key(k));
            }
        }
        Ok(s)
    }

    /// The accounting of pool `pool_id` after accruing it to `now`.
    pub fn get_pool_accounting(&mut self, pool_id: [u8; 32], now: u64) -> (r: Result<
        PoolAccounting,
        Error,
    >)
        requires
            old(self).wf(),
        ensures
            final(self).wf(),
            !old(self).pools().contains_key(pool_id@) ==> r == Err::<PoolAccounting, Error>(
                Error::PoolNotFound,
            ),
            old(self).pools().contains_key(pool_id@) ==> match accrue_state(
                old(self).pools()[pool_id@],
                now,
            ) {
                Err(e) => r == Err::<PoolAccounting, Error>(e),
                Ok(st) => r == Ok::<PoolAccounting, Error>(st.accounting) && old(self).moved_to(
                    *final(self),
                    pool_id@,
                    st,
                    old(self).positions(),
                ),
            },
            r is Err ==> *final(self) == *old(self),
    {
        match self.accrue_interest(pool_id, now) {
            Ok(st) => Ok(st.accounting),
            Err(e) => Err(e),
        }
    }

    /// The assets of pool `pool_id` after accruing it to `now`.
    pub fn get_pool_balance(&mut self, pool_id: [u8; 32], now: u64) -> (r: Result<i128, Error>)
        requires
            old(self).wf(),
        ensures
            final(self).wf(),
            !old(self).pools().contains_key(pool_id@) ==> r == Err::<i128, Error>(
                Error::PoolNotFound,
            ),
            old(self).pools().contains_key(pool_id@) ==> match accrue_state(
                old(self).pools()[pool_id@],
                now,
            ) {
                Err(e) => r == Err::<i128, Error>(e),
                Ok(st) => r == Ok::<i128, Error>(st.accounting.total_assets) && old(self).moved_to(
                    *final(self),
                    pool_id@,
                    st,
                    old(self).positions(),
                ),
            },
            r is Err ==> *final(self) == *old(self),
    {
        match self.accrue_interest(pool_id, now) {
            Ok(st) => Ok(st.accounting.total_assets),
            Err(e) => Err(e),
        }
    }

    /// The position of `lender` in pool `pool_id`, after accruing the pool
    /// to `now`; `InsufficientShares` when the lender holds none.
    pub fn get_share_balance(&mut self, pool_id: [u8; 32], lender: u64, now: u64) -> (r: Result<
        ShareBalance,
        Error,
    >)
        requires
            old(self).wf(),
        ensures
            final(self).wf(),
            !old(self).pools().contains_key(pool_id@) ==> r == Err::<ShareBalance, Error>(
                Error::PoolNotFound,
            ),
            old(self).pools().contains_key(pool_id@) ==> match accrue_state(
                old(self).pools()[pool_id@],
                now,
            ) {
                Err(e) => r == Err::<ShareBalance, Error>(e),
                Ok(st) => match old(self).position(pool_id@, lender) {
                    None => r == Err::<ShareBalance, Error>(Error::InsufficientShares),
                    Some(b) => r == Ok::<ShareBalance, Error>(b) && old(self).moved_to(
                        *final(self),
                        pool_id@,
                        st,
                        old(self).positions(),
                    ),
                },
            },
            r is Err ==> *final(self) == *old(self),
    {
        let st = match self.pools.get(&pool_id) {
            Some(s) => s,
            None => return Err(Error::PoolNotFound),
        };
        let s = match accrue(st, now) {
            Ok(s) => s,
            Err(e) => return Err(e),
        };
        let b = match self.positions.get(&pool_id, lender) {
            Some(b) => b,
            None => return Err(Error::InsufficientShares),
        };
        self.pools.insert(pool_id, s);
        proof {
            assert forall|p: Seq<u8>| #[trigger] self.pools@.contains_key(p) implies {
                let a = self.pools@[p].accounting;
                &&& a.total_shares >= 0
                &&& a.total_assets == a.total_shares
                &&& a.total_shares == self.positions.pool_total(p)
            } by {
                if p != pool_id@ {
                    assert(old(self).pools@.contains_key(p));
                }
            }
            assert forall|k: (Seq<u8>, u64)| #[trigger] self.positions@.contains_key(k) implies self.pools@.contains_key(k.0)
                && self.positions@[k].shares > 0 by {
                assert(old(self).positions@.contains_key(k));
            }
        }
        Ok(b)
    }

    /// Interest earned by the shares of `lender` in pool `pool_id` since the
    /// lender last acted, after accruing the pool to `now`.
    pub fn calculate_interest(&mut self, pool_id: [u8; 32], lender: u64, now: u64) -> (r: Result<
        i128,
        Error,
    >)
        requires
            old(self).wf(),
        ensures
            final(self).wf(),
            !old(self).pools().contains_key(pool_id@) ==> r == Err::<i128, Error>(
                Error::PoolNotFound,
            ),
            old(self).pools().contains_key(pool_id@) ==> match lender_interest(
                old(self).pools()[pool_id@],
                old(self).position(pool_id@, lender),
                now,
            ) {
                Err(e) => r == Err::<i128, Error>(e),
                Ok((st, v)) => r == Ok::<i128, Error>(v) && old(self).moved_to(
                    *final(self),
                    pool_id@,
                    st,
                    old(self).positions(),
                ),
            },
            r is Err ==> *final(self) == *old(self),
    {
        let st = match self.pools.get(&pool_id) {
            Some(s) => s,
            None => return Err(Error::PoolNotFound),
        };
        let s = match accrue(st, now) {
            Ok(s) => s,
            Err(e) => return Err(e),
        };
        let b = match self.positions.get(&pool_id, lender) {
            Some(b) => b,
            None => return Err(Error::InsufficientShares),
        };
        proof {
            if i128::MIN <= s.accounting.interest_index - b.last_interest_index <= i128::MAX {
                lemma_mul_div_fits(
                    b.shares as int,
                    s.accounting.interest_index - b.last_interest_index,
                    FIXED_SCALE as int,
                );
            }
        }
        let v = match FixedMath::calculate_user_interest(
            b.shares,
            s.accounting.interest_index,
            b.last_interest_index,
        ) {
            Some(v) => v,
            None => return Err(Error::Overflow),
        };
        self.pools.insert(pool_id, s);
        proof {
            assert forall|p: Seq<u8>| #[trigger] self.pools@.contains_key(p) implies {
                let a = self.pools@[p].accounting;
                &&& a.total_shares >= 0
                &&& a.total_assets == a.total_shares
                &&& a.total_shares == self.positions.pool_total(p)
            } by {
                if p != pool_id@ {
                    assert(old(self).pools@.contains_key(p));
                }
            }
            assert forall|k: (Seq<u8>, u64)| #[trigger] self.positions@.contains_key(k) implies self.pools@.contains_key(k.0)
                && self.positions@[k].shares > 0 by {
                assert(old(self).positions@.contains_key(k));
            }
        }
        Ok(v)
    }
    /// Grant `admin` the admin role as of `now`.
    pub fn grant_admin(&mut self, admin: u64, now: u64) -> (r: Result<(), Error>)
        requires
            old(self).wf(),
        ensures
            final(self).wf(),
            r is Ok,
            final(self).permissions() == old(self).permissions().insert(
                admin,
                Permission { role: Role::Admin, granted_at: now, expires_at: None },
            ),
            old(self).pools_same(*final(self)),
            final(self).admin_id() == old(self).admin_id(),
            final(self).statuses() == old(self).statuses(),
            final(self).rate_limits() == old(self).rate_limits(),
            final(self).emergency_stops() == old(self).emergency_stops(),
    {
        let permission = Permission { role: Role::Admin, granted_at: now, expires_at: None };
        self.admins.insert(admin, permission);
        Ok(())
    }

    /// Whether `address` holds the admin role.
    fn is_admin(&self, address: u64) -> (r: bool)
        ensures
            r == self.has_admin_role(address),
    {
        match self.admins.get(&address) {
            Some(permission) => permission.role == Role::Admin,
            None => false,
        }
    }

    /// Stop pool `pool_id` for `reason`; only an admin may. The pool's
    /// status becomes `Emergency`.
    pub fn trigger_emergency_stop(
        &mut self,
        pool_id: [u8; 32],
        admin: u64,
        reason: [u8; 32],
        now: u64,
    ) -> (r: Result<(), Error>)
        requires
            old(self).wf(),
        ensures
            final(self).wf(),
            !old(self).has_admin_role(admin) ==> r == Err::<(), Error>(Error::PermissionDenied)
                && *final(self) == *old(self),
            old(self).has_admin_role(admin) ==> r is Ok && final(self).emergency_stops() == old(
                self).emergency_stops().insert(
                pool_id@,
                Some(EmergencyStop { active: true, triggered_by: admin, triggered_at: now, reason }),
            ) && final(self).statuses() == old(self).statuses().insert(pool_id@, PoolStatus::Emergency)
                && old(self).pools_same(*final(self)) && final(self).admin_id() == old(self).admin_id()
                && final(self).permissions() == old(self).permissions() && final(self).rate_limits()
                == old(self).rate_limits(),
    {
        if !self.is_admin(admin) {
            return Err(Error::PermissionDenied);
        }
        let stop = EmergencyStop { active: true, triggered_by: admin, triggered_at: now, reason };
        self.emergency_stops.insert(pool_id, Some(stop));
        self.statuses.insert(pool_id, PoolStatus::Emergency);
        Ok(())
    }

    /// Lift the emergency stop of pool `pool_id`; only an admin may. The
    /// pool's status becomes `Active`.
    pub fn lift_emergency_stop(&mut self, pool_id: [u8; 32], admin: u64) -> (r: Result<(), Error>)
        requires
            old(self).wf(),
        ensures
            final(self).wf(),
            !old(self).has_admin_role(admin) ==> r == Err::<(), Error>(Error::PermissionDenied)
                && *final(self) == *old(self),
            old(self).has_admin_role(admin) ==> r is Ok && final(self).emergency_stops() == old(
                self).emergency_stops().insert(pool_id@, None) && final(self).statuses() == old(
                self).statuses().insert(pool_id@, PoolStatus::Active) && old(self).pools_same(
                *final(self),
            ) && final(self).admin_id() == old(self).admin_id() && final(self).permissions() == old(
                self).permissions() && final(self).rate_limits() == old(self).rate_limits(),
    {
        if !self.is_admin(admin) {
            return Err(Error::PermissionDenied);
        }
        self.emergency_stops.insert(pool_id, None);
        self.statuses.insert(pool_id, PoolStatus::Active);
        Ok(())
    }

    /// Whether an active emergency stop is stored for pool `p`.
    pub open spec fn stopped(&self, p: Seq<u8>) -> bool {
        self.emergency_stops().contains_key(p) && match self.emergency_stops()[p] {
            Some(stop) => stop.active,
            None => false,
        }
    }

    /// `EmergencyStopActive` while pool `pool_id` is stopped.
    pub fn check_emergency_stop(&self, pool_id: &[u8; 32]) -> (r: Result<(), Error>)
        requires
            self.wf(),
        ensures
            r == (if self.stopped(pool_id@) {
                Err::<(), Error>(Error::EmergencyStopActive)
            } else {
                Ok::<(), Error>(())
            }),
    {
        match self.emergency_stops.get(pool_id) {
            Some(Some(stop)) => {
                if stop.active {
                    Err(Error::EmergencyStopActive)
                } else {
                    Ok(())
                }
            },
            _ => Ok(()),
        }
    }

    /// Set the status of pool `pool_id`; only an admin may.
    pub fn set_pool_status(&mut self, pool_id: [u8; 32], admin: u64, status: PoolStatus) -> (r:
        Result<(), Error>)
        requires
            old(self).wf(),
        ensures
            final(self).wf(),
            !old(self).has_admin_role(admin) ==> r == Err::<(), Error>(Error::PermissionDenied)
                && *final(self) == *old(self),
            old(self).has_admin_role(admin) ==> r is Ok && final(self).statuses() == old(
                self).statuses().insert(pool_id@, status) && old(self).pools_same(*final(self))
                && final(self).admin_id() == old(self).admin_id() && final(self).permissions()
                == old(self).permissions() && final(self).rate_limits() == old(self).rate_limits()
                && final(self).emergency_stops() == old(self).emergency_stops(),
    {
        if !self.is_admin(admin) {
            return Err(Error::PermissionDenied);
        }
        self.statuses.insert(pool_id, status);
        Ok(())
    }

    /// The status of pool `pool_id`: the stored one, `Active` when none was
    /// stored.
    pub fn get_pool_status(&self, pool_id: &[u8; 32]) -> (r: Result<PoolStatus, Error>)
        requires
            self.wf(),
        ensures
            r == Ok::<PoolStatus, Error>(
                if self.statuses().contains_key(pool_id@) {
                    self.statuses()[pool_id@]
                } else {
                    PoolStatus::Active
                },
            ),
    {
        match self.statuses.get(pool_id) {
            Some(status) => Ok(status),
            None => Ok(PoolStatus::Active),
        }
    }

    /// The rate limit of pool `pool_id`: the stored one, else 1000
    /// operations an hour from time zero.
    pub open spec fn rate_limit_of(&self, p: Seq<u8>) -> RateLimit {
        if self.rate_limits().contains_key(p) {
            self.rate_limits()[p]
        } else {
            RateLimit {
                max_operations_per_period: 1000,
                period_seconds: 3600,
                current_count: 0,
                period_start: 0,
            }
        }
    }

    /// The rate limit in force for pool `pool_id`.
    pub fn get_rate_limit(&self, pool_id: &[u8; 32]) -> (r: RateLimit)
        requires
            self.wf(),
        ensures
            r == self.rate_limit_of(pool_id@),
    {
        match self.rate_limits.get(pool_id) {
            Some(rl) => rl,
            None => RateLimit::new(1000, 3600),
        }
    }

    /// Allow `max_ops` operations per `period_seconds` on pool `pool_id`,
    /// counting afresh.
    pub fn set_rate_limit(&mut self, pool_id: [u8; 32], max_ops: u64, period_seconds: u64) -> (r:
        Result<(), Error>)
        requires
            old(self).wf(),
        ensures
            final(self).wf(),
            r is Ok,
            final(self).rate_limits() == old(self).rate_limits().insert(
                pool_id@,
                RateLimit {
                    max_operations_per_period: max_ops,
                    period_seconds,
                    current_count: 0,
                    period_start: 0,
                },
            ),
            old(self).pools_same(*final(self)),
            final(self).admin_id() == old(self).admin_id(),
            final(self).permissions() == old(self).permissions(),
            final(self).statuses() == old(self).statuses(),
            final(self).emergency_stops() == old(self).emergency_stops(),
    {
        let rate_limit = RateLimit::new(max_ops, period_seconds);
        self.rate_limits.insert(pool_id, rate_limit);
        Ok(())
    }

    /// Count one operation on pool `pool_id` at `now`: a new window starts
    /// once the current one has run out, and `RateLimitExceeded` comes when
    /// the window's operations are used up.
    pub fn check_rate_limit(&mut self, pool_id: [u8; 32], now: u64) -> (r: Result<(), Error>)
        requires
            old(self).wf(),
            old(self).rate_limit_of(pool_id@).period_start + old(self).rate_limit_of(
                pool_id@,
            ).period_seconds <= u64::MAX,
        ensures
            final(self).wf(),
            match rate_limit_after(old(self).rate_limit_of(pool_id@), now) {
                Err(e) => r == Err::<(), Error>(e) && *final(self) == *old(self),
                Ok(rl) => r is Ok && final(self).rate_limits() == old(self).rate_limits().insert(
                    pool_id@,
                    rl,
                ) && old(self).pools_same(*final(self)) && final(self).admin_id() == old(
                    self).admin_id() && final(self).permissions() == old(self).permissions()
                    && final(self).statuses() == old(self).statuses() && final(self).emergency_stops()
                    == old(self).emergency_stops(),
            },
    {
        let rate_limit = match self.next_rate_limit(&pool_id, now) {
            Ok(rl) => rl,
            Err(e) => return Err(e),
        };
        self.rate_limits.insert(pool_id, rate_limit);
        Ok(())
    }

    /// The rate limit of pool `pool_id` after counting one operation at
    /// `now`, or `RateLimitExceeded`.
    fn next_rate_limit(&self, pool_id: &[u8; 32], now: u64) -> (r: Result<RateLimit, Error>)
        requires
            self.wf(),
            self.rate_limit_of(pool_id@).period_start + self.rate_limit_of(pool_id@).period_seconds
                <= u64::MAX,
        ensures
            r == rate_limit_after(self.rate_limit_of(pool_id@), now),
    {
        let mut rate_limit = match self.rate_limits.get(pool_id) {
            Some(rl) => rl,
            None => RateLimit::new(1000, 3600),
        };
        if now >= rate_limit.period_start + rate_limit.period_seconds {
            rate_limit.current_count = 0;
            rate_limit.period_start = now;
        }
        if rate_limit.current_count >= rate_limit.max_operations_per_period {
            return Err(Error::RateLimitExceeded);
        }
        rate_limit.current_count = rate_limit.current_count + 1;
        Ok(rate_limit)
    }
}

} // verus!

verus! {

/// In every pool the shares of all its positions add up to the pool's total
/// shares, and the pool holds one token per share.
pub proof fn law_shares_add_up(c: &LendingContract, p: Seq<u8>)
    requires
        c.wf(),
        c.pools().contains_key(p),
    ensures
        c.pools()[p].accounting.total_shares == c.pool_shares(p),
        c.pools()[p].accounting.total_assets == c.pools()[p].accounting.total_shares,
        c.pools()[p].accounting.total_shares >= 0,
{
}

/// Every position holds a positive number of shares in an existing pool.
pub proof fn law_positions_in_pools(c: &LendingContract, p: Seq<u8>, lender: u64)
    requires
        c.wf(),
        c.positions().contains_key((p, lender)),
    ensures
        c.pools().contains_key(p),
        c.positions()[(p, lender)].shares > 0,
{
}

/// Redeeming at once the shares that a deposit minted pays the deposit
/// back and leaves the pool's assets, shares and liquidity, and the lender's
/// shares, as they were (when the redemption's product fits).
pub proof fn law_deposit_then_withdraw(
    st: PoolState,
    held: Option<ShareBalance>,
    amount: i128,
    now: u64,
)
    requires
        st.accounting.total_shares >= 0,
        st.accounting.total_assets == st.accounting.total_shares,
        st.accounting.available_liquidity >= 0,
        held matches Some(b) ==> b.shares >= 0,
        amount > 0,
        deposit_effect(st, held, amount, now) is Ok,
    ensures
        ({
            let (st1, bal) = deposit_effect(st, held, amount, now)->Ok_0;
            let w = withdraw_effect(st1, Some(bal), amount, now);
            fits(amount * (st.accounting.total_assets + amount)) ==> {
                &&& w is Ok
                &&& w->Ok_0.2 == amount
                &&& w->Ok_0.0.accounting.total_assets == st.accounting.total_assets
                &&& w->Ok_0.0.accounting.total_shares == st.accounting.total_shares
                &&& w->Ok_0.0.accounting.available_liquidity == st.accounting.available_liquidity
                &&& w->Ok_0.1.shares == (match held {
                    Some(b) => b.shares as int,
                    None => 0,
                })
            }
        }),
{
    let s = accrue_state(st, now)->Ok_0;
    let a = s.accounting;
    if a.total_shares > 0 {
        lemma_mul_trunc_div_cancel(amount as int, a.total_shares as int);
    }
    let (st1, bal) = deposit_effect(st, held, amount, now)->Ok_0;
    assert(accrue_state(st1, now) == Ok::<PoolState, Error>(st1));
    lemma_mul_trunc_div_cancel(amount as int, st1.accounting.total_shares as int);
}

/// Lending out and re-booking debt only move tokens between a pool's
/// liquidity and its debt: their sum, the pool's assets and shares, its
/// settings and its borrowing contract stay.
pub proof fn law_debt_moves_liquidity(st: PoolState, caller: u64, amount: i128, now: u64)
    ensures
        borrow_effect(st, caller, amount, now) matches Ok(s) ==> {
            &&& s.accounting.available_liquidity + s.accounting.outstanding_debt
                == st.accounting.available_liquidity + st.accounting.outstanding_debt
            &&& s.accounting.total_assets == st.accounting.total_assets
            &&& s.accounting.total_shares == st.accounting.total_shares
            &&& s.config == st.config
            &&& s.borrowing_contract == st.borrowing_contract
        },
        update_debt_effect(st, caller, amount, now) matches Ok(s) ==> {
            &&& s.accounting.available_liquidity + s.accounting.outstanding_debt
                == st.accounting.available_liquidity + st.accounting.outstanding_debt
            &&& s.accounting.total_assets == st.accounting.total_assets
            &&& s.accounting.total_shares == st.accounting.total_shares
            &&& s.config == st.config
            &&& s.borrowing_contract == st.borrowing_contract
        },
{
}

/// Only the borrowing contract bound to a pool can lend out, take back or
/// re-book its funds.
pub proof fn law_only_bound_contract_moves_funds(
    st: PoolState,
    caller: u64,
    amount: i128,
    interest: i128,
    now: u64,
)
    requires
        st.borrowing_contract != Some(caller),
    ensures
        borrow_effect(st, caller, amount, now) == Err::<PoolState, Error>(Error::Unauthorized),
        repay_effect(st, caller, amount, interest, now) == Err::<PoolState, Error>(
            Error::Unauthorized,
        ),
        update_debt_effect(st, caller, amount, now) == Err::<PoolState, Error>(
            Error::Unauthorized,
        ),
{
}

/// No supplier or borrowing operation changes a pool's settings or the
/// borrowing contract it is bound to.
pub proof fn law_binding_is_permanent(
    st: PoolState,
    held: Option<ShareBalance>,
    caller: u64,
    amount: i128,
    interest: i128,
    now: u64,
)
    ensures
        accrue_state(st, now) matches Ok(s) ==> s.config == st.config && s.borrowing_contract
            == st.borrowing_contract,
        deposit_effect(st, held, amount, now) matches Ok((s, _b)) ==> s.config == st.config
            && s.borrowing_contract == st.borrowing_contract,
        withdraw_effect(st, held, amount, now) matches Ok((s, _b, _p)) ==> s.config == st.config
            && s.borrowing_contract == st.borrowing_contract,
        borrow_effect(st, caller, amount, now) matches Ok(s) ==> s.config == st.config
            && s.borrowing_contract == st.borrowing_contract,
        repay_effect(st, caller, amount, interest, now) matches Ok(s) ==> s.config == st.config
            && s.borrowing_contract == st.borrowing_contract,
        update_debt_effect(st, caller, amount, now) matches Ok(s) ==> s.config == st.config
            && s.borrowing_contract == st.borrowing_contract,
{
}

} // verus!

verus! {

/// A deposit stamps the lender's position with the pool's interest index
/// as brought up to the deposit's time, so that at that moment the lender
/// has earned no interest; the position holds the earlier shares plus those
/// minted.
pub proof fn law_deposit_restarts_lender_interest(
    st: PoolState,
    held: Option<ShareBalance>,
    amount: i128,
    now: u64,
)
    ensures
        deposit_effect(st, held, amount, now) matches Ok((s, b)) ==> {
            &&& b.last_interest_index == s.accounting.interest_index
            &&& s.accounting.interest_index == accrue_state(st, now)->Ok_0.accounting.interest_index
            &&& lender_interest(s, Some(b), now) == Ok::<(PoolState, i128), Error>((s, 0i128))
            &&& b.shares == (match held {
                Some(h) => h.shares as int,
                None => 0,
            }) + shares_for_deposit(
                amount as int,
                st.accounting.total_assets as int,
                st.accounting.total_shares as int,
            )->0
        },
{
    if let Ok((s, b)) = deposit_effect(st, held, amount, now) {
        assert(s.params.last_accrual_time >= now);
        assert(accrue_state(s, now) == Ok::<PoolState, Error>(s));
        assert(share_interest(b.shares as int, b.last_interest_index as int, b.last_interest_index as int)
            == Some(0int)) by {
            assert(b.shares * 0 == 0);
            assert(trunc_div(0, FIXED_SCALE as int) == 0);
        }
    }
}

} // verus!
