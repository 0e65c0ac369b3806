//! A pending-balance reward ledger.
//!
//! Rewards are credited to a user's pending balance and paid out whole by a
//! claim. Claims are throttled in two ways: a contract-wide rate limit (at
//! most a fixed number of claims per time window) and a per-user cooldown
//! since the user's last claim. Every claim is recorded in the user's claim
//! history, which keeps the most recent fifty, and counted globally.
use std::collections::HashMap;
use vstd::prelude::*;
use crate::errors::Error;
use crate::rewards::RewardConfig;
use crate::rewards::ClaimRecord;
use crate::types::{Permission, RateLimit, Role};

verus! {

broadcast use vstd::std_specs::hash::group_hash_axioms;

/// Most recent claims kept per user.
pub const CLAIM_HISTORY_LIMIT: usize = 50;

/// The ledger's pool: what was allocated and what has been claimed.
#[derive(Clone, Copy, Debug, PartialEq, Eq)]
pub struct RewardPool {
    pub total_allocated: i128,
    pub total_claimed: i128,
    pub reward_asset: [u8; 32],
    pub last_distribution: u64,
}

/// The rate limit in force before any was stored: 50 claims per minute.
pub open spec fn default_rate_limit() -> RateLimit {
    RateLimit {
        max_operations_per_period: 50,
        period_seconds: 60,
        current_count: 0,
        period_start: 0,
    }
}

/// The configuration in force before any was stored.
pub open spec fn default_ledger_config() -> RewardConfig {
    RewardConfig {
        claim_cooldown: 86400,
        max_claim_per_period: 1000,
        period_seconds: 86400,
        streak_bonus_enabled: true,
    }
}

/// The rate limit after admitting one more operation at `now`: a window
/// that has run out restarts at `now` with no operations; a full window
/// refuses the operation.
pub open spec fn rate_limit_after(rl: RateLimit, now: u64) -> Result<RateLimit, Error> {
    let window = if now >= rl.period_start + rl.period_seconds {
        RateLimit { current_count: 0, period_start: now, ..rl }
    } else {
        rl
    };
    if window.current_count >= window.max_operations_per_period {
        Err(Error::RateLimitExceeded)
    } else {
        Ok(RateLimit { current_count: (window.current_count + 1) as u64, ..window })
    }
}

/// The claim history after recording `rec`: the oldest entry is dropped
/// once more than `CLAIM_HISTORY_LIMIT` are held.
pub open spec fn history_after(h: Seq<ClaimRecord>, rec: ClaimRecord) -> Seq<ClaimRecord> {
    let all = h.push(rec);
    if all.len() > CLAIM_HISTORY_LIMIT {
        all.subrange(1, all.len() as int)
    } else {
        all
    }
}

/// The streak multiplier of the ledger: 1 up to a week, then 2, 3, 4 and 5
/// from 8, 31, 91 and 181 days; always 1 when streak bonuses are disabled.
pub open spec fn streak_multiplier(enabled: bool, streak_count: u32) -> u32 {
    if !enabled || streak_count <= 7 {
        1
    } else if streak_count <= 30 {
        2
    } else if streak_count <= 90 {
        3
    } else if streak_count <= 180 {
        4
    } else {
        5
    }
}

/// The reward ledger.
pub struct RewardLedger {
    pool: Option<RewardPool>,
    pending: HashMap<u64, i128>,
    config: Option<RewardConfig>,
    rate_limit: Option<RateLimit>,
    permissions: HashMap<u64, Permission>,
    history: HashMap<u64, Vec<ClaimRecord>>,
    claim_count: u64,
}

/// A copy of `v`.
fn copy_records(v: &Vec<ClaimRecord>) -> (r: Vec<ClaimRecord>)
    ensures
        r@ == v@,
{
    let mut r: Vec<ClaimRecord> = Vec::new();
    let mut i: usize = 0;
    while i < v.len()
        invariant
            i <= v@.len(),
            r@ == v@.take(i as int),
        decreases v@.len() - i,
    {
        r.push(v[i]);
        i += 1;
        assert(r@ =~= v@.take(i as int));
    }
    assert(v@.take(v@.len() as int) =~= v@);
    r
}

impl RewardLedger {
    pub closed spec fn pool_state(&self) -> Option<RewardPool> {
        self.pool
    }

    /// A user's pending balance (zero when none was credited).
    pub closed spec fn pending_of(&self, user: u64) -> i128 {
        if self.pending@.contains_key(user) {
            self.pending@[user]
        } else {
            0
        }
    }

    pub closed spec fn config_state(&self) -> Option<RewardConfig> {
        self.config
    }

    /// The rate limit in force.
    pub closed spec fn rate_limit_state(&self) -> RateLimit {
        match self.rate_limit {
            Some(rl) => rl,
            None => default_rate_limit(),
        }
    }

    pub closed spec fn permissions(&self) -> Map<u64, Permission> {
        self.permissions@
    }

    /// A user's recorded claims, oldest first (empty when none).
    pub closed spec fn history_of(&self, user: u64) -> Seq<ClaimRecord> {
        if self.history@.contains_key(user) {
            self.history@[user]@
        } else {
            Seq::empty()
        }
    }

    /// Claims paid so far.
    pub closed spec fn claim_count(&self) -> u64 {
        self.claim_count
    }

    /// The configuration in force.
    pub open spec fn effective_config(&self) -> RewardConfig {
        match self.config_state() {
            Some(c) => c,
            None => default_ledger_config(),
        }
    }

    /// The rate limit after a claim at `now` and the amount it pays, or the
    /// error of the claim, in the order of its checks.
    pub open spec fn claim_result(&self, user: u64, now: u64) -> Result<(RateLimit, i128), Error> {
        let h = self.history_of(user);
        let p = self.pending_of(user);
        let pool = self.pool_state()->0;
        match rate_limit_after(self.rate_limit_state(), now) {
            Err(e) => Err(e),
            Ok(rl) => if h.len() > 0 && (if now >= h.last().timestamp {
                now - h.last().timestamp
            } else {
                0
            }) < self.effective_config().claim_cooldown {
                Err(Error::CooldownPeriodNotMet)
            } else if p == 0 {
                Err(Error::InsufficientBalance)
            } else if self.pool_state() is None {
                Err(Error::NotInitialized)
            } else if !(i128::MIN <= pool.total_claimed + p <= i128::MAX) {
                Err(Error::Overflow)
            } else if self.claim_count() == u64::MAX {
                Err(Error::Overflow)
            } else {
                Ok((rl, p))
            },
        }
    }

    /// An empty ledger.
    pub fn new() -> (r: Self)
        ensures
            r.pool_state() is None,
            forall|u: u64| r.pending_of(u) == 0,
            r.config_state() is None,
            r.rate_limit_state() == default_rate_limit(),
            r.permissions() == Map::<u64, Permission>::empty(),
            forall|u: u64| r.history_of(u) == Seq::<ClaimRecord>::empty(),
            r.claim_count() == 0,
    {
        RewardLedger {
            pool: None,
            pending: HashMap::new(),
            config: None,
            rate_limit: None,
            permissions: HashMap::new(),
            history: HashMap::new(),
            claim_count: 0,
        }
    }

    /// Set up the pool with `total_pool` tokens of `reward_asset` at `now`,
    /// replacing any earlier pool.
    pub fn initialize_rewards(&mut self, total_pool: i128, reward_asset: [u8; 32], now: u64) -> (r:
        Result<(), Error>)
        ensures
            total_pool <= 0 ==> r == Err::<(), Error>(Error::InvalidAmount) && *final(self) == *old(self),
            total_pool > 0 ==> r is Ok && final(self).pool_state() == Some(
                RewardPool {
                    total_allocated: total_pool,
                    total_claimed: 0,
                    reward_asset,
                    last_distribution: now,
                },
            ) && (forall|u: u64| final(self).pending_of(u) == old(self).pending_of(u)) && (forall|
                u: u64,
            | final(self).history_of(u) == old(self).history_of(u)) && final(self).config_state()
                == old(self).config_state() && final(self).rate_limit_state() == old(self).rate_limit_state() && final(self).permissions() == old(self).permissions()
                && final(self).claim_count() == old(self).claim_count(),
    {
        if total_pool <= 0 {
            return Err(Error::InvalidAmount);
        }
        self.pool = Some(
            RewardPool { total_allocated: total_pool, total_claimed: 0, reward_asset, last_distribution: now },
        );
        Ok(())
    }

    /// Credit `amount` to the pending balance of `recipient`.
    pub fn grant_reward(&mut self, recipient: u64, amount: i128, reward_type: u32) -> (r: Result<
        (),
        Error,
    >)
        ensures
            amount <= 0 ==> r == Err::<(), Error>(Error::InvalidAmount) && *final(self) == *old(self),
            amount > 0 && old(self).pending_of(recipient) + amount > i128::MAX ==> r == Err::<
                (),
                Error,
            >(Error::Overflow) && *final(self) == *old(self),
            amount > 0 && old(self).pending_of(recipient) + amount <= i128::MAX ==> r is Ok && final(self).pending_of(recipient) == old(self).pending_of(recipient) + amount && (forall|u: u64|
                u != recipient ==> final(self).pending_of(u) == old(self).pending_of(u)) && final(self).pool_state() == old(self).pool_state() && (forall|u: u64|
                final(self).history_of(u) == old(self).history_of(u)) && final(self).config_state()
                == old(self).config_state() && final(self).rate_limit_state() == old(self).rate_limit_state() && final(self).permissions() == old(self).permissions()
                && final(self).claim_count() == old(self).claim_count(),
    {
        if amount <= 0 {
            return Err(Error::InvalidAmount);
        }
        let current = self.current_pending(recipient);
        let pending = match current.checked_add(amount) {
            Some(v) => v,
            None => return Err(Error::Overflow),
        };
        self.pending.insert(recipient, pending);
        Ok(())
    }

    fn current_pending(&self, user: u64) -> (r: i128)
        ensures
            r == self.pending_of(user),
    {
        match self.pending.get(&user) {
            Some(v) => *v,
            None => 0,
        }
    }

    /// The user's pending balance.
    pub fn get_pending_rewards(&self, user: u64) -> (r: Result<i128, Error>)
        ensures
            r == Ok::<i128, Error>(self.pending_of(user)),
    {
        Ok(self.current_pending(user))
    }

    /// The configuration in force.
    pub fn get_config(&self) -> (r: RewardConfig)
        ensures
            r == self.effective_config(),
    {
        match self.config {
            Some(c) => c,
            None => RewardConfig {
                claim_cooldown: 86400,
                max_claim_per_period: 1000,
                period_seconds: 86400,
                streak_bonus_enabled: true,
            },
        }
    }

    /// The rate limit in force.
    pub fn get_rate_limit(&self) -> (r: RateLimit)
        ensures
            r == self.rate_limit_state(),
    {
        match self.rate_limit {
            Some(rl) => rl,
            None => RateLimit::new(50, 60),
        }
    }

    /// The rate limit after admitting a claim at `now`.
    fn check_rate_limit(&self, now: u64) -> (r: Result<RateLimit, Error>)
        requires
            self.rate_limit_state().period_start + self.rate_limit_state().period_seconds <= u64::MAX,
        ensures
            r == rate_limit_after(self.rate_limit_state(), now),
    {
        let mut rate_limit = match self.rate_limit {
            Some(rl) => rl,
            None => RateLimit::new(50, 60),
        };
        if now >= rate_limit.period_start + rate_limit.period_seconds {
            rate_limit.current_count = 0;
            rate_limit.period_start = now;
        }
        if rate_limit.current_count >= rate_limit.max_operations_per_period {
            return Err(Error::RateLimitExceeded);
        }
        rate_limit.current_count = rate_limit.current_count + 1;
        Ok(rate_limit)
    }

    /// Pay out the whole pending balance of `user` at `now`: throttled by
    /// the rate limit and the user's claim cooldown, refused when nothing is
    /// pending or the pool is not set up; the claim is recorded and counted.
    #[verifier::rlimit(40)]
    pub fn claim_rewards(&mut self, user: u64, now: u64) -> (r: Result<i128, Error>)
        requires
            old(self).rate_limit_state().period_start + old(self).rate_limit_state().period_seconds
                <= u64::MAX,
        ensures
            match old(self).claim_result(user, now) {
                Err(e) => r == Err::<i128, Error>(e) && *final(self) == *old(self),
                Ok((rl, amount)) => {
                    &&& r == Ok::<i128, Error>(amount)
                    &&& final(self).pending_of(user) == 0
                    &&& forall|u: u64| u != user ==> final(self).pending_of(u) == old(self).pending_of(u)
                    &&& final(self).pool_state() == Some(
                        RewardPool {
                            total_claimed: (old(self).pool_state()->0.total_claimed + amount) as i128,
                            ..old(self).pool_state()->0
                        },
                    )
                    &&& final(self).history_of(user) == history_after(
                        old(self).history_of(user),
                        ClaimRecord { timestamp: now, amount, reward_type: 0 },
                    )
                    &&& forall|u: u64| u != user ==> final(self).history_of(u) == old(self).history_of(u)
                    &&& final(self).claim_count() == old(self).claim_count() + 1
                    &&& final(self).rate_limit_state() == rl
                    &&& final(self).config_state() == old(self).config_state()
                    &&& final(self).permissions() == old(self).permissions()
                }
            },
    {
        let rate_limit = match self.check_rate_limit(now) {
            Ok(rl) => rl,
            Err(e) => return Err(e),
        };
        let config = self.get_config();
        let mut claim_history = match self.history.get(&user) {
            Some(v) => copy_records(v),
            None => Vec::new(),
        };
        if claim_history.len() > 0 {
            let last_claim = claim_history[claim_history.len() - 1];
            if now.saturating_sub(last_claim.timestamp) < config.claim_cooldown {
                return Err(Error::CooldownPeriodNotMet);
            }
        }
        let pending = self.current_pending(user);
        if pending == 0 {
            return Err(Error::InsufficientBalance);
        }
        let mut reward_pool = match self.pool {
            Some(p) => p,
            None => return Err(Error::NotInitialized),
        };
        reward_pool.total_claimed = match reward_pool.total_claimed.checked_add(pending) {
            Some(v) => v,
            None => return Err(Error::Overflow),
        };
        if self.claim_count == u64::MAX {
            return Err(Error::Overflow);
        }
        let ghost h0 = claim_history@;
        claim_history.push(ClaimRecord { timestamp: now, amount: pending, reward_type: 0 });
        if claim_history.len() > CLAIM_HISTORY_LIMIT {
            claim_history.remove(0);
            assert(claim_history@ =~= h0.push(
                ClaimRecord { timestamp: now, amount: pending, reward_type: 0 },
            ).subrange(1, h0.len() as int + 1));
        }
        self.rate_limit = Some(rate_limit);
        self.pool = Some(reward_pool);
        self.pending.insert(user, 0);
        self.history.insert(user, claim_history);
        self.claim_count = self.claim_count + 1;
        Ok(pending)
    }

    /// Streak multiplier for `streak_count` under the configuration in force.
    pub fn calculate_streak_bonus(&self, streak_count: u32) -> (r: u32)
        ensures
            r == streak_multiplier(self.effective_config().streak_bonus_enabled, streak_count),
    {
        let config = self.get_config();
        if !config.streak_bonus_enabled {
            return 1;
        }
        if streak_count <= 7 {
            1
        } else if streak_count <= 30 {
            2
        } else if streak_count <= 90 {
            3
        } else if streak_count <= 180 {
            4
        } else {
            5
        }
    }

    /// The pool, or `NotInitialized`.
    pub fn get_reward_pool(&self) -> (r: Result<RewardPool, Error>)
        ensures
            r == (match self.pool_state() {
                Some(p) => Ok::<RewardPool, Error>(p),
                None => Err::<RewardPool, Error>(Error::NotInitialized),
            }),
    {
        match self.pool {
            Some(p) => Ok(p),
            None => Err(Error::NotInitialized),
        }
    }

    /// Whether `address` holds the admin role.
    pub fn is_admin(&self, address: u64) -> (r: bool)
        ensures
            r == (self.permissions().contains_key(address) && self.permissions()[address].role
                == Role::Admin),
    {
        match self.permissions.get(&address) {
            Some(p) => p.role == Role::Admin,
            None => false,
        }
    }

    /// Store a new configuration; only holders of the admin role may.
    pub fn set_config(&mut self, admin: u64, config: RewardConfig) -> (r: Result<(), Error>)
        ensures
            !(old(self).permissions().contains_key(admin) && old(self).permissions()[admin].role
                == Role::Admin) ==> r == Err::<(), Error>(Error::PermissionDenied) && *final(self)
                == *old(self),
            (old(self).permissions().contains_key(admin) && old(self).permissions()[admin].role
                == Role::Admin) ==> r is Ok && final(self).config_state() == Some(config) && final(self).pool_state() == old(self).pool_state() && final(self).permissions() == old(self).permissions() && (forall|u: u64| final(self).pending_of(u) == old(self).pending_of(u))
                && (forall|u: u64| final(self).history_of(u) == old(self).history_of(u)) && final(self).rate_limit_state() == old(self).rate_limit_state() && final(self).claim_count()
                == old(self).claim_count(),
    {
        if !self.is_admin(admin) {
            return Err(Error::PermissionDenied);
        }
        self.config = Some(config);
        Ok(())
    }

    /// Give `admin` the admin role, granted at `now`. The ledger itself puts
    /// no condition on who does so.
    pub fn grant_admin(&mut self, admin: u64, now: u64) -> (r: Result<(), Error>)
        ensures
            r is Ok,
            final(self).permissions() == old(self).permissions().insert(
                admin,
                Permission { role: Role::Admin, granted_at: now, expires_at: None },
            ),
            final(self).pool_state() == old(self).pool_state(),
            final(self).config_state() == old(self).config_state(),
            forall|u: u64| final(self).pending_of(u) == old(self).pending_of(u),
            forall|u: u64| final(self).history_of(u) == old(self).history_of(u),
            final(self).rate_limit_state() == old(self).rate_limit_state(),
            final(self).claim_count() == old(self).claim_count(),
    {
        self.permissions.insert(
            admin,
            Permission { role: Role::Admin, granted_at: now, expires_at: None },
        );
        Ok(())
    }

    /// The user's recorded claims, oldest first.
    pub fn get_claim_history(&self, user: u64) -> (r: Result<Vec<ClaimRecord>, Error>)
        ensures
            r matches Ok(v) && v@ == self.history_of(user),
    {
        match self.history.get(&user) {
            Some(v) => Ok(copy_records(v)),
            None => Ok(Vec::new()),
        }
    }

    /// Claims paid so far.
    pub fn get_global_claim_count(&self) -> (r: Result<u64, Error>)
        ensures
            r == Ok::<u64, Error>(self.claim_count()),
    {
        Ok(self.claim_count)
    }
}

/// A claim history never grows beyond `CLAIM_HISTORY_LIMIT` entries, and
/// always ends with the latest claim.
pub proof fn law_claim_history_bounded(h: Seq<ClaimRecord>, rec: ClaimRecord)
    requires
        h.len() <= CLAIM_HISTORY_LIMIT,
    ensures
        history_after(h, rec).len() <= CLAIM_HISTORY_LIMIT,
        history_after(h, rec).last() == rec,
{
}

/// A window never admits more operations than its maximum.
pub proof fn law_rate_limit_caps_window(rl: RateLimit, now: u64)
    ensures
        rate_limit_after(rl, now) matches Ok(next) ==> next.current_count
            <= next.max_operations_per_period,
{
}

/// After a successful claim, an immediate second claim by the same user is
/// refused: by the cooldown when one is configured, else because nothing is
/// pending any more.
pub proof fn law_second_claim_refused(before: RewardLedger, after: RewardLedger, user: u64, now: u64)
    requires
        before.claim_result(user, now) is Ok,
        after.pending_of(user) == 0,
        after.history_of(user) == history_after(
            before.history_of(user),
            ClaimRecord {
                timestamp: now,
                amount: before.claim_result(user, now)->Ok_0.1,
                reward_type: 0,
            },
        ),
        after.config_state() == before.config_state(),
    ensures
        after.claim_result(user, now) is Err,
{
}

} // verus!

verus! {

/// The ledger's streak multiplier: 1 up to a week and whenever streak
/// bonuses are off, 2 from 8 to 30 days, 3 from 31 to 90, 4 from 91 to 180
/// and 5 beyond; it never falls as the streak grows.
pub proof fn law_streak_multiplier_tiers(enabled: bool, streak: u32, longer: u32)
    ensures
        !enabled ==> streak_multiplier(enabled, streak) == 1,
        enabled && streak <= 7 ==> streak_multiplier(enabled, streak) == 1,
        enabled && 8 <= streak <= 30 ==> streak_multiplier(enabled, streak) == 2,
        enabled && 31 <= streak <= 90 ==> streak_multiplier(enabled, streak) == 3,
        enabled && 91 <= streak <= 180 ==> streak_multiplier(enabled, streak) == 4,
        enabled && 181 <= streak ==> streak_multiplier(enabled, streak) == 5,
        streak <= longer ==> streak_multiplier(enabled, streak) <= streak_multiplier(
            enabled,
            longer,
        ),
{
}

} // verus!
