//! Milestone rewards: a funded pool, streak milestones, per-user reward
//! entitlements, and claims with double-claim protection.
use std::collections::HashMap;
use vstd::prelude::*;
use crate::errors::Error;
use crate::types::{Milestone, Permission, RewardsPool, Role, UserReward};
use crate::utils::fit_i128;

verus! {

broadcast use vstd::std_specs::hash::group_hash_axioms;

/// Milestone thresholds (streak days) registered at initialization.
pub const MILESTONE_7_DAYS: u32 = 7;
pub const MILESTONE_30_DAYS: u32 = 30;
pub const MILESTONE_100_DAYS: u32 = 100;
pub const MILESTONE_365_DAYS: u32 = 365;

/// Reward configuration.
#[derive(Clone, Copy, Debug, PartialEq, Eq, Structural)]
pub struct RewardConfig {
    pub claim_cooldown: u64,
    pub max_claim_per_period: i128,
    pub period_seconds: u64,
    pub streak_bonus_enabled: bool,
}

/// A past claim.
#[derive(Clone, Copy, Debug, PartialEq, Eq, Structural)]
pub struct ClaimRecord {
    pub timestamp: u64,
    pub amount: i128,
    pub reward_type: u32,
}

/// The milestones registered at initialization: 7, 30, 100 and 365 days,
/// worth 10, 50, 200 and 1000 tokens (7 decimals).
pub open spec fn default_milestones() -> Seq<Milestone> {
    seq![
        Milestone { streak_threshold: 7, reward_amount: 10_0000000, reward_type: 0 },
        Milestone { streak_threshold: 30, reward_amount: 50_0000000, reward_type: 0 },
        Milestone { streak_threshold: 100, reward_amount: 200_0000000, reward_type: 0 },
        Milestone { streak_threshold: 365, reward_amount: 1000_0000000, reward_type: 0 },
    ]
}

/// The default configuration.
pub open spec fn default_config() -> RewardConfig {
    RewardConfig {
        claim_cooldown: 86400,
        max_claim_per_period: 1000,
        period_seconds: 86400,
        streak_bonus_enabled: true,
    }
}

/// Whether `rewards` holds an entitlement for the milestone with `id`.
pub open spec fn has_milestone(rewards: Seq<UserReward>, id: u32) -> bool {
    exists|i: int| 0 <= i < rewards.len() && (#[trigger] rewards[i]).milestone_id == id
}

/// A fresh, unclaimed entitlement for milestone `m`.
pub open spec fn entitlement(m: Milestone) -> UserReward {
    UserReward {
        milestone_id: m.streak_threshold,
        amount: m.reward_amount,
        claimed: false,
        claimed_at: None,
    }
}

/// Effect of considering milestone `m` for a user at streak `streak`, from
/// the user's entitlements `rewards` and the pool's `liquidity`.
pub open spec fn grant_step(
    acc: Result<(Seq<UserReward>, int), Error>,
    m: Milestone,
    streak: u32,
) -> Result<(Seq<UserReward>, int), Error> {
    match acc {
        Err(e) => Err(e),
        Ok((rewards, liquidity)) => {
            if streak >= m.streak_threshold && !has_milestone(rewards, m.streak_threshold) {
                if liquidity < m.reward_amount {
                    Err(Error::InsufficientRewardLiquidity)
                } else if liquidity - m.reward_amount > i128::MAX {
                    Err(Error::Overflow)
                } else {
                    Ok((rewards.push(entitlement(m)), liquidity - m.reward_amount))
                }
            } else {
                Ok((rewards, liquidity))
            }
        },
    }
}

/// Effect of granting a user at streak `streak` every milestone of
/// `milestones` in order: each reached milestone the user has not been
/// granted yet becomes an entitlement and leaves the pool's liquidity.
pub open spec fn grant_outcome(
    milestones: Seq<Milestone>,
    rewards: Seq<UserReward>,
    liquidity: int,
    streak: u32,
) -> Result<(Seq<UserReward>, int), Error>
    decreases milestones.len(),
{
    if milestones.len() == 0 {
        Ok((rewards, liquidity))
    } else {
        grant_step(
            grant_outcome(milestones.drop_last(), rewards, liquidity, streak),
            milestones.last(),
            streak,
        )
    }
}

/// Sum of the amounts of the unclaimed entitlements.
pub open spec fn unclaimed_total(rewards: Seq<UserReward>) -> int
    decreases rewards.len(),
{
    if rewards.len() == 0 {
        0
    } else {
        unclaimed_total(rewards.drop_last()) + if rewards.last().claimed {
            0
        } else {
            rewards.last().amount as int
        }
    }
}

/// Every running sum of unclaimed amounts fits in an `i128`.
pub open spec fn unclaimed_sums_fit(rewards: Seq<UserReward>) -> bool {
    forall|i: int|
        0 <= i <= rewards.len() ==> i128::MIN <= #[trigger] unclaimed_total(rewards.take(i))
            <= i128::MAX
}

/// The entitlements after a claim at time `now`: every unclaimed one is
/// marked claimed at `now`.
pub open spec fn claimed_all(rewards: Seq<UserReward>, now: u64) -> Seq<UserReward> {
    rewards.map_values(
        |r: UserReward|
            if r.claimed {
                r
            } else {
                UserReward { claimed: true, claimed_at: Some(now), ..r }
            },
    )
}

/// Sum of the amounts of the entitlements, claimed or not.
pub open spec fn amount_total(rewards: Seq<UserReward>) -> int
    decreases rewards.len(),
{
    if rewards.len() == 0 {
        0
    } else {
        amount_total(rewards.drop_last()) + rewards.last().amount as int
    }
}

/// Sum, over the users `users`, of the amounts of all their entitlements
/// as `rewards` gives them.
pub open spec fn sum_granted(rewards: spec_fn(u64) -> Seq<UserReward>, users: Seq<u64>) -> int
    decreases users.len(),
{
    if users.len() == 0 {
        0
    } else {
        sum_granted(rewards, users.drop_last()) + amount_total(rewards(users.last()))
    }
}

/// What the pool's books lack against its funding: available liquidity
/// minus total funded (zero before the pool exists).
pub open spec fn liquidity_gap(pool: Option<RewardsPool>) -> int {
    match pool {
        Some(p) => p.available_liquidity - p.total_funded,
        None => 0,
    }
}

/// Streak bonus in basis points: 100 (1.0x) below a week, 110 from 7 days,
/// 125 from 30, 150 from 100, 200 from 365.
pub open spec fn streak_bonus_bps(streak_count: u32) -> u32 {
    if streak_count <= 6 {
        100
    } else if streak_count <= 29 {
        110
    } else if streak_count <= 99 {
        125
    } else if streak_count <= 364 {
        150
    } else {
        200
    }
}

/// Byte `k` of the 32-byte milestone id of `threshold`: the threshold in
/// big-endian order, then the bytes of "milestone" repeating every 8.
pub open spec fn milestone_id_byte(threshold: u32, k: int) -> u8 {
    if k == 0 {
        ((threshold >> 24u32) & 0xffu32) as u8
    } else if k == 1 {
        ((threshold >> 16u32) & 0xffu32) as u8
    } else if k == 2 {
        ((threshold >> 8u32) & 0xffu32) as u8
    } else if k == 3 {
        (threshold & 0xffu32) as u8
    } else {
        milestone_tag_byte(k % 8)
    }
}

/// Byte `j` (below 8) of "milestone".
pub open spec fn milestone_tag_byte(j: int) -> u8 {
    if j == 0 {
        109u8
    } else if j == 1 {
        105u8
    } else if j == 2 {
        108u8
    } else if j == 3 {
        101u8
    } else if j == 4 {
        115u8
    } else if j == 5 {
        116u8
    } else if j == 6 {
        111u8
    } else {
        110u8
    }
}

/// The rewards contract.
///
/// A user's entitlement for a milestone records the milestone by its
/// threshold, which its 32-byte id encodes (see `create_milestone_id`).
pub struct RewardsContract {
    pool: Option<RewardsPool>,
    streaks_contract: Option<u64>,
    pending_admin: Option<u64>,
    milestones: Vec<Milestone>,
    user_rewards: HashMap<u64, Vec<UserReward>>,
    admin_permissions: HashMap<u64, Permission>,
    config: Option<RewardConfig>,
    /// Every user ever granted an entitlement, once each, in order.
    granted_users: Ghost<Seq<u64>>,
}

impl RewardsContract {
    /// The pool, once initialized.
    pub closed spec fn pool_state(&self) -> Option<RewardsPool> {
        self.pool
    }

    /// The registered milestones, in order.
    pub closed spec fn milestone_seq(&self) -> Seq<Milestone> {
        self.milestones@
    }

    /// A user's entitlements (empty when none).
    pub closed spec fn rewards_of(&self, user: u64) -> Seq<UserReward> {
        if self.user_rewards@.contains_key(user) {
            self.user_rewards@[user]@
        } else {
            Seq::empty()
        }
    }

    /// The streaks contract allowed to report milestones.
    pub closed spec fn streaks_contract_id(&self) -> Option<u64> {
        self.streaks_contract
    }

    /// The proposed next admin, if a transfer is pending.
    pub closed spec fn pending_admin_id(&self) -> Option<u64> {
        self.pending_admin
    }

    /// Granted permissions.
    pub closed spec fn permissions(&self) -> Map<u64, Permission> {
        self.admin_permissions@
    }

    /// The stored configuration.
    pub closed spec fn config_state(&self) -> Option<RewardConfig> {
        self.config
    }

    /// The users ever granted an entitlement, in order of their first grant.
    pub closed spec fn granted_users(&self) -> Seq<u64> {
        self.granted_users@
    }

    /// Each user's entitlements, as a function.
    pub open spec fn rewards_fn(&self) -> spec_fn(u64) -> Seq<UserReward> {
        |u: u64| self.rewards_of(u)
    }

    /// Sum of the amounts of every entitlement held by any user, claimed or
    /// not.
    pub open spec fn granted_total(&self) -> int {
        sum_granted(self.rewards_fn(), self.granted_users())
    }

    /// The rewards are consistent: no user holds two entitlements for one
    /// milestone; every user holding an entitlement is listed once among the
    /// granted users; and the pool's books balance, its available liquidity
    /// plus everything ever granted equalling the total funded (nothing is
    /// granted before the pool exists).
    pub open spec fn rewards_wf(&self) -> bool {
        &&& forall|u: u64| milestones_distinct(#[trigger] self.rewards_of(u))
        &&& self.granted_users().no_duplicates()
        &&& forall|u: u64| #[trigger] self.rewards_of(u).len() > 0 ==> self.granted_users().contains(u)
        &&& liquidity_gap(self.pool_state()) + self.granted_total() == 0
    }

    /// The pool never promises more than it holds: its available liquidity
    /// is not negative and does not exceed what was funded.
    pub open spec fn liquidity_wf(&self) -> bool {
        self.pool_state() matches Some(p) ==> 0 <= p.available_liquidity
    }

    /// An uninitialized contract.
    pub fn new() -> (r: Self)
        ensures
            r.pool_state() is None,
            r.milestone_seq() == Seq::<Milestone>::empty(),
            forall|u: u64| r.rewards_of(u) == Seq::<UserReward>::empty(),
            r.streaks_contract_id() is None,
            r.pending_admin_id() is None,
            r.permissions() == Map::<u64, Permission>::empty(),
            r.config_state() is None,
            r.rewards_wf(),
    {
        let r = RewardsContract {
            pool: None,
            streaks_contract: None,
            pending_admin: None,
            milestones: Vec::new(),
            user_rewards: HashMap::new(),
            admin_permissions: HashMap::new(),
            config: None,
            granted_users: Ghost(Seq::empty()),
        };
        assert(r.granted_users() =~= Seq::<u64>::empty());
        r
    }

    fn register_default_milestones(&mut self)
        ensures
            final(self).milestone_seq() == default_milestones(),
            final(self).pool_state() == old(self).pool_state(),
            forall|u: u64| final(self).rewards_of(u) == old(self).rewards_of(u),
            final(self).streaks_contract_id() == old(self).streaks_contract_id(),
            final(self).pending_admin_id() == old(self).pending_admin_id(),
            final(self).permissions() == old(self).permissions(),
            final(self).config_state() == old(self).config_state(),
            final(self).granted_users() == old(self).granted_users(),
    {
        let mut milestones = Vec::new();
        milestones.push(
            Milestone { streak_threshold: MILESTONE_7_DAYS, reward_amount: 10_0000000, reward_type: 0 },
        );
        milestones.push(
            Milestone { streak_threshold: MILESTONE_30_DAYS, reward_amount: 50_0000000, reward_type: 0 },
        );
        milestones.push(
            Milestone {
                streak_threshold: MILESTONE_100_DAYS,
                reward_amount: 200_0000000,
                reward_type: 0,
            },
        );
        milestones.push(
            Milestone {
                streak_threshold: MILESTONE_365_DAYS,
                reward_amount: 1000_0000000,
                reward_type: 0,
            },
        );
        assert(milestones@ =~= default_milestones());
        self.milestones = milestones;
    }

    /// Initialize an empty pool administered by `admin`, remember the streaks
    /// contract, and register the default milestones. Only once.
    pub fn initialize(&mut self, admin: u64, reward_asset: [u8; 32], streaks_contract: u64) -> (r:
        Result<(), Error>)
        ensures
            old(self).pool_state() is Some ==> r == Err::<(), Error>(Error::AlreadyInitialized)
                && *final(self) == *old(self),
            old(self).pool_state() is None ==> r is Ok && final(self).pool_state() == Some(
                RewardsPool {
                    total_funded: 0,
                    available_liquidity: 0,
                    reward_asset,
                    initialized: true,
                    admin,
                },
            ) && final(self).streaks_contract_id() == Some(streaks_contract) && final(self).milestone_seq() == default_milestones() && (forall|u: u64|
                final(self).rewards_of(u) == old(self).rewards_of(u)) && final(self).pending_admin_id()
                == old(self).pending_admin_id() && final(self).permissions() == old(self).permissions()
                && final(self).config_state() == old(self).config_state(),
            old(self).liquidity_wf() ==> final(self).liquidity_wf(),
            old(self).rewards_wf() ==> final(self).rewards_wf(),
    {
        if self.pool.is_some() {
            return Err(Error::AlreadyInitialized);
        }
        self.streaks_contract = Some(streaks_contract);
        self.pool = Some(
            RewardsPool {
                total_funded: 0,
                available_liquidity: 0,
                reward_asset,
                initialized: true,
                admin,
            },
        );
        self.register_default_milestones();
        proof {
            if old(self).rewards_wf() {
                lemma_conserved_frame(*old(self), *self);
            }
        }
        Ok(())
    }

    /// Initialize a pool administered by `admin` and already funded with
    /// `total_pool` tokens, with the default milestones. Only once.
    pub fn initialize_rewards(&mut self, admin: u64, total_pool: i128, reward_asset: [u8; 32]) -> (r:
        Result<(), Error>)
        ensures
            old(self).pool_state() is Some ==> r == Err::<(), Error>(Error::AlreadyInitialized)
                && *final(self) == *old(self),
            old(self).pool_state() is None && total_pool <= 0 ==> r == Err::<(), Error>(
                Error::InvalidAmount,
            ) && *final(self) == *old(self),
            old(self).pool_state() is None && total_pool > 0 ==> r is Ok && final(self).pool_state()
                == Some(
                RewardsPool {
                    total_funded: total_pool,
                    available_liquidity: total_pool,
                    reward_asset,
                    initialized: true,
                    admin,
                },
            ) && final(self).milestone_seq() == default_milestones() && (forall|u: u64|
                final(self).rewards_of(u) == old(self).rewards_of(u)) && final(self).streaks_contract_id()
                == old(self).streaks_contract_id() && final(self).pending_admin_id() == old(self).pending_admin_id()
                && final(self).permissions() == old(self).permissions() && final(self).config_state()
                == old(self).config_state(),
            old(self).liquidity_wf() ==> final(self).liquidity_wf(),
            old(self).rewards_wf() ==> final(self).rewards_wf(),
    {
        if self.pool.is_some() {
            return Err(Error::AlreadyInitialized);
        }
        if total_pool <= 0 {
            return Err(Error::InvalidAmount);
        }
        self.pool = Some(
            RewardsPool {
                total_funded: total_pool,
                available_liquidity: total_pool,
                reward_asset,
                initialized: true,
                admin,
            },
        );
        self.register_default_milestones();
        proof {
            if old(self).rewards_wf() {
                lemma_conserved_frame(*old(self), *self);
            }
        }
        Ok(())
    }

    /// Add `amount` tokens to the pool; only the pool admin may fund it.
    pub fn fund_rewards_pool(&mut self, caller: u64, amount: i128) -> (r: Result<(), Error>)
        ensures
            ({
                let p = old(self).pool_state()->0;
                &&& old(self).pool_state() is None ==> r == Err::<(), Error>(
                    Error::RewardsPoolNotInitialized,
                ) && *final(self) == *old(self)
                &&& old(self).pool_state() is Some && caller != p.admin ==> r == Err::<(), Error>(
                    Error::UnauthorizedAdmin,
                ) && *final(self) == *old(self)
                &&& old(self).pool_state() is Some && caller == p.admin && amount <= 0 ==> r
                    == Err::<(), Error>(Error::InvalidAmount) && *final(self) == *old(self)
                &&& old(self).pool_state() is Some && caller == p.admin && amount > 0 && (
                p.available_liquidity + amount > i128::MAX || p.total_funded + amount
                    > i128::MAX) ==> r == Err::<(), Error>(Error::Overflow) && *final(self) == *old(self)
                &&& old(self).pool_state() is Some && caller == p.admin && amount > 0
                    && p.available_liquidity + amount <= i128::MAX && p.total_funded + amount
                    <= i128::MAX ==> r is Ok && final(self).pool_state() == Some(
                    RewardsPool {
                        available_liquidity: (p.available_liquidity + amount) as i128,
                        total_funded: (p.total_funded + amount) as i128,
                        ..p
                    },
                ) && final(self).milestone_seq() == old(self).milestone_seq() && (forall|u: u64|
                    final(self).rewards_of(u) == old(self).rewards_of(u)) && final(self).streaks_contract_id()
                    == old(self).streaks_contract_id() && final(self).pending_admin_id() == old(self).pending_admin_id()
                    && final(self).permissions() == old(self).permissions() && final(self).config_state()
                    == old(self).config_state()
                &&& old(self).liquidity_wf() ==> final(self).liquidity_wf()
            }),
            old(self).rewards_wf() ==> final(self).rewards_wf(),
    {
        let mut pool = match self.pool {
            Some(p) => p,
            None => return Err(Error::RewardsPoolNotInitialized),
        };
        if caller != pool.admin {
            return Err(Error::UnauthorizedAdmin);
        }
        if amount <= 0 {
            return Err(Error::InvalidAmount);
        }
        let liquidity = match pool.available_liquidity.checked_add(amount) {
            Some(v) => v,
            None => return Err(Error::Overflow),
        };
        let funded = match pool.total_funded.checked_add(amount) {
            Some(v) => v,
            None => return Err(Error::Overflow),
        };
        pool.available_liquidity = liquidity;
        pool.total_funded = funded;
        self.pool = Some(pool);
        proof {
            if old(self).rewards_wf() {
                lemma_conserved_frame(*old(self), *self);
            }
        }
        Ok(())
    }

    /// The user's entitlements (empty when none).
    fn get_user_rewards(&self, user: u64) -> (r: Vec<UserReward>)
        ensures
            r@ == self.rewards_of(user),
    {
        match self.user_rewards.get(&user) {
            Some(v) => {
                let mut out: Vec<UserReward> = Vec::new();
                let mut i: usize = 0;
                while i < v.len()
                    invariant
                        i <= v@.len(),
                        out@ == v@.take(i as int),
                    decreases v@.len() - i,
                {
                    out.push(v[i]);
                    i += 1;
                    assert(out@ =~= v@.take(i as int));
                }
                assert(v@.take(i as int) =~= v@);
                out
            },
            None => Vec::new(),
        }
    }

    /// Whether the user was already granted the milestone with `milestone_id`.
    pub fn user_has_reward(rewards: &Vec<UserReward>, milestone_id: u32) -> (r: bool)
        ensures
            r == has_milestone(rewards@, milestone_id),
    {
        let mut i: usize = 0;
        while i < rewards.len()
            invariant
                i <= rewards@.len(),
                forall|j: int| 0 <= j < i ==> rewards@[j].milestone_id != milestone_id,
            decreases rewards@.len() - i,
        {
            if rewards[i].milestone_id == milestone_id {
                return true;
            }
            i += 1;
        }
        false
    }

    /// The entitlements of `recipient` and the pool's liquidity after a
    /// grant at streak `streak_count`, or the error of the grant.
    pub open spec fn grant_result(&self, recipient: u64, streak_count: u32) -> Result<
        (Seq<UserReward>, int),
        Error,
    > {
        let p = self.pool_state()->0;
        if self.pool_state() is None || !p.initialized {
            Err(Error::RewardsPoolNotInitialized)
        } else {
            grant_outcome(
                self.milestone_seq(),
                self.rewards_of(recipient),
                p.available_liquidity as int,
                streak_count,
            )
        }
    }

    /// Whether `grant_reward` would succeed, and its error if not; nothing
    /// is changed.
    pub fn check_grant(&self, recipient: u64, streak_count: u32) -> (r: Result<(), Error>)
        ensures
            match self.grant_result(recipient, streak_count) {
                Err(e) => r == Err::<(), Error>(e),
                Ok(_) => r is Ok,
            },
    {
        let pool = match self.pool {
            Some(p) => p,
            None => return Err(Error::RewardsPoolNotInitialized),
        };
        if !pool.initialized {
            return Err(Error::RewardsPoolNotInitialized);
        }
        let rewards = self.get_user_rewards(recipient);
        match Self::grant_milestones(&self.milestones, rewards, pool.available_liquidity, streak_count) {
            Ok(_) => Ok(()),
            Err(e) => Err(e),
        }
    }

    /// Grant `recipient`, now at streak `streak_count`, every reached
    /// milestone not granted before. The whole grant fails, changing nothing,
    /// when the pool is not initialized or lacks the liquidity for one of
    /// them.
    #[verifier::rlimit(30)]
    pub fn grant_reward(&mut self, recipient: u64, streak_count: u32) -> (r: Result<(), Error>)
        ensures
            ({
                let p = old(self).pool_state()->0;
                let outcome = grant_outcome(
                    old(self).milestone_seq(),
                    old(self).rewards_of(recipient),
                    p.available_liquidity as int,
                    streak_count,
                );
                &&& (old(self).pool_state() is None || !p.initialized) ==> r == Err::<(), Error>(
                    Error::RewardsPoolNotInitialized,
                ) && *final(self) == *old(self)
                &&& old(self).pool_state() is Some && p.initialized && outcome is Err ==> r
                    == Err::<(), Error>(outcome->Err_0) && *final(self) == *old(self)
                &&& old(self).pool_state() is Some && p.initialized && outcome is Ok ==> r is Ok
                    && final(self).rewards_of(recipient) == outcome->Ok_0.0 && final(self).pool_state() == Some(
                    RewardsPool { available_liquidity: outcome->Ok_0.1 as i128, ..p },
                ) && (forall|u: u64|
                    u != recipient ==> final(self).rewards_of(u) == old(self).rewards_of(u))
                    && final(self).milestone_seq() == old(self).milestone_seq() && final(self).streaks_contract_id() == old(self).streaks_contract_id() && final(self).pending_admin_id() == old(self).pending_admin_id() && final(self).permissions()
                    == old(self).permissions() && final(self).config_state() == old(self).config_state()
            }),
            old(self).grant_result(recipient, streak_count) matches Err(e) ==> r == Err::<(), Error>(e)
                && *final(self) == *old(self),
            old(self).rewards_wf() ==> final(self).rewards_wf(),
    {
        let mut pool = match self.pool {
            Some(p) => p,
            None => return Err(Error::RewardsPoolNotInitialized),
        };
        if !pool.initialized {
            return Err(Error::RewardsPoolNotInitialized);
        }
        let rewards = self.get_user_rewards(recipient);
        let (granted, liquidity) = match Self::grant_milestones(
            &self.milestones,
            rewards,
            pool.available_liquidity,
            streak_count,
        ) {
            Ok(v) => v,
            Err(e) => return Err(e),
        };
        pool.available_liquidity = liquidity;
        self.pool = Some(pool);
        self.user_rewards.insert(recipient, granted);
        let ghost before = *old(self);
        self.granted_users = Ghost(
            if self.granted_users@.contains(recipient) {
                self.granted_users@
            } else {
                self.granted_users@.push(recipient)
            },
        );
        proof {
            if before.rewards_wf() {
                lemma_grant_amounts(
                    before.milestone_seq(),
                    before.rewards_of(recipient),
                    before.pool_state()->0.available_liquidity as int,
                    streak_count,
                );
                if !before.granted_users().contains(recipient) {
                    assert(self.granted_users()[before.granted_users().len() as int] == recipient);
                }
                law_grant_at_most_once(
                    before.milestone_seq(),
                    before.rewards_of(recipient),
                    before.pool_state()->0.available_liquidity as int,
                    streak_count,
                );
                lemma_conserved_after(before, *self, recipient);
            }
        }
        Ok(())
    }

    /// Apply every milestone of `milestones` in order to the entitlements
    /// `rewards` and the pool liquidity `liquidity`.
    #[verifier::rlimit(30)]
    fn grant_milestones(
        milestones: &Vec<Milestone>,
        granted: Vec<UserReward>,
        available: i128,
        streak_count: u32,
    ) -> (r: Result<(Vec<UserReward>, i128), Error>)
        ensures
            ({
                let outcome = grant_outcome(milestones@, granted@, available as int, streak_count);
                &&& outcome is Err ==> r is Err && r->Err_0 == outcome->Err_0
                &&& outcome is Ok ==> r is Ok && r->Ok_0.0@ == outcome->Ok_0.0 && r->Ok_0.1 as int
                    == outcome->Ok_0.1
            }),
    {
        let ghost rewards0 = granted@;
        let ghost liq0 = available as int;
        let mut rewards = granted;
        let mut liquidity = available;
        let mut i: usize = 0;
        while i < milestones.len()
            invariant
                rewards0 == granted@,
                liq0 == available as int,
                i <= milestones@.len(),
                grant_outcome(milestones@.take(i as int), rewards0, liq0, streak_count)
                    == Ok::<(Seq<UserReward>, int), Error>((rewards@, liquidity as int)),
            decreases milestones@.len() - i,
        {
            let m = milestones[i];
            proof {
                lemma_grant_outcome_step(milestones@, rewards0, liq0, streak_count, i as int);
            }
            if streak_count >= m.streak_threshold && !Self::user_has_reward(
                &rewards,
                m.streak_threshold,
            ) {
                if liquidity < m.reward_amount {
                    proof {
                        lemma_grant_outcome_err_sticks(
                            milestones@,
                            rewards0,
                            liq0,
                            streak_count,
                            i as int + 1,
                        );
                        assert(grant_outcome(milestones@.take(i + 1), rewards0, liq0, streak_count)
                            == Err::<(Seq<UserReward>, int), Error>(
                            Error::InsufficientRewardLiquidity,
                        ));
                        assert(grant_outcome(milestones@, rewards0, liq0, streak_count) == Err::<
                            (Seq<UserReward>, int),
                            Error,
                        >(Error::InsufficientRewardLiquidity));
                    }
                    return Err(Error::InsufficientRewardLiquidity);
                }
                let next = match liquidity.checked_sub(m.reward_amount) {
                    Some(v) => v,
                    None => {
                        proof {
                            lemma_grant_outcome_err_sticks(
                                milestones@,
                                rewards0,
                                liq0,
                                streak_count,
                                i as int + 1,
                            );
                        }
                        return Err(Error::Overflow);
                    },
                };
                rewards.push(
                    UserReward {
                        milestone_id: m.streak_threshold,
                        amount: m.reward_amount,
                        claimed: false,
                        claimed_at: None,
                    },
                );
                liquidity = next;
            }
            i += 1;
        }
        assert(milestones@.take(i as int) =~= milestones@);
        Ok((rewards, liquidity))
    }

    /// Claim every unclaimed entitlement of `user` at time `now`; returns the
    /// total claimed. Fails with `RewardNotEligible` when that total is zero.
    pub fn claim_rewards(&mut self, user: u64, now: u64) -> (r: Result<i128, Error>)
        ensures
            ({
                let rs = old(self).rewards_of(user);
                &&& unclaimed_sums_fit(rs) && unclaimed_total(rs) != 0 ==> r == Ok::<i128, Error>(
                    unclaimed_total(rs) as i128,
                ) && final(self).rewards_of(user) == claimed_all(rs, now) && (forall|u: u64|
                    u != user ==> final(self).rewards_of(u) == old(self).rewards_of(u)) && final(self).pool_state() == old(self).pool_state() && final(self).milestone_seq() == old(self).milestone_seq() && final(self).streaks_contract_id() == old(self).streaks_contract_id() && final(self).pending_admin_id() == old(self).pending_admin_id() && final(self).permissions() == old(self).permissions()
                    && final(self).config_state() == old(self).config_state()
                &&& unclaimed_sums_fit(rs) && unclaimed_total(rs) == 0 ==> r == Err::<i128, Error>(
                    Error::RewardNotEligible,
                ) && *final(self) == *old(self)
                &&& !unclaimed_sums_fit(rs) ==> r == Err::<i128, Error>(Error::Overflow) && *final(self) == *old(self)
            }),
            old(self).rewards_wf() ==> final(self).rewards_wf(),
    {
        let ghost rs = self.rewards_of(user);
        let mut rewards = self.get_user_rewards(user);
        let mut total: i128 = 0;
        let mut i: usize = 0;
        while i < rewards.len()
            invariant
                *self == *old(self),
                rs == old(self).rewards_of(user),
                rewards@.len() == rs.len(),
                i <= rs.len(),
                total as int == unclaimed_total(rs.take(i as int)),
                forall|j: int| 0 <= j <= i ==> i128::MIN <= #[trigger] unclaimed_total(rs.take(j))
                    <= i128::MAX,
                forall|j: int| 0 <= j < i ==> rewards@[j] == claimed_all(rs, now)[j],
                forall|j: int| i <= j < rs.len() ==> rewards@[j] == rs[j],
            decreases rs.len() - i,
        {
            let mut reward = rewards[i];
            assert(rs.take(i + 1).drop_last() =~= rs.take(i as int));
            assert(rs.take(i + 1).last() == rs[i as int]);
            if !reward.claimed {
                total = match total.checked_add(reward.amount) {
                    Some(t) => t,
                    None => {
                        assert(unclaimed_total(rs.take(i + 1)) == total + reward.amount);
                        assert(!unclaimed_sums_fit(rs));
                        return Err(Error::Overflow);
                    },
                };
                reward.claimed = true;
                reward.claimed_at = Some(now);
                rewards.set(i, reward);
            }
            i += 1;
        }
        assert(rs.take(rs.len() as int) =~= rs);
        assert(unclaimed_sums_fit(rs));
        if total == 0 {
            return Err(Error::RewardNotEligible);
        }
        assert(rewards@ =~= claimed_all(rs, now));
        self.user_rewards.insert(user, rewards);
        proof {
            if old(self).rewards_wf() {
                lemma_claimed_amounts(rs, now);
                assert(milestones_distinct(rs));
                assert(milestones_distinct(self.rewards_of(user))) by {
                    assert forall|i: int, j: int|
                        0 <= i < j < rs.len() implies #[trigger] claimed_all(rs, now)[i].milestone_id
                        != #[trigger] claimed_all(rs, now)[j].milestone_id by {
                        assert(rs[i].milestone_id != rs[j].milestone_id);
                    }
                }
                lemma_conserved_after(*old(self), *self, user);
            }
        }
        Ok(total)
    }

    /// Total of the user's unclaimed entitlements.
    pub fn get_pending_rewards(&self, user: u64) -> (r: i128)
        requires
            unclaimed_sums_fit(self.rewards_of(user)),
        ensures
            r == unclaimed_total(self.rewards_of(user)),
    {
        let ghost rs = self.rewards_of(user);
        let rewards = self.get_user_rewards(user);
        let mut pending: i128 = 0;
        let mut i: usize = 0;
        while i < rewards.len()
            invariant
                rewards@ == rs,
                i <= rs.len(),
                pending as int == unclaimed_total(rs.take(i as int)),
                unclaimed_sums_fit(rs),
            decreases rs.len() - i,
        {
            assert(rs.take(i + 1).drop_last() =~= rs.take(i as int));
            assert(i128::MIN <= unclaimed_total(rs.take(i + 1)) <= i128::MAX);
            if !rewards[i].claimed {
                pending = pending + rewards[i].amount;
            }
            i += 1;
        }
        assert(rs.take(rs.len() as int) =~= rs);
        pending
    }

    /// Streak bonus multiplier in basis points (100 = 1.0x).
    pub fn calculate_streak_bonus(streak_count: u32) -> (r: u32)
        ensures
            r == streak_bonus_bps(streak_count),
    {
        if streak_count <= 6 {
            100
        } else if streak_count <= 29 {
            110
        } else if streak_count <= 99 {
            125
        } else if streak_count <= 364 {
            150
        } else {
            200
        }
    }

    /// Register a further milestone; only the pool admin may.
    pub fn add_milestone(&mut self, caller: u64, threshold: u32, reward_amount: i128, reward_type: u32) -> (r:
        Result<(), Error>)
        ensures
            old(self).pool_state() is None ==> r == Err::<(), Error>(
                Error::RewardsPoolNotInitialized,
            ) && *final(self) == *old(self),
            old(self).pool_state() is Some && caller != old(self).pool_state()->0.admin ==> r
                == Err::<(), Error>(Error::UnauthorizedAdmin) && *final(self) == *old(self),
            old(self).pool_state() is Some && caller == old(self).pool_state()->0.admin ==> r is Ok
                && final(self).milestone_seq() == old(self).milestone_seq().push(
                Milestone { streak_threshold: threshold, reward_amount, reward_type },
            ) && final(self).pool_state() == old(self).pool_state() && (forall|u: u64|
                final(self).rewards_of(u) == old(self).rewards_of(u)) && final(self).streaks_contract_id()
                == old(self).streaks_contract_id() && final(self).pending_admin_id() == old(self).pending_admin_id()
                && final(self).permissions() == old(self).permissions() && final(self).config_state()
                == old(self).config_state(),
            old(self).liquidity_wf() ==> final(self).liquidity_wf(),
            old(self).rewards_wf() ==> final(self).rewards_wf(),
    {
        let pool = match self.pool {
            Some(p) => p,
            None => return Err(Error::RewardsPoolNotInitialized),
        };
        if caller != pool.admin {
            return Err(Error::UnauthorizedAdmin);
        }
        self.milestones.push(
            Milestone { streak_threshold: threshold, reward_amount, reward_type },
        );
        proof {
            if old(self).rewards_wf() {
                lemma_conserved_frame(*old(self), *self);
            }
        }
        Ok(())
    }

    /// The pool, once initialized.
    pub fn pool(&self) -> (r: Option<RewardsPool>)
        ensures
            r == self.pool_state(),
    {
        self.pool
    }

    /// The proposed next admin, if a transfer is pending.
    pub fn get_pending_admin(&self) -> (r: Option<u64>)
        ensures
            r == self.pending_admin_id(),
    {
        self.pending_admin
    }

    /// The pool state.
    pub fn get_pool_state(&self) -> (r: RewardsPool)
        requires
            self.pool_state() is Some,
        ensures
            r == self.pool_state()->0,
    {
        match self.pool {
            Some(p) => p,
            None => RewardsPool {
                total_funded: 0,
                available_liquidity: 0,
                reward_asset: [0u8; 32],
                initialized: false,
                admin: 0,
            },
        }
    }

    /// The registered milestones.
    pub fn get_milestones_list(&self) -> (r: Vec<Milestone>)
        ensures
            r@ == self.milestone_seq(),
    {
        let mut out: Vec<Milestone> = Vec::new();
        let mut i: usize = 0;
        while i < self.milestones.len()
            invariant
                i <= self.milestones@.len(),
                out@ == self.milestones@.take(i as int),
            decreases self.milestones@.len() - i,
        {
            out.push(self.milestones[i]);
            i += 1;
            assert(out@ =~= self.milestones@.take(i as int));
        }
        assert(self.milestones@.take(i as int) =~= self.milestones@);
        out
    }

    /// The 32-byte id of the milestone with `threshold`.
    pub fn create_milestone_id(threshold: u32) -> (r: [u8; 32])
        ensures
            r@.len() == 32,
            forall|k: int| 0 <= k < 32 ==> r@[k] == milestone_id_byte(threshold, k),
    {
        let tag: [u8; 8] = [109u8, 105u8, 108u8, 101u8, 115u8, 116u8, 111u8, 110u8];
        let mut key = [0u8; 32];
        key[0] = ((threshold >> 24u32) & 0xffu32) as u8;
        key[1] = ((threshold >> 16u32) & 0xffu32) as u8;
        key[2] = ((threshold >> 8u32) & 0xffu32) as u8;
        key[3] = (threshold & 0xffu32) as u8;
        let mut i: usize = 4;
        while i < 32
            invariant
                4 <= i <= 32,
                key@.len() == 32,
                tag@ == seq![109u8, 105u8, 108u8, 101u8, 115u8, 116u8, 111u8, 110u8],
                forall|k: int| 0 <= k < i ==> key@[k] == milestone_id_byte(threshold, k),
            decreases 32 - i,
        {
            key[i] = tag[i % 8];
            i += 1;
        }
        key
    }

    /// Propose `new_admin` as the next admin; only the current admin may.
    pub fn transfer_admin(&mut self, caller: u64, new_admin: u64) -> (r: Result<(), Error>)
        ensures
            ({
                let p = old(self).pool_state()->0;
                &&& old(self).pool_state() is None ==> r == Err::<(), Error>(
                    Error::NotInitialized,
                ) && *final(self) == *old(self)
                &&& old(self).pool_state() is Some && caller != p.admin ==> r == Err::<(), Error>(
                    Error::Unauthorized,
                ) && *final(self) == *old(self)
                &&& old(self).pool_state() is Some && caller == p.admin && new_admin == p.admin
                    ==> r == Err::<(), Error>(Error::CannotTransferToSelf) && *final(self) == *old(self)
                &&& old(self).pool_state() is Some && caller == p.admin && new_admin != p.admin
                    ==> r is Ok && final(self).pending_admin_id() == Some(new_admin) && final(self).pool_state() == old(self).pool_state() && final(self).milestone_seq() == old(self).milestone_seq() && (forall|u: u64|
                    final(self).rewards_of(u) == old(self).rewards_of(u)) && final(self).streaks_contract_id()
                    == old(self).streaks_contract_id() && final(self).permissions() == old(self).permissions()
                    && final(self).config_state() == old(self).config_state()
            }),
            old(self).rewards_wf() ==> final(self).rewards_wf(),
    {
        let pool = match self.pool {
            Some(p) => p,
            None => return Err(Error::NotInitialized),
        };
        if caller != pool.admin {
            return Err(Error::Unauthorized);
        }
        if new_admin == pool.admin {
            return Err(Error::CannotTransferToSelf);
        }
        self.pending_admin = Some(new_admin);
        proof {
            if old(self).rewards_wf() {
                lemma_conserved_frame(*old(self), *self);
            }
        }
        Ok(())
    }

    /// Complete a pending admin transfer; only the proposed admin may.
    pub fn accept_admin(&mut self, caller: u64) -> (r: Result<(), Error>)
        ensures
            ({
                let p = old(self).pool_state()->0;
                let n = old(self).pending_admin_id()->0;
                &&& old(self).pool_state() is None ==> r == Err::<(), Error>(
                    Error::NotInitialized,
                ) && *final(self) == *old(self)
                &&& old(self).pool_state() is Some && old(self).pending_admin_id() is None ==> r
                    == Err::<(), Error>(Error::NoAdminTransferPending) && *final(self) == *old(self)
                &&& old(self).pool_state() is Some && old(self).pending_admin_id() is Some
                    && caller != n ==> r == Err::<(), Error>(Error::Unauthorized) && *final(self)
                    == *old(self)
                &&& old(self).pool_state() is Some && old(self).pending_admin_id() is Some
                    && caller == n ==> r is Ok && final(self).pool_state() == Some(
                    RewardsPool { admin: n, ..p },
                ) && final(self).pending_admin_id() is None && final(self).milestone_seq() == old(self).milestone_seq() && (forall|u: u64|
                    final(self).rewards_of(u) == old(self).rewards_of(u)) && final(self).streaks_contract_id()
                    == old(self).streaks_contract_id() && final(self).permissions() == old(self).permissions()
                    && final(self).config_state() == old(self).config_state()
                &&& old(self).liquidity_wf() ==> final(self).liquidity_wf()
            }),
            old(self).rewards_wf() ==> final(self).rewards_wf(),
    {
        let mut pool = match self.pool {
            Some(p) => p,
            None => return Err(Error::NotInitialized),
        };
        let pending = match self.pending_admin {
            Some(n) => n,
            None => return Err(Error::NoAdminTransferPending),
        };
        if caller != pending {
            return Err(Error::Unauthorized);
        }
        pool.admin = pending;
        self.pool = Some(pool);
        self.pending_admin = None;
        proof {
            if old(self).rewards_wf() {
                lemma_conserved_frame(*old(self), *self);
            }
        }
        Ok(())
    }

    /// Grant the admin role to `admin` at time `now`; only the pool admin may.
    pub fn grant_admin(&mut self, caller: u64, admin: u64, now: u64) -> (r: Result<(), Error>)
        ensures
            old(self).pool_state() is None ==> r == Err::<(), Error>(
                Error::RewardsPoolNotInitialized,
            ) && *final(self) == *old(self),
            old(self).pool_state() is Some && caller != old(self).pool_state()->0.admin ==> r
                == Err::<(), Error>(Error::UnauthorizedAdmin) && *final(self) == *old(self),
            old(self).pool_state() is Some && caller == old(self).pool_state()->0.admin ==> r is Ok
                && final(self).permissions() == old(self).permissions().insert(
                admin,
                Permission { role: Role::Admin, granted_at: now, expires_at: None },
            ) && final(self).pool_state() == old(self).pool_state() && final(self).milestone_seq()
                == old(self).milestone_seq() && (forall|u: u64|
                final(self).rewards_of(u) == old(self).rewards_of(u)) && final(self).streaks_contract_id()
                == old(self).streaks_contract_id() && final(self).pending_admin_id() == old(self).pending_admin_id()
                && final(self).config_state() == old(self).config_state(),
            old(self).rewards_wf() ==> final(self).rewards_wf(),
    {
        let pool = match self.pool {
            Some(p) => p,
            None => return Err(Error::RewardsPoolNotInitialized),
        };
        if caller != pool.admin {
            return Err(Error::UnauthorizedAdmin);
        }
        self.admin_permissions.insert(
            admin,
            Permission { role: Role::Admin, granted_at: now, expires_at: None },
        );
        proof {
            if old(self).rewards_wf() {
                lemma_conserved_frame(*old(self), *self);
            }
        }
        Ok(())
    }

    /// Whether `address` holds the admin role.
    pub fn is_admin(&self, address: u64) -> (r: bool)
        ensures
            r == (self.permissions().contains_key(address) && self.permissions()[address].role
                == Role::Admin),
    {
        match self.admin_permissions.get(&address) {
            Some(p) => p.role == Role::Admin,
            None => false,
        }
    }

    /// Store a new configuration; only holders of the admin role may.
    pub fn set_config(&mut self, caller: u64, config: RewardConfig) -> (r: Result<(), Error>)
        ensures
            !(old(self).permissions().contains_key(caller) && old(self).permissions()[caller].role
                == Role::Admin) ==> r == Err::<(), Error>(Error::PermissionDenied) && *final(self)
                == *old(self),
            (old(self).permissions().contains_key(caller) && old(self).permissions()[caller].role
                == Role::Admin) ==> r is Ok && final(self).config_state() == Some(config) && final(self).pool_state() == old(self).pool_state() && final(self).milestone_seq() == old(self).milestone_seq() && (forall|u: u64|
                final(self).rewards_of(u) == old(self).rewards_of(u)) && final(self).streaks_contract_id()
                == old(self).streaks_contract_id() && final(self).pending_admin_id() == old(self).pending_admin_id()
                && final(self).permissions() == old(self).permissions(),
            old(self).rewards_wf() ==> final(self).rewards_wf(),
    {
        if !self.is_admin(caller) {
            return Err(Error::PermissionDenied);
        }
        self.config = Some(config);
        proof {
            if old(self).rewards_wf() {
                lemma_conserved_frame(*old(self), *self);
            }
        }
        Ok(())
    }

    /// The stored configuration, or the default one.
    pub fn get_config(&self) -> (r: RewardConfig)
        ensures
            r == (match self.config_state() {
                Some(c) => c,
                None => default_config(),
            }),
    {
        match self.config {
            Some(c) => c,
            None => RewardConfig {
                claim_cooldown: 86400,
                max_claim_per_period: 1000,
                period_seconds: 86400,
                streak_bonus_enabled: true,
            },
        }
    }
}

/// The grant over the first `i + 1` milestones is one step after the
/// grant over the first `i`.
proof fn lemma_grant_outcome_step(
    milestones: Seq<Milestone>,
    rewards: Seq<UserReward>,
    liquidity: int,
    streak: u32,
    i: int,
)
    requires
        0 <= i < milestones.len(),
    ensures
        grant_outcome(milestones.take(i + 1), rewards, liquidity, streak) == grant_step(
            grant_outcome(milestones.take(i), rewards, liquidity, streak),
            milestones[i],
            streak,
        ),
{
    assert(milestones.take(i + 1).drop_last() =~= milestones.take(i));
    assert(milestones.take(i + 1).last() == milestones[i]);
}

/// Once the grant fails on a prefix of the milestones, it fails on the
/// whole sequence with the same error.
proof fn lemma_grant_outcome_err_sticks(
    milestones: Seq<Milestone>,
    rewards: Seq<UserReward>,
    liquidity: int,
    streak: u32,
    k: int,
)
    requires
        0 <= k <= milestones.len(),
        grant_outcome(milestones.take(k), rewards, liquidity, streak) is Err,
    ensures
        grant_outcome(milestones, rewards, liquidity, streak) == grant_outcome(
            milestones.take(k),
            rewards,
            liquidity,
            streak,
        ),
    decreases milestones.len() - k,
{
    if k == milestones.len() {
        assert(milestones.take(k) =~= milestones);
    } else {
        assert(milestones.take(k + 1).drop_last() =~= milestones.take(k));
        lemma_grant_outcome_err_sticks(milestones, rewards, liquidity, streak, k + 1);
    }
}

/// No milestone appears twice among `rewards`.
pub open spec fn milestones_distinct(rewards: Seq<UserReward>) -> bool {
    forall|i: int, j: int|
        0 <= i < j < rewards.len() ==> #[trigger] rewards[i].milestone_id != #[trigger] rewards[j].milestone_id
}

/// A grant never drives the pool's liquidity below zero.
pub proof fn law_grant_keeps_liquidity_nonnegative(
    milestones: Seq<Milestone>,
    rewards: Seq<UserReward>,
    liquidity: int,
    streak: u32,
)
    requires
        liquidity >= 0,
    ensures
        grant_outcome(milestones, rewards, liquidity, streak) matches Ok((_, l)) ==> l >= 0,
    decreases milestones.len(),
{
    if milestones.len() > 0 {
        law_grant_keeps_liquidity_nonnegative(milestones.drop_last(), rewards, liquidity, streak);
    }
}

/// A milestone is granted to a user at most once: a grant adds no milestone
/// the user already holds, nor any twice.
pub proof fn law_grant_at_most_once(
    milestones: Seq<Milestone>,
    rewards: Seq<UserReward>,
    liquidity: int,
    streak: u32,
)
    requires
        milestones_distinct(rewards),
    ensures
        grant_outcome(milestones, rewards, liquidity, streak) matches Ok((rs, _))
            ==> milestones_distinct(rs),
    decreases milestones.len(),
{
    if milestones.len() > 0 {
        law_grant_at_most_once(milestones.drop_last(), rewards, liquidity, streak);
        let prev = grant_outcome(milestones.drop_last(), rewards, liquidity, streak);
        let m = milestones.last();
        if let Ok((rs, _l)) = prev {
            if streak >= m.streak_threshold && !has_milestone(rs, m.streak_threshold) {
                let next = rs.push(entitlement(m));
                assert forall|i: int, j: int| 0 <= i < j < next.len() implies #[trigger] next[i].milestone_id
                    != #[trigger] next[j].milestone_id by {
                    if j == rs.len() {
                        if next[i].milestone_id == m.streak_threshold {
                            assert(rs[i].milestone_id == m.streak_threshold);
                            assert(has_milestone(rs, m.streak_threshold));
                        }
                    } else {
                        assert(rs[i].milestone_id != rs[j].milestone_id);
                    }
                }
            }
        }
    }
}

/// After a claim nothing is left unclaimed, and every running sum is zero.
pub proof fn law_claim_clears_pending(rewards: Seq<UserReward>, now: u64)
    ensures
        unclaimed_total(claimed_all(rewards, now)) == 0,
        unclaimed_sums_fit(claimed_all(rewards, now)),
{
    lemma_claimed_prefix_total(rewards, now, rewards.len() as int);
    assert(claimed_all(rewards, now).take(rewards.len() as int) =~= claimed_all(rewards, now));
    assert forall|i: int| 0 <= i <= claimed_all(rewards, now).len() implies i128::MIN
        <= #[trigger] unclaimed_total(claimed_all(rewards, now).take(i)) <= i128::MAX by {
        lemma_claimed_prefix_total(rewards, now, i);
    }
}

/// Every prefix of the claimed entitlements has nothing unclaimed.
proof fn lemma_claimed_prefix_total(rewards: Seq<UserReward>, now: u64, i: int)
    requires
        0 <= i <= rewards.len(),
    ensures
        unclaimed_total(claimed_all(rewards, now).take(i)) == 0,
    decreases i,
{
    let c = claimed_all(rewards, now);
    if i > 0 {
        lemma_claimed_prefix_total(rewards, now, i - 1);
        assert(c.take(i).drop_last() =~= c.take(i - 1));
        assert(c.take(i).last() == c[i - 1]);
    }
}

/// A contract whose entitlements and granted users are those of a balanced
/// one, with the same liquidity gap, is balanced.
proof fn lemma_conserved_frame(a: RewardsContract, b: RewardsContract)
    requires
        a.rewards_wf(),
        forall|u: u64| #[trigger] b.rewards_of(u) == a.rewards_of(u),
        b.granted_users() == a.granted_users(),
        liquidity_gap(b.pool_state()) == liquidity_gap(a.pool_state()),
    ensures
        b.rewards_wf(),
{
    assert(b.rewards_fn() =~= a.rewards_fn());
}

/// A balanced contract stays balanced when only the entitlements of `r`
/// change, `r` joins the granted users if it was not among them, and the
/// liquidity gap falls by what `r` was granted.
proof fn lemma_conserved_after(a: RewardsContract, b: RewardsContract, r: u64)
    requires
        a.rewards_wf(),
        forall|u: u64| u != r ==> #[trigger] b.rewards_of(u) == a.rewards_of(u),
        b.granted_users() == (if a.granted_users().contains(r) {
            a.granted_users()
        } else {
            a.granted_users().push(r)
        }),
        b.rewards_of(r).len() > 0 ==> b.granted_users().contains(r),
        milestones_distinct(b.rewards_of(r)),
        liquidity_gap(b.pool_state()) - liquidity_gap(a.pool_state()) == amount_total(a.rewards_of(r))
            - amount_total(b.rewards_of(r)),
    ensures
        b.rewards_wf(),
{
    let us = a.granted_users();
    let fa = a.rewards_fn();
    let fb = b.rewards_fn();
    assert forall|u: u64| u != r implies #[trigger] fb(u) == fa(u) by {
        assert(b.rewards_of(u) == a.rewards_of(u));
    }
    lemma_sum_update(fa, fb, us, r);
    if !us.contains(r) {
        assert(a.rewards_of(r).len() == 0);
        assert(a.rewards_of(r) =~= Seq::<UserReward>::empty());
        let pushed = us.push(r);
        assert(pushed.drop_last() =~= us);
        assert(pushed.no_duplicates()) by {
            assert forall|i: int, j: int|
                0 <= i < pushed.len() && 0 <= j < pushed.len() && i != j implies pushed[i]
                != pushed[j] by {
                if i < us.len() && j < us.len() {
                    assert(us[i] != us[j]);
                } else if i < us.len() {
                    assert(pushed[i] == us[i]);
                    if us[i] == r {
                        assert(us.contains(r));
                    }
                } else {
                    assert(pushed[j] == us[j]);
                    if us[j] == r {
                        assert(us.contains(r));
                    }
                }
            }
        }
    }
    assert forall|u: u64| milestones_distinct(#[trigger] b.rewards_of(u)) by {
        if u != r {
            assert(b.rewards_of(u) == a.rewards_of(u));
        }
    }
    assert forall|u: u64| #[trigger] b.rewards_of(u).len() > 0 implies b.granted_users().contains(u) by {
        if u != r {
            assert(a.rewards_of(u).len() > 0);
            assert(us.contains(u));
            let i = choose|i: int| 0 <= i < us.len() && us[i] == u;
            assert(b.granted_users()[i] == u);
        }
    }
}

/// Changing the entitlements of `r` alone changes the sum over users
/// listed once by what `r` gained.
proof fn lemma_sum_update(
    fa: spec_fn(u64) -> Seq<UserReward>,
    fb: spec_fn(u64) -> Seq<UserReward>,
    us: Seq<u64>,
    r: u64,
)
    requires
        us.no_duplicates(),
        forall|u: u64| u != r ==> #[trigger] fb(u) == fa(u),
    ensures
        sum_granted(fb, us) == sum_granted(fa, us) + (if us.contains(r) {
            amount_total(fb(r)) - amount_total(fa(r))
        } else {
            0
        }),
    decreases us.len(),
{
    if us.len() > 0 {
        let dl = us.drop_last();
        let n = us.len() - 1;
        assert(dl.no_duplicates()) by {
            assert forall|i: int, j: int|
                0 <= i < dl.len() && 0 <= j < dl.len() && i != j implies dl[i] != dl[j] by {
                assert(us[i] != us[j]);
            }
        }
        lemma_sum_update(fa, fb, dl, r);
        if us[n] == r {
            assert(us.contains(r));
            if dl.contains(r) {
                let i = choose|i: int| 0 <= i < dl.len() && dl[i] == r;
                assert(us[i] == us[n]);
            }
        } else {
            assert(fb(us[n]) == fa(us[n]));
            if us.contains(r) {
                let i = choose|i: int| 0 <= i < us.len() && us[i] == r;
                assert(i != n);
                assert(dl[i] == r);
            }
            if dl.contains(r) {
                let i = choose|i: int| 0 <= i < dl.len() && dl[i] == r;
                assert(us[i] == r);
            }
        }
    }
}

/// What a grant adds to the user's entitlements is exactly what leaves the
/// pool's liquidity.
proof fn lemma_grant_amounts(
    milestones: Seq<Milestone>,
    rewards: Seq<UserReward>,
    liquidity: int,
    streak: u32,
)
    ensures
        grant_outcome(milestones, rewards, liquidity, streak) matches Ok((rs, l)) ==> amount_total(
            rs,
        ) - amount_total(rewards) == liquidity - l && (rs.len() >= rewards.len()),
    decreases milestones.len(),
{
    if milestones.len() > 0 {
        lemma_grant_amounts(milestones.drop_last(), rewards, liquidity, streak);
        let prev = grant_outcome(milestones.drop_last(), rewards, liquidity, streak);
        if let Ok((rs, _l)) = prev {
            let m = milestones.last();
            let next = rs.push(entitlement(m));
            assert(next.drop_last() =~= rs);
        }
    }
}

/// A claim changes no amount and no count of entitlements.
proof fn lemma_claimed_amounts(rewards: Seq<UserReward>, now: u64)
    ensures
        amount_total(claimed_all(rewards, now)) == amount_total(rewards),
        claimed_all(rewards, now).len() == rewards.len(),
    decreases rewards.len(),
{
    if rewards.len() > 0 {
        lemma_claimed_amounts(rewards.drop_last(), now);
        assert(claimed_all(rewards, now).drop_last() =~= claimed_all(rewards.drop_last(), now));
    }
}

/// No user ever holds two entitlements for one milestone.
pub proof fn law_one_reward_per_milestone(c: &RewardsContract, user: u64)
    requires
        c.rewards_wf(),
    ensures
        milestones_distinct(c.rewards_of(user)),
{
}

/// The pool's books balance: its available liquidity plus the amounts of
/// every entitlement ever granted to any user, claimed or not, equals the
/// total funded; and no liquidity is negative.
pub proof fn law_rewards_conserved(c: &RewardsContract)
    requires
        c.rewards_wf(),
        c.liquidity_wf(),
        c.pool_state() is Some,
    ensures
        c.pool_state()->0.available_liquidity + c.granted_total() == c.pool_state()->0.total_funded,
        c.pool_state()->0.available_liquidity >= 0,
{
}

} // verus!

verus! {

/// The streak bonus, in basis points of the base reward: 100 below a week,
/// 110 from 7 to 29 days, 125 from 30 to 99, 150 from 100 to 364 and 200
/// from a year on; it never falls as the streak grows.
pub proof fn law_streak_bonus_tiers(streak: u32, longer: u32)
    ensures
        streak <= 6 ==> streak_bonus_bps(streak) == 100,
        7 <= streak <= 29 ==> streak_bonus_bps(streak) == 110,
        30 <= streak <= 99 ==> streak_bonus_bps(streak) == 125,
        100 <= streak <= 364 ==> streak_bonus_bps(streak) == 150,
        365 <= streak ==> streak_bonus_bps(streak) == 200,
        streak <= longer ==> streak_bonus_bps(streak) <= streak_bonus_bps(longer),
{
}

} // verus!
