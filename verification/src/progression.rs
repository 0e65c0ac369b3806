//! Deposits that build streaks and earn milestone rewards.
//!
//! A deposit into a vault linked to the streaks contract records the
//! owner's activity for the day; when the rewards contract is linked too,
//! the owner is then granted every milestone the new streak reaches. The
//! three steps succeed or fail together: a rejected activity (such as a
//! second deposit on the same UTC day) or a grant the pool cannot pay makes
//! the whole deposit fail and leaves every contract unchanged.
use vstd::prelude::*;
use crate::errors::Error;
use crate::rewards::RewardsContract;
use crate::streaks::{continues_streak, days_from, StreaksContract};
use crate::utils::{day_start, DAY_SECONDS};
use crate::types::{Milestone, Permission, RewardsPool, UserReward, UserStreak};
use crate::vault::VaultContract;
use crate::vault_id::VaultId;

verus! {

/// The savings vault together with the streaks and rewards contracts it
/// reports deposits to.
pub struct Protocol {
    pub vault: VaultContract,
    pub streaks: StreaksContract,
    pub rewards: RewardsContract,
    /// The account the vault contract acts as towards the streaks contract.
    pub vault_account: u64,
}

impl Protocol {
    /// Fresh contracts; the vault acts as `vault_account`.
    pub fn new(vault_account: u64) -> (r: Self)
        ensures
            r.vault_account == vault_account,
            r.vault.vaults() == Seq::<crate::vault::VaultRecord>::empty(),
            forall|u: u64| r.vault.vaults_of(u) == Seq::<u64>::empty(),
            r.vault.config_state() is None,
            r.vault.admin_id() is None,
            r.vault.pending_admin_id() is None,
            r.vault.linked() == (None::<u64>, None::<u64>),
            r.vault.balances_nonnegative(),
            !r.streaks.storage().initialized(),
            r.streaks.storage().streak_map() == Map::<u64, UserStreak>::empty(),
            forall|u: u64| r.streaks.storage().history(u) == Seq::<u64>::empty(),
            r.streaks.board_entries() == Seq::<(u64, u32)>::empty(),
            r.streaks.wf(),
            r.rewards.pool_state() is None,
            r.rewards.milestone_seq() == Seq::<Milestone>::empty(),
            forall|u: u64| r.rewards.rewards_of(u) == Seq::<UserReward>::empty(),
            r.rewards.streaks_contract_id() is None,
            r.rewards.pending_admin_id() is None,
            r.rewards.permissions() == Map::<u64, Permission>::empty(),
            r.rewards.config_state() is None,
            r.rewards.rewards_wf(),
    {
        Protocol {
            vault: VaultContract::new(),
            streaks: StreaksContract::new(),
            rewards: RewardsContract::new(),
            vault_account,
        }
    }

    /// Have the linked streaks contract authorize the vault's account, the
    /// vault itself making the request; `NotInitialized` when the vault has
    /// no streaks contract linked.
    pub fn register_with_streaks(&mut self) -> (r: Result<(), Error>)
        ensures
            old(self).vault.linked().0 is None ==> r == Err::<(), Error>(Error::NotInitialized)
                && *final(self) == *old(self),
            old(self).vault.linked().0 is Some && !old(self).streaks.authorized(
                old(self).vault_account,
            ) ==> r == Err::<(), Error>(Error::Unauthorized) && *final(self) == *old(self),
            old(self).vault.linked().0 is Some && old(self).streaks.authorized(
                old(self).vault_account,
            ) ==> r is Ok && *final(self) == *old(self),
    {
        if self.vault.streaks_contract().is_none() {
            return Err(Error::NotInitialized);
        }
        self.streaks.add_authorized_caller(self.vault_account, self.vault_account)
    }

    /// The error a deposit of `amount` into vault `id` at `now` answers, if
    /// any: the vault's own, then the streak update's, then the grant's.
    pub open spec fn deposit_error(&self, id: Seq<u8>, amount: i128, now: u64) -> Option<Error> {
        match self.vault.deposit_result(id, amount, now) {
            Err(e) => Some(e),
            Ok(rec) => {
                let owner = rec.metadata.owner;
                if self.vault.linked().0 is None {
                    None
                } else {
                    match self.streaks.update_error(self.vault_account, owner, now) {
                        Some(e) => Some(e),
                        None => if self.vault.linked().1 is None {
                            None
                        } else {
                            match self.rewards.grant_result(
                                owner,
                                self.streaks.streak_after_update(owner, now).current_streak,
                            ) {
                                Err(e) => Some(e),
                                Ok(_) => None,
                            }
                        },
                    }
                }
            },
        }
    }

    /// `after` is what a successful deposit of `amount` into vault `id` at
    /// `now` leaves of `self`: the vault's record is credited; when the
    /// streaks contract is linked, the owner's streak, history and leaderboard
    /// entry are updated and nothing else there changes; when the rewards
    /// contract is linked too, the owner is granted what the new streak
    /// reaches, the pool pays for it, and nothing else there changes.
    pub open spec fn deposit_applied(&self, after: Self, id: Seq<u8>, amount: i128, now: u64) -> bool {
        let rec = self.vault.deposit_result(id, amount, now)->Ok_0;
        let owner = rec.metadata.owner;
        let streak = self.streaks.streak_after_update(owner, now);
        let grant = self.rewards.grant_result(owner, streak.current_streak);
        let pool = self.rewards.pool_state()->0;
        &&& self.vault.same_but_record(&after.vault, self.vault.index_of(id), rec)
        &&& after.vault_account == self.vault_account
        &&& self.vault.linked().0 is None ==> after.streaks == self.streaks && after.rewards
            == self.rewards
        &&& self.vault.linked().0 is Some ==> {
            &&& after.streaks.storage().streak_map() == self.streaks.storage().streak_map().insert(
                owner,
                streak,
            )
            &&& after.streaks.storage().history(owner) == self.streaks.history_after_update(
                owner,
                now,
            )
            &&& forall|u: u64|
                u != owner ==> #[trigger] after.streaks.storage().history(u)
                    == self.streaks.storage().history(u)
            &&& after.streaks.storage().initialized() == self.streaks.storage().initialized()
            &&& after.streaks.storage().callers() == self.streaks.storage().callers()
            &&& after.streaks.board_entries() == self.streaks.board_after_update(owner, now)
            &&& self.streaks.wf() ==> after.streaks.wf()
        }
        &&& self.vault.linked().0 is Some && self.vault.linked().1 is None ==> after.rewards
            == self.rewards
        &&& self.vault.linked().0 is Some && self.vault.linked().1 is Some ==> {
            &&& after.rewards.rewards_of(owner) == grant->Ok_0.0
            &&& forall|u: u64|
                u != owner ==> #[trigger] after.rewards.rewards_of(u) == self.rewards.rewards_of(u)
            &&& after.rewards.pool_state() == Some(
                RewardsPool { available_liquidity: grant->Ok_0.1 as i128, ..pool },
            )
            &&& after.rewards.milestone_seq() == self.rewards.milestone_seq()
            &&& after.rewards.streaks_contract_id() == self.rewards.streaks_contract_id()
            &&& after.rewards.pending_admin_id() == self.rewards.pending_admin_id()
            &&& after.rewards.permissions() == self.rewards.permissions()
            &&& after.rewards.config_state() == self.rewards.config_state()
        }
    }

    /// Deposit `amount` into vault `vault_id` at `now`, record the owner's
    /// activity and grant the milestones the new streak reaches; all or
    /// nothing.
    #[verifier::rlimit(30)]
    pub fn deposit(&mut self, vault_id: &VaultId, amount: i128, now: u64) -> (r: Result<(), Error>)
        ensures
            old(self).vault.balances_nonnegative() ==> final(self).vault.balances_nonnegative(),
            old(self).rewards.rewards_wf() ==> final(self).rewards.rewards_wf(),
            old(self).deposit_error(vault_id.0@, amount, now) matches Some(e) ==> r == Err::<
                (),
                Error,
            >(e) && *final(self) == *old(self),
            old(self).deposit_error(vault_id.0@, amount, now) is None ==> r is Ok && old(self).deposit_applied(*final(self), vault_id.0@, amount, now),
    {
        if let Err(e) = self.vault.check_deposit(vault_id, amount, now) {
            return Err(e);
        }
        let owner = match self.vault.get_vault(vault_id) {
            Ok(m) => m.owner,
            Err(e) => return Err(e),
        };
        let linked_streaks = self.vault.streaks_contract().is_some();
        let linked_rewards = self.vault.rewards_contract().is_some();
        if linked_streaks {
            if let Err(e) = self.streaks.check_update(self.vault_account, owner, now) {
                return Err(e);
            }
            if linked_rewards {
                let next = self.streaks.streak_preview(owner, now);
                if let Err(e) = self.rewards.check_grant(owner, next) {
                    return Err(e);
                }
            }
        }
        if let Err(e) = self.vault.deposit(vault_id, amount, now) {
            return Err(e);
        }
        if linked_streaks {
            if let Err(e) = self.streaks.update_streak(self.vault_account, owner, now) {
                return Err(e);
            }
            let streak_count = self.streaks.get_streak(owner);
            if linked_rewards {
                if let Err(e) = self.rewards.grant_reward(owner, streak_count) {
                    return Err(e);
                }
            }
        }
        Ok(())
    }
}

/// A deposit on the UTC day after a successful one goes through and
/// continues the owner's streak by one, provided the vault takes the amount,
/// the owner has no activity recorded for that day yet, the streak can still
/// grow, and (with rewards linked) the pool can pay what the longer streak
/// reaches.
pub proof fn law_next_day_deposit_continues(
    p: Protocol,
    q: Protocol,
    id: Seq<u8>,
    amount: i128,
    next_amount: i128,
    now: u64,
)
    requires
        p.deposit_error(id, amount, now) is None,
        p.deposit_applied(q, id, amount, now),
        p.vault.linked().0 is Some,
        now + DAY_SECONDS <= u64::MAX,
        q.vault.deposit_result(id, next_amount, (now + DAY_SECONDS) as u64) is Ok,
        ({
            let owner = p.vault.deposit_result(id, amount, now)->Ok_0.metadata.owner;
            let streak = p.streaks.streak_after_update(owner, now);
            &&& !p.streaks.storage().history(owner).contains(
                (day_start(now as int) + DAY_SECONDS) as u64,
            )
            &&& streak.current_streak < u32::MAX
            &&& p.vault.linked().1 is Some ==> q.rewards.grant_result(
                owner,
                (streak.current_streak + 1) as u32,
            ) is Ok
        }),
    ensures
        q.deposit_error(id, next_amount, (now + DAY_SECONDS) as u64) is None,
        ({
            let owner = p.vault.deposit_result(id, amount, now)->Ok_0.metadata.owner;
            &&& q.vault.deposit_result(id, next_amount, (now + DAY_SECONDS) as u64)->Ok_0.metadata.owner
                == owner
            &&& q.streaks.streak_after_update(owner, (now + DAY_SECONDS) as u64).current_streak
                == p.streaks.streak_after_update(owner, now).current_streak + 1
        }),
{
    let rec = p.vault.deposit_result(id, amount, now)->Ok_0;
    let owner = rec.metadata.owner;
    let next = (now + DAY_SECONDS) as u64;
    let period = day_start(now as int) as u64;
    let next_period = day_start(next as int) as u64;
    lemma_next_day_start(now);
    assert(next_period == period + DAY_SECONDS);
    // The vault keeps the credited record at its place.
    assert(q.vault.vaults() == p.vault.vaults().update(p.vault.index_of(id), rec));
    assert(q.vault.index_of(id) == p.vault.index_of(id));
    assert(q.vault.vault(id) == rec);
    // The streaks contract still authorizes the vault and holds the streak.
    let s1 = p.streaks.streak_after_update(owner, now);
    assert(q.streaks.storage().streak_map().contains_key(owner));
    assert(q.streaks.storage().streak_map()[owner] == s1);
    assert(s1.last_activity_period == period);
    assert(days_from(period, next_period) == 1) by {
        assert((next_period - period) as int / DAY_SECONDS as int == 1);
    }
    assert(continues_streak(s1, next_period));
    assert(!q.streaks.storage().history(owner).contains(next_period)) by {
        let h = p.streaks.storage().history(owner);
        if p.streaks.storage().streak_map().contains_key(owner) {
            assert(q.streaks.storage().history(owner) == h.push(period));
            if h.push(period).contains(next_period) {
                let i = choose|i: int| 0 <= i < h.push(period).len() && h.push(period)[i] == next_period;
                if i < h.len() {
                    assert(h[i] == next_period);
                }
            }
        } else {
            assert(q.streaks.storage().history(owner) == seq![period]);
            if seq![period].contains(next_period) {
                let i = choose|i: int| 0 <= i < seq![period].len() && seq![period][i] == next_period;
                assert(seq![period][i] == period);
            }
        }
    }
}

/// The UTC day after the one holding `now` starts one day later.
proof fn lemma_next_day_start(now: u64)
    requires
        now + DAY_SECONDS <= u64::MAX,
    ensures
        day_start(now + DAY_SECONDS) == day_start(now as int) + DAY_SECONDS,
        day_start(now as int) <= now,
        0 <= day_start(now as int),
{
    let d = DAY_SECONDS as int;
    let n = now as int;
    assert((n + d) / d == n / d + 1) by (nonlinear_arith)
        requires
            d == 86400,
            n >= 0,
    {
        vstd::arithmetic::div_mod::lemma_fundamental_div_mod(n, d);
        vstd::arithmetic::div_mod::lemma_fundamental_div_mod(n + d, d);
    }
    assert(0 <= (n / d) * d <= n) by (nonlinear_arith)
        requires
            d == 86400,
            n >= 0,
    ;
}

} // verus!
