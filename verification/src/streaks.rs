//! Daily deposit streaks.
//!
//! Behavioural rules:
//! - consecutive UTC day: the streak grows by one;
//! - exactly one missed day with a freeze left: a freeze is consumed and the
//!   streak grows by one;
//! - one missed day without a freeze, or two or more missed days: the streak
//!   restarts at one;
//! - a second activity in the same UTC day is rejected with
//!   `Error::DuplicateActivity`.
use std::collections::HashMap;
use vstd::prelude::*;
use crate::errors::Error;
use crate::types::UserStreak;
use crate::utils::{day_start, StreakTimeHelper, DAY_SECONDS};

verus! {

broadcast use vstd::std_specs::hash::group_hash_axioms;

/// Freezes granted to every new streak.
pub const INITIAL_FREEZES: u32 = 3;

/// Upper bound on the freezes a user may hold.
pub const MAX_FREEZES: u32 = 10;

/// A streak is active while its last activity lies at most this many
/// seconds in the past (48 hours).
pub const ACTIVE_WINDOW_SECONDS: u64 = 172_800;

/// Whole days from `start` to `end`, zero when `end` is not after `start`.
pub open spec fn days_from(start: u64, end: u64) -> int {
    if end <= start {
        0
    } else {
        (end - start) as int / DAY_SECONDS as int
    }
}

/// The streak a user starts with on the UTC day `period`.
pub open spec fn fresh_streak(period: u64) -> UserStreak {
    UserStreak {
        current_streak: 1,
        longest_streak: 1,
        last_activity_period: period,
        available_freezes: INITIAL_FREEZES,
    }
}

/// Whether activity on day `period` continues the streak `s` (the next day,
/// or the day after with a freeze to spend).
pub open spec fn continues_streak(s: UserStreak, period: u64) -> bool {
    days_from(s.last_activity_period, period) == 1 || (days_from(s.last_activity_period, period)
        == 2 && s.available_freezes > 0)
}

/// Whether activity on day `period` spends a freeze.
pub open spec fn spends_freeze(s: UserStreak, period: u64) -> bool {
    days_from(s.last_activity_period, period) == 2 && s.available_freezes > 0
}

/// The streak after activity on day `period`, for a streak that can grow
/// without overflow.
pub open spec fn streak_after_activity(s: UserStreak, period: u64) -> UserStreak {
    if continues_streak(s, period) {
        let c = (s.current_streak + 1) as u32;
        UserStreak {
            current_streak: c,
            longest_streak: if c > s.longest_streak { c } else { s.longest_streak },
            last_activity_period: period,
            available_freezes: if spends_freeze(s, period) {
                (s.available_freezes - 1) as u32
            } else {
                s.available_freezes
            },
        }
    } else {
        UserStreak { current_streak: 1, last_activity_period: period, ..s }
    }
}

/// A stored streak is well formed: it counts at least one day, never exceeds
/// the longest streak, and holds no more than the freeze cap.
pub open spec fn streak_wf(s: UserStreak) -> bool {
    1 <= s.current_streak <= s.longest_streak && s.available_freezes <= MAX_FREEZES
}

/// Index of the first entry of `board` that belongs to `user`, or -1.
pub open spec fn board_index(board: Seq<(u64, u32)>, user: u64) -> int
    decreases board.len(),
{
    if board.len() == 0 {
        -1
    } else {
        let i = board_index(board.drop_last(), user);
        if i >= 0 {
            i
        } else if board.last().0 == user {
            board.len() - 1
        } else {
            -1
        }
    }
}

/// The leaderboard after recording `streak` for `user`: the user's entry is
/// replaced, or appended when the user has none.
pub open spec fn board_updated(board: Seq<(u64, u32)>, user: u64, streak: u32) -> Seq<(u64, u32)> {
    let i = board_index(board, user);
    if i >= 0 {
        board.update(i, (user, streak))
    } else {
        board.push((user, streak))
    }
}

proof fn lemma_board_index_bounds(board: Seq<(u64, u32)>, user: u64)
    ensures
        -1 <= board_index(board, user) < board.len(),
        board_index(board, user) >= 0 ==> board[board_index(board, user)].0 == user,
    decreases board.len(),
{
    if board.len() > 0 {
        lemma_board_index_bounds(board.drop_last(), user);
    }
}

/// Persistent streak storage: the authorized callers, every user's streak,
/// and every user's activity history (UTC day periods).
pub struct State {
    authorized_callers: Option<Vec<u64>>,
    streaks: HashMap<u64, UserStreak>,
    activity: HashMap<u64, Vec<u64>>,
}

impl State {
    /// Whether the authorized-callers list has been set.
    pub closed spec fn initialized(&self) -> bool {
        self.authorized_callers is Some
    }

    /// The authorized callers (empty before initialization).
    pub closed spec fn callers(&self) -> Seq<u64> {
        match self.authorized_callers {
            Some(v) => v@,
            None => Seq::empty(),
        }
    }

    /// Every user's streak.
    pub closed spec fn streak_map(&self) -> Map<u64, UserStreak> {
        self.streaks@
    }

    /// A user's activity history (empty when none was stored).
    pub closed spec fn history(&self, user: u64) -> Seq<u64> {
        if self.activity@.contains_key(user) {
            self.activity@[user]@
        } else {
            Seq::empty()
        }
    }

    /// Empty storage.
    pub fn new() -> (r: Self)
        ensures
            !r.initialized(),
            r.callers() == Seq::<u64>::empty(),
            r.streak_map() == Map::<u64, UserStreak>::empty(),
            forall|u: u64| r.history(u) == Seq::<u64>::empty(),
    {
        State { authorized_callers: None, streaks: HashMap::new(), activity: HashMap::new() }
    }

    pub fn is_initialized(&self) -> (r: bool)
        ensures
            r == self.initialized(),
    {
        self.authorized_callers.is_some()
    }

    /// The authorized callers, or `NotInitialized`.
    pub fn get_authorized_callers(&self) -> (r: Result<Vec<u64>, Error>)
        ensures
            self.initialized() ==> (r matches Ok(v) && v@ == self.callers()),
            !self.initialized() ==> r == Err::<Vec<u64>, Error>(Error::NotInitialized),
    {
        match &self.authorized_callers {
            Some(v) => Ok(v.clone()),
            None => Err(Error::NotInitialized),
        }
    }

    pub fn set_authorized_callers(&mut self, callers: Vec<u64>)
        ensures
            final(self).initialized(),
            final(self).callers() == callers@,
            final(self).streak_map() == old(self).streak_map(),
            forall|u: u64| final(self).history(u) == old(self).history(u),
    {
        self.authorized_callers = Some(callers);
    }

    pub fn streak_exists(&self, user: u64) -> (r: bool)
        ensures
            r == self.streak_map().contains_key(user),
    {
        self.streaks.contains_key(&user)
    }

    /// The user's streak, or `StreakNotFound`.
    pub fn get_streak(&self, user: u64) -> (r: Result<UserStreak, Error>)
        ensures
            self.streak_map().contains_key(user) ==> r == Ok::<UserStreak, Error>(
                self.streak_map()[user],
            ),
            !self.streak_map().contains_key(user) ==> r == Err::<UserStreak, Error>(
                Error::StreakNotFound,
            ),
    {
        match self.streaks.get(&user) {
            Some(s) => Ok(*s),
            None => Err(Error::StreakNotFound),
        }
    }

    pub fn set_streak(&mut self, user: u64, streak: UserStreak)
        ensures
            final(self).streak_map() == old(self).streak_map().insert(user, streak),
            final(self).initialized() == old(self).initialized(),
            final(self).callers() == old(self).callers(),
            forall|u: u64| final(self).history(u) == old(self).history(u),
    {
        self.streaks.insert(user, streak);
    }

    /// The user's activity history (empty when none was stored).
    pub fn get_activity_history(&self, user: u64) -> (r: Result<Vec<u64>, Error>)
        ensures
            r matches Ok(v) && v@ == self.history(user),
    {
        match self.activity.get(&user) {
            Some(v) => Ok(v.clone()),
            None => Ok(Vec::new()),
        }
    }

    pub fn set_activity_history(&mut self, user: u64, history: Vec<u64>)
        ensures
            final(self).history(user) == history@,
            forall|u: u64| u != user ==> final(self).history(u) == old(self).history(u),
            final(self).streak_map() == old(self).streak_map(),
            final(self).initialized() == old(self).initialized(),
            final(self).callers() == old(self).callers(),
    {
        self.activity.insert(user, history);
    }
}

/// Activity history checks.
pub struct Activity;

impl Activity {
    /// Append `period` to the user's activity history.
    pub fn record(state: &mut State, user: u64, period: u64)
        ensures
            final(state).history(user) == old(state).history(user).push(period),
            forall|u: u64| u != user ==> final(state).history(u) == old(state).history(u),
            final(state).streak_map() == old(state).streak_map(),
            final(state).initialized() == old(state).initialized(),
            final(state).callers() == old(state).callers(),
    {
        let mut history = match state.get_activity_history(user) {
            Ok(h) => h,
            Err(_) => Vec::new(),
        };
        history.push(period);
        state.set_activity_history(user, history);
    }

    /// Whether the user already has activity recorded for `period`.
    pub fn has_activity_in_period(state: &State, user: u64, period: u64) -> (r: bool)
        ensures
            r == state.history(user).contains(period),
    {
        let history = match state.get_activity_history(user) {
            Ok(h) => h,
            Err(_) => Vec::new(),
        };
        let mut i: usize = 0;
        while i < history.len()
            invariant
                i <= history@.len(),
                history@ == state.history(user),
                forall|j: int| 0 <= j < i ==> history@[j] != period,
            decreases history@.len() - i,
        {
            if history[i] == period {
                return true;
            }
            i += 1;
        }
        false
    }

    /// `DuplicateActivity` when the user already has activity for `period`.
    pub fn reject_duplicate(state: &State, user: u64, period: u64) -> (r: Result<(), Error>)
        ensures
            state.history(user).contains(period) ==> r == Err::<(), Error>(
                Error::DuplicateActivity,
            ),
            !state.history(user).contains(period) ==> r is Ok,
    {
        if Self::has_activity_in_period(state, user, period) {
            return Err(Error::DuplicateActivity);
        }
        Ok(())
    }
}

/// Caller checks of the streak contract.
pub struct Authorization;

impl Authorization {
    /// `Ok` exactly when the contract is initialized and `caller` is one of
    /// its authorized callers; `Unauthorized` otherwise.
    pub fn require_vault_authorization(state: &State, caller: u64) -> (r: Result<(), Error>)
        ensures
            r is Ok <==> (state.initialized() && state.callers().contains(caller)),
            r is Err ==> r == Err::<(), Error>(Error::Unauthorized),
    {
        match &state.authorized_callers {
            Some(callers) => {
                if vec_contains(callers, caller) {
                    Ok(())
                } else {
                    Err(Error::Unauthorized)
                }
            },
            None => Err(Error::Unauthorized),
        }
    }

    /// `NotInitialized` before the authorized callers were set.
    pub fn ensure_initialized(state: &State) -> (r: Result<(), Error>)
        ensures
            r is Ok <==> state.initialized(),
            r is Err ==> r == Err::<(), Error>(Error::NotInitialized),
    {
        if !state.is_initialized() {
            return Err(Error::NotInitialized);
        }
        Ok(())
    }
}

/// Whether `v` holds `x`.
pub fn vec_contains(v: &Vec<u64>, x: u64) -> (r: bool)
    ensures
        r == v@.contains(x),
{
    let mut i: usize = 0;
    while i < v.len()
        invariant
            i <= v@.len(),
            forall|j: int| 0 <= j < i ==> v@[j] != x,
        decreases v@.len() - i,
    {
        if v[i] == x {
            return true;
        }
        i += 1;
    }
    false
}

/// Current streak of every user who recorded activity, one entry per user.
pub struct Leaderboard {
    board: Vec<(u64, u32)>,
}

impl Leaderboard {
    /// The entries in order of first appearance.
    pub closed spec fn entries(&self) -> Seq<(u64, u32)> {
        self.board@
    }

    pub fn new() -> (r: Self)
        ensures
            r.entries() == Seq::<(u64, u32)>::empty(),
    {
        Leaderboard { board: Vec::new() }
    }

    /// The current entries.
    pub fn get_leaderboard(&self) -> (r: Result<Vec<(u64, u32)>, Error>)
        ensures
            r matches Ok(v) && v@ == self.entries(),
    {
        let mut out: Vec<(u64, u32)> = Vec::new();
        let mut i: usize = 0;
        while i < self.board.len()
            invariant
                i <= self.board@.len(),
                out@ == self.board@.take(i as int),
            decreases self.board@.len() - i,
        {
            out.push(self.board[i]);
            i += 1;
            assert(out@ =~= self.board@.take(i as int));
        }
        assert(self.board@.take(i as int) =~= self.board@);
        Ok(out)
    }

    /// Record `streak` as the user's current streak.
    pub fn update_leaderboard(&mut self, user: u64, streak: u32) -> (r: Result<(), Error>)
        ensures
            r is Ok,
            final(self).entries() == board_updated(old(self).entries(), user, streak),
    {
        let ghost old_board = self.board@;
        proof {
            lemma_board_index_bounds(old_board, user);
        }
        let mut i: usize = 0;
        let mut found = false;
        while i < self.board.len() && !found
            invariant
                self.board@ == old_board,
                i <= old_board.len(),
                found ==> i < old_board.len() && board_index(old_board, user) == i as int,
                !found ==> board_index(old_board.take(i as int), user) == -1,
            decreases old_board.len() - i + (if found { 0int } else { 1int }),
        {
            assert(old_board.take(i + 1).drop_last() =~= old_board.take(i as int));
            if self.board[i].0 == user {
                proof {
                    lemma_board_index_prefix(old_board, user, i as int);
                }
                found = true;
            } else {
                i += 1;
            }
        }
        if found {
            self.board.set(i, (user, streak));
        } else {
            assert(old_board.take(old_board.len() as int) =~= old_board);
            self.board.push((user, streak));
        }
        Ok(())
    }
}

/// If no entry before `i` belongs to `user` but entry `i` does, then `i` is
/// the user's index.
proof fn lemma_board_index_prefix(board: Seq<(u64, u32)>, user: u64, i: int)
    requires
        0 <= i < board.len(),
        board_index(board.take(i), user) == -1,
        board[i].0 == user,
    ensures
        board_index(board, user) == i,
    decreases board.len(),
{
    if i == board.len() - 1 {
        assert(board.drop_last() =~= board.take(i));
    } else {
        assert(board.drop_last().take(i) =~= board.take(i));
        lemma_board_index_prefix(board.drop_last(), user, i);
    }
}

/// The streak contract: storage plus the leaderboard.
pub struct StreaksContract {
    state: State,
    leaderboard: Leaderboard,
}

impl StreaksContract {
    /// The contract's stored streaks, histories and authorized callers.
    pub closed spec fn storage(&self) -> State {
        self.state
    }

    /// The leaderboard entries.
    pub closed spec fn board_entries(&self) -> Seq<(u64, u32)> {
        self.leaderboard.entries()
    }

    /// The leaderboard: each user's current streak, in order of first
    /// activity.
    pub fn get_leaderboard(&self) -> (r: Result<Vec<(u64, u32)>, Error>)
        ensures
            r matches Ok(v) && v@ == self.board_entries(),
    {
        self.leaderboard.get_leaderboard()
    }
}

impl StreaksContract {
    /// Whether `caller` may drive vault-triggered operations.
    pub open spec fn authorized(&self, caller: u64) -> bool {
        self.storage().initialized() && self.storage().callers().contains(caller)
    }

    /// Every stored streak is well formed.
    pub open spec fn wf(&self) -> bool {
        forall|u: u64| #[trigger]
            self.storage().streak_map().contains_key(u) ==> streak_wf(self.storage().streak_map()[u])
    }

    /// The error `update_streak` answers for `caller` recording activity of
    /// `user` at `now`, if any.
    pub open spec fn update_error(&self, caller: u64, user: u64, now: u64) -> Option<Error> {
        let period = day_start(now as int) as u64;
        let s = self.storage().streak_map()[user];
        if !self.authorized(caller) {
            Some(Error::Unauthorized)
        } else if !self.storage().streak_map().contains_key(user) {
            None
        } else if self.storage().history(user).contains(period) {
            Some(Error::DuplicateActivity)
        } else if continues_streak(s, period) && s.current_streak == u32::MAX {
            Some(Error::Overflow)
        } else {
            None
        }
    }

    /// The user's streak after activity recorded at `now`.
    pub open spec fn streak_after_update(&self, user: u64, now: u64) -> UserStreak {
        let period = day_start(now as int) as u64;
        if self.storage().streak_map().contains_key(user) {
            streak_after_activity(self.storage().streak_map()[user], period)
        } else {
            fresh_streak(period)
        }
    }

    /// The leaderboard after activity of `user` recorded at `now`: a user's
    /// first activity leaves it as it is; later activity records the new
    /// streak.
    pub open spec fn board_after_update(&self, user: u64, now: u64) -> Seq<(u64, u32)> {
        if self.storage().streak_map().contains_key(user) {
            board_updated(
                self.board_entries(),
                user,
                self.streak_after_update(user, now).current_streak,
            )
        } else {
            self.board_entries()
        }
    }

    /// The user's activity history after activity recorded at `now`.
    pub open spec fn history_after_update(&self, user: u64, now: u64) -> Seq<u64> {
        let period = day_start(now as int) as u64;
        if self.storage().streak_map().contains_key(user) {
            self.storage().history(user).push(period)
        } else {
            seq![period]
        }
    }

    /// Whether `update_streak` would succeed, and its error if not; nothing
    /// is changed.
    pub fn check_update(&self, caller: u64, user: u64, now: u64) -> (r: Result<(), Error>)
        ensures
            match self.update_error(caller, user, now) {
                Some(e) => r == Err::<(), Error>(e),
                None => r is Ok,
            },
    {
        if let Err(e) = Authorization::require_vault_authorization(&self.state, caller) {
            return Err(e);
        }
        let current_period = StreakTimeHelper::get_current_period(now);
        let streak = match self.state.get_streak(user) {
            Ok(s) => s,
            Err(_) => return Ok(()),
        };
        if let Err(e) = Activity::reject_duplicate(&self.state, user, current_period) {
            return Err(e);
        }
        let days_since_last = StreakTimeHelper::days_between(
            streak.last_activity_period,
            current_period,
        );
        if (days_since_last == 1 || (days_since_last == 2 && streak.available_freezes > 0))
            && streak.current_streak == u32::MAX {
            return Err(Error::Overflow);
        }
        Ok(())
    }

    /// The user's current streak once activity at `now` is recorded, as
    /// long as that does not overflow; nothing is changed.
    pub fn streak_preview(&self, user: u64, now: u64) -> (r: u32)
        requires
            self.storage().streak_map().contains_key(user) ==> !(continues_streak(
                self.storage().streak_map()[user],
                day_start(now as int) as u64,
            ) && self.storage().streak_map()[user].current_streak == u32::MAX),
        ensures
            r == self.streak_after_update(user, now).current_streak,
    {
        let current_period = StreakTimeHelper::get_current_period(now);
        let streak = match self.state.get_streak(user) {
            Ok(s) => s,
            Err(_) => return 1,
        };
        let days_since_last = StreakTimeHelper::days_between(
            streak.last_activity_period,
            current_period,
        );
        if days_since_last == 1 || (days_since_last == 2 && streak.available_freezes > 0) {
            streak.current_streak + 1
        } else {
            1
        }
    }

    /// A contract that has not been initialized.
    pub fn new() -> (r: Self)
        ensures
            !r.storage().initialized(),
            r.storage().streak_map() == Map::<u64, UserStreak>::empty(),
            forall|u: u64| r.storage().history(u) == Seq::<u64>::empty(),
            r.board_entries() == Seq::<(u64, u32)>::empty(),
            r.wf(),
    {
        StreaksContract { state: State::new(), leaderboard: Leaderboard::new() }
    }

    /// Initialize with `vault_contract` as the only authorized caller; fails
    /// with `AlreadyInitialized` on any later call.
    pub fn initialize(&mut self, vault_contract: u64) -> (r: Result<(), Error>)
        ensures
            old(self).storage().initialized() ==> r == Err::<(), Error>(Error::AlreadyInitialized)
                && *final(self) == *old(self),
            !old(self).storage().initialized() ==> r is Ok && final(self).storage().initialized()
                && final(self).storage().callers() == seq![vault_contract]
                && final(self).storage().streak_map() == old(self).storage().streak_map()
                && (forall|u: u64| final(self).storage().history(u) == old(self).storage().history(u))
                && final(self).board_entries() == old(self).board_entries(),
    {
        if self.state.is_initialized() {
            return Err(Error::AlreadyInitialized);
        }
        let mut authorized = Vec::new();
        authorized.push(vault_contract);
        self.state.set_authorized_callers(authorized);
        Ok(())
    }

    /// Add `new_caller` to the authorized callers (no change when present).
    pub fn add_authorized_caller(&mut self, caller: u64, new_caller: u64) -> (r: Result<(), Error>)
        ensures
            !old(self).authorized(caller) ==> r == Err::<(), Error>(Error::Unauthorized)
                && *final(self) == *old(self),
            old(self).authorized(caller) && old(self).storage().callers().contains(new_caller) ==> r
                is Ok && *final(self) == *old(self),
            old(self).authorized(caller) && !old(self).storage().callers().contains(new_caller) ==> r
                is Ok && final(self).storage().initialized() && final(self).storage().callers() == old(self).storage().callers().push(new_caller) && final(self).storage().streak_map() == old(self).storage().streak_map() && (forall|u: u64|
                final(self).storage().history(u) == old(self).storage().history(u)) && final(self).board_entries() == old(self).board_entries(),
    {
        if let Err(e) = Authorization::require_vault_authorization(&self.state, caller) {
            return Err(e);
        }
        let mut authorized = match self.state.get_authorized_callers() {
            Ok(v) => v,
            Err(e) => return Err(e),
        };
        if vec_contains(&authorized, new_caller) {
            return Ok(());
        }
        authorized.push(new_caller);
        self.state.set_authorized_callers(authorized);
        Ok(())
    }

    /// Give `user` a fresh streak for the day of `now` (no change when the
    /// user already has one).
    pub fn initialize_streak(&mut self, caller: u64, user: u64, now: u64) -> (r: Result<(), Error>)
        ensures
            !old(self).authorized(caller) ==> r == Err::<(), Error>(Error::Unauthorized)
                && *final(self) == *old(self),
            old(self).authorized(caller) && old(self).storage().streak_map().contains_key(user) ==> r
                is Ok && *final(self) == *old(self),
            old(self).authorized(caller) && !old(self).storage().streak_map().contains_key(user) ==> r
                is Ok && final(self).storage().streak_map() == old(self).storage().streak_map().insert(
                user,
                fresh_streak(day_start(now as int) as u64),
            ) && final(self).storage().history(user) == Seq::<u64>::empty() && (forall|u: u64|
                u != user ==> final(self).storage().history(u) == old(self).storage().history(u)) && final(self).storage().initialized() && final(self).storage().callers() == old(self).storage().callers()
                && final(self).board_entries() == old(self).board_entries(),
            old(self).wf() ==> final(self).wf(),
    {
        if let Err(e) = Authorization::require_vault_authorization(&self.state, caller) {
            return Err(e);
        }
        if self.state.streak_exists(user) {
            return Ok(());
        }
        let current_period = StreakTimeHelper::get_current_period(now);
        let streak = UserStreak {
            current_streak: 1,
            longest_streak: 1,
            last_activity_period: current_period,
            available_freezes: INITIAL_FREEZES,
        };
        self.state.set_streak(user, streak);
        self.state.set_activity_history(user, Vec::new());
        Ok(())
    }

    /// Record deposit activity of `user` at time `now`.
    ///
    /// A user without a streak starts one; otherwise the streak continues,
    /// spends a freeze, or restarts per the module rules, and a second
    /// activity on the same UTC day is rejected.
    #[verifier::rlimit(30)]
    pub fn update_streak(&mut self, caller: u64, user: u64, now: u64) -> (r: Result<(), Error>)
        ensures
            ({
                let period = day_start(now as int) as u64;
                let old_map = old(self).storage().streak_map();
                let s = old_map[user];
                &&& !old(self).authorized(caller) ==> r == Err::<(), Error>(Error::Unauthorized)
                    && *final(self) == *old(self)
                &&& old(self).authorized(caller) && !old_map.contains_key(user) ==> r is Ok
                    && final(self).storage().streak_map() == old_map.insert(user, fresh_streak(period))
                    && final(self).storage().history(user) == seq![period]
                    && final(self).board_entries() == old(self).board_entries()
                &&& old(self).authorized(caller) && old_map.contains_key(user) && old(self).storage().history(user).contains(period) ==> r == Err::<(), Error>(
                    Error::DuplicateActivity,
                ) && *final(self) == *old(self)
                &&& old(self).authorized(caller) && old_map.contains_key(user) && !old(self).storage().history(user).contains(period) && continues_streak(s, period)
                    && s.current_streak == u32::MAX ==> r == Err::<(), Error>(Error::Overflow)
                    && *final(self) == *old(self)
                &&& old(self).authorized(caller) && old_map.contains_key(user) && !old(self).storage().history(user).contains(period) && !(continues_streak(s, period)
                    && s.current_streak == u32::MAX) ==> r is Ok && final(self).storage().streak_map()
                    == old_map.insert(user, streak_after_activity(s, period)) && final(self).storage().history(user) == old(self).storage().history(user).push(period) && final(self).board_entries() == board_updated(
                    old(self).board_entries(),
                    user,
                    streak_after_activity(s, period).current_streak,
                )
                &&& r is Ok ==> (forall|u: u64|
                    u != user ==> final(self).storage().history(u) == old(self).storage().history(u))
                    && final(self).storage().initialized() && final(self).storage().callers() == old(self).storage().callers()
                &&& old(self).wf() ==> final(self).wf()
            }),
            old(self).update_error(caller, user, now) matches Some(e) ==> r == Err::<(), Error>(e)
                && *final(self) == *old(self),
            old(self).update_error(caller, user, now) is None ==> r is Ok && final(self).storage().streak_map()
                == old(self).storage().streak_map().insert(user, old(self).streak_after_update(user, now))
                && final(self).storage().history(user) == old(self).history_after_update(user, now)
                && final(self).board_entries() == old(self).board_after_update(user, now)
                && final(self).storage().initialized() == old(self).storage().initialized()
                && final(self).storage().callers() == old(self).storage().callers(),
    {
        if let Err(e) = Authorization::require_vault_authorization(&self.state, caller) {
            return Err(e);
        }
        let current_period = StreakTimeHelper::get_current_period(now);
        if !self.state.streak_exists(user) {
            let new_streak = UserStreak {
                current_streak: 1,
                longest_streak: 1,
                last_activity_period: current_period,
                available_freezes: INITIAL_FREEZES,
            };
            self.state.set_streak(user, new_streak);
            let mut history = Vec::new();
            history.push(current_period);
            self.state.set_activity_history(user, history);
            return Ok(());
        }
        let mut streak = match self.state.get_streak(user) {
            Ok(s) => s,
            Err(e) => return Err(e),
        };
        if let Err(e) = Activity::reject_duplicate(&self.state, user, current_period) {
            return Err(e);
        }
        let days_since_last = StreakTimeHelper::days_between(
            streak.last_activity_period,
            current_period,
        );
        if days_since_last == 1 {
            if streak.current_streak == u32::MAX {
                return Err(Error::Overflow);
            }
            streak.current_streak = streak.current_streak + 1;
            if streak.current_streak > streak.longest_streak {
                streak.longest_streak = streak.current_streak;
            }
            streak.last_activity_period = current_period;
        } else if days_since_last == 2 && streak.available_freezes > 0 {
            if streak.current_streak == u32::MAX {
                return Err(Error::Overflow);
            }
            streak.available_freezes = streak.available_freezes - 1;
            streak.current_streak = streak.current_streak + 1;
            if streak.current_streak > streak.longest_streak {
                streak.longest_streak = streak.current_streak;
            }
            streak.last_activity_period = current_period;
        } else {
            streak.current_streak = 1;
            streak.last_activity_period = current_period;
        }
        self.state.set_streak(user, streak);
        Activity::record(&mut self.state, user, current_period);
        let _ = self.leaderboard.update_leaderboard(user, streak.current_streak);
        Ok(())
    }

    /// Spend one of the user's freezes by hand.
    pub fn use_freeze(&mut self, user: u64) -> (r: Result<(), Error>)
        ensures
            ({
                let old_map = old(self).storage().streak_map();
                let s = old_map[user];
                &&& !old_map.contains_key(user) ==> r == Err::<(), Error>(Error::StreakNotFound)
                    && *final(self) == *old(self)
                &&& old_map.contains_key(user) && s.available_freezes == 0 ==> r == Err::<
                    (),
                    Error,
                >(Error::NoFreezesAvailable) && *final(self) == *old(self)
                &&& old_map.contains_key(user) && s.available_freezes > 0 ==> r is Ok && final(self).storage().streak_map() == old_map.insert(
                    user,
                    UserStreak { available_freezes: (s.available_freezes - 1) as u32, ..s },
                ) && (forall|u: u64| final(self).storage().history(u) == old(self).storage().history(u))
                    && final(self).storage().initialized() == old(self).storage().initialized() && final(self).storage().callers() == old(self).storage().callers() && final(self).board_entries() == old(self).board_entries()
                &&& old(self).wf() ==> final(self).wf()
            }),
    {
        let mut streak = match self.state.get_streak(user) {
            Ok(s) => s,
            Err(e) => return Err(e),
        };
        if streak.available_freezes == 0 {
            return Err(Error::NoFreezesAvailable);
        }
        streak.available_freezes = streak.available_freezes - 1;
        self.state.set_streak(user, streak);
        Ok(())
    }

    /// Grant `amount` more freezes to the user, never beyond `MAX_FREEZES`.
    pub fn add_freezes(&mut self, caller: u64, user: u64, amount: u32) -> (r: Result<(), Error>)
        ensures
            ({
                let old_map = old(self).storage().streak_map();
                let s = old_map[user];
                &&& !old(self).authorized(caller) ==> r == Err::<(), Error>(Error::Unauthorized)
                    && *final(self) == *old(self)
                &&& old(self).authorized(caller) && !old_map.contains_key(user) ==> r == Err::<
                    (),
                    Error,
                >(Error::StreakNotFound) && *final(self) == *old(self)
                &&& old(self).authorized(caller) && old_map.contains_key(user)
                    && s.available_freezes + amount > u32::MAX ==> r == Err::<(), Error>(
                    Error::Overflow,
                ) && *final(self) == *old(self)
                &&& old(self).authorized(caller) && old_map.contains_key(user)
                    && s.available_freezes + amount <= u32::MAX && s.available_freezes + amount
                    > MAX_FREEZES ==> r == Err::<(), Error>(Error::InvalidParameters) && *final(self) == *old(self)
                &&& old(self).authorized(caller) && old_map.contains_key(user)
                    && s.available_freezes + amount <= MAX_FREEZES ==> r is Ok && final(self).storage().streak_map() == old_map.insert(
                    user,
                    UserStreak { available_freezes: (s.available_freezes + amount) as u32, ..s },
                ) && (forall|u: u64| final(self).storage().history(u) == old(self).storage().history(u))
                    && final(self).storage().initialized() && final(self).storage().callers() == old(self).storage().callers() && final(self).board_entries() == old(self).board_entries()
                &&& old(self).wf() ==> final(self).wf()
            }),
    {
        if let Err(e) = Authorization::require_vault_authorization(&self.state, caller) {
            return Err(e);
        }
        let mut streak = match self.state.get_streak(user) {
            Ok(s) => s,
            Err(e) => return Err(e),
        };
        let total = match streak.available_freezes.checked_add(amount) {
            Some(t) => t,
            None => return Err(Error::Overflow),
        };
        if total > MAX_FREEZES {
            return Err(Error::InvalidParameters);
        }
        streak.available_freezes = total;
        self.state.set_streak(user, streak);
        Ok(())
    }

    /// The user's full streak, or `StreakNotFound`.
    pub fn get_user_streak(&self, user: u64) -> (r: Result<UserStreak, Error>)
        ensures
            self.storage().streak_map().contains_key(user) ==> r == Ok::<UserStreak, Error>(
                self.storage().streak_map()[user],
            ),
            !self.storage().streak_map().contains_key(user) ==> r == Err::<UserStreak, Error>(
                Error::StreakNotFound,
            ),
    {
        self.state.get_streak(user)
    }

    /// The user's current streak, zero when the user has none.
    pub fn get_streak(&self, user: u64) -> (r: u32)
        ensures
            r == (if self.storage().streak_map().contains_key(user) {
                self.storage().streak_map()[user].current_streak
            } else {
                0
            }),
    {
        match self.state.get_streak(user) {
            Ok(s) => s.current_streak,
            Err(_) => 0,
        }
    }

    /// Whether the user's last activity lies at most 48 hours before `now`.
    pub fn is_streak_active(&self, user: u64, now: u64) -> (r: bool)
        ensures
            r == (self.storage().streak_map().contains_key(user) && (if now
                > self.storage().streak_map()[user].last_activity_period {
                now - self.storage().streak_map()[user].last_activity_period
            } else {
                0
            }) <= ACTIVE_WINDOW_SECONDS),
    {
        let streak = match self.state.get_streak(user) {
            Ok(s) => s,
            Err(_) => return false,
        };
        now.saturating_sub(streak.last_activity_period) <= ACTIVE_WINDOW_SECONDS
    }

    /// The UTC day periods in which the user recorded activity.
    pub fn get_activity_history(&self, user: u64) -> (r: Result<Vec<u64>, Error>)
        ensures
            r matches Ok(v) && v@ == self.storage().history(user),
    {
        self.state.get_activity_history(user)
    }
}

/// Once activity of `user` is recorded at `now`, any further activity of the
/// user in the same UTC day is rejected as a duplicate.
pub proof fn law_same_day_activity_rejected(
    before: StreaksContract,
    after: StreaksContract,
    caller: u64,
    user: u64,
    now: u64,
    later: u64,
)
    requires
        before.update_error(caller, user, now) is None,
        after.storage().streak_map() == before.storage().streak_map().insert(
            user,
            before.streak_after_update(user, now),
        ),
        after.storage().history(user) == before.history_after_update(user, now),
        after.authorized(caller),
        day_start(later as int) == day_start(now as int),
    ensures
        after.update_error(caller, user, later) == Some(Error::DuplicateActivity),
{
    let period = day_start(now as int) as u64;
    assert(after.storage().history(user).last() == period);
    assert(after.storage().history(user).contains(period));
}

} // verus!
