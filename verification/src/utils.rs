use vstd::prelude::*;

verus! {

/// Quotient of `x / d` rounded toward zero, as Rust's integer division does.
pub open spec fn trunc_div(x: int, d: int) -> int {
    if x == 0 {
        0
    } else if x > 0 && d > 0 {
        x / d
    } else if x < 0 && d < 0 {
        (-x) / (-d)
    } else if x < 0 {
        -((-x) / d)
    } else {
        -(x / (-d))
    }
}

/// `Some(v)` when the mathematical value `v` fits in an `i128`, else `None`.
pub open spec fn fit_i128(v: int) -> Option<i128> {
    if i128::MIN <= v <= i128::MAX {
        Some(v as i128)
    } else {
        None
    }
}

/// Seconds in one UTC day.
pub const DAY_SECONDS: u64 = 86400;

/// Seconds in a 365-day year.
pub const SECONDS_PER_YEAR: i128 = 31_536_000;

/// Basis points in one whole (10000 bps = 100%).
pub const BPS_DENOMINATOR: i128 = 10_000;

/// Safe arithmetic operations with overflow/underflow checking.
pub struct SafeMath;

impl SafeMath {
    /// Addition that returns `None` on overflow.
    pub fn add(a: i128, b: i128) -> (r: Option<i128>)
        ensures
            r == fit_i128(a + b),
    {
        a.checked_add(b)
    }

    /// Subtraction that returns `None` on underflow.
    pub fn sub(a: i128, b: i128) -> (r: Option<i128>)
        ensures
            r == fit_i128(a - b),
    {
        a.checked_sub(b)
    }

    /// Multiplication that returns `None` on overflow.
    pub fn mul(a: i128, b: i128) -> (r: Option<i128>)
        ensures
            r == fit_i128(a * b),
    {
        a.checked_mul(b)
    }

    /// Division rounding toward zero that returns `None` on division by zero
    /// and on the one quotient that overflows, `i128::MIN / -1`.
    pub fn div(a: i128, b: i128) -> (r: Option<i128>)
        ensures
            b == 0 ==> r is None,
            a == i128::MIN && b == -1 ==> r is None,
            b != 0 && !(a == i128::MIN && b == -1) ==> r == Some(
                trunc_div(a as int, b as int) as i128,
            ),
    {
        if b == 0 || (a == i128::MIN && b == -1) {
            None
        } else {
            proof {
                lemma_trunc_div_fits(a as int, b as int);
            }
            a.checked_div(b)
        }
    }
}

/// A truncated quotient by a divisor other than zero is no larger in
/// magnitude than the dividend.
pub proof fn lemma_trunc_div_fits(x: int, d: int)
    requires
        d != 0,
        i128::MIN <= x <= i128::MAX,
        !(x == i128::MIN && d == -1),
    ensures
        i128::MIN <= trunc_div(x, d) <= i128::MAX,
{
    if x > 0 && d > 0 {
        lemma_div_bounded(x, d);
    } else if x < 0 && d < 0 {
        lemma_div_bounded(-x, -d);
        if d == -1 {
            assert((-x) / 1 == -x);
        } else {
            lemma_div_halves(-x, -d);
        }
    } else if x < 0 {
        lemma_div_bounded(-x, d);
    } else if x > 0 {
        lemma_div_bounded(x, -d);
    }
}

/// `0 <= x / d <= x` for a non-negative dividend and a positive divisor.
pub proof fn lemma_div_bounded(x: int, d: int)
    requires
        x >= 0,
        d >= 1,
    ensures
        0 <= x / d <= x,
{
    assert(0 <= x / d <= x) by (nonlinear_arith)
        requires
            x >= 0,
            d >= 1,
    ;
}

/// Dividing by at least two at least halves a non-negative dividend.
pub proof fn lemma_div_halves(x: int, d: int)
    requires
        x >= 0,
        d >= 2,
    ensures
        x / d <= x / 2,
{
    assert(x / d <= x / 2) by (nonlinear_arith)
        requires
            x >= 0,
            d >= 2,
    ;
}

/// Helpers on ledger timestamps; the current ledger time is passed in.
pub struct TimeHelper;

impl TimeHelper {
    /// Whether `timestamp` has been reached at time `now`.
    pub fn is_past(now: u64, timestamp: u64) -> (r: bool)
        ensures
            r == (now >= timestamp),
    {
        now >= timestamp
    }

    /// Whether `timestamp` still lies ahead at time `now`.
    pub fn is_future(now: u64, timestamp: u64) -> (r: bool)
        ensures
            r == (now < timestamp),
    {
        now < timestamp
    }

    /// Seconds left from `now` until `timestamp`, zero once it has passed.
    pub fn seconds_until(now: u64, timestamp: u64) -> (r: u64)
        ensures
            r == (if timestamp > now { timestamp - now } else { 0 }),
    {
        if timestamp > now {
            timestamp - now
        } else {
            0
        }
    }
}

/// Interest of `principal` at `rate_bps` over `elapsed_seconds`, before the
/// final division: `principal * rate_bps * elapsed_seconds`.
pub open spec fn interest_numerator(principal: int, rate_bps: int, elapsed_seconds: int) -> int {
    principal * rate_bps * elapsed_seconds
}

/// Simple annual interest: `principal * rate_bps * elapsed / (year * 10000)`,
/// rounded down.
pub open spec fn simple_interest(principal: int, rate_bps: int, elapsed_seconds: int) -> int {
    interest_numerator(principal, rate_bps, elapsed_seconds) / (SECONDS_PER_YEAR * BPS_DENOMINATOR)
}

/// Validation helpers for common checks.
pub struct ValidationHelper;

impl ValidationHelper {
    pub fn validate_positive_amount(amount: i128) -> (r: bool)
        ensures
            r == (amount > 0),
    {
        amount > 0
    }

    pub fn validate_non_negative_amount(amount: i128) -> (r: bool)
        ensures
            r == (amount >= 0),
    {
        amount >= 0
    }

    /// A lock period lies between one second and five years.
    pub fn validate_lock_period(lock_period: u64) -> (r: bool)
        ensures
            r == (1 <= lock_period <= 157_788_000),
    {
        lock_period >= 1 && lock_period <= 157_788_000
    }

    /// A rate never exceeds 100% (10000 basis points).
    pub fn validate_interest_rate(rate_bps: u32) -> (r: bool)
        ensures
            r == (rate_bps <= 10_000),
    {
        rate_bps <= 10_000
    }

    /// Collateral required to borrow `borrow_amount` at `collateral_ratio_bps`:
    /// `borrow_amount * ratio / 10000`, zero for a non-positive amount or a
    /// zero ratio, and `None` when the product overflows.
    pub fn required_collateral_for_borrow(borrow_amount: i128, collateral_ratio_bps: u32) -> (r:
        Option<i128>)
        ensures
            (borrow_amount <= 0 || collateral_ratio_bps == 0) ==> r == Some(0i128),
            (borrow_amount > 0 && collateral_ratio_bps > 0) ==> r == (
            if borrow_amount * collateral_ratio_bps <= i128::MAX {
                Some(((borrow_amount * collateral_ratio_bps) / 10_000) as i128)
            } else {
                None::<i128>
            }),
    {
        if borrow_amount <= 0 || collateral_ratio_bps == 0 {
            return Some(0);
        }
        let scaled = match SafeMath::mul(borrow_amount, collateral_ratio_bps as i128) {
            Some(v) => v,
            None => return None,
        };
        SafeMath::div(scaled, 10_000)
    }

    /// Simple interest on `principal` at `rate_bps` per year over
    /// `elapsed_seconds`; zero when any input is zero or the principal is not
    /// positive, `None` when an intermediate product overflows.
    pub fn calculate_interest(principal: i128, rate_bps: u32, elapsed_seconds: u64) -> (r: Option<
        i128,
    >)
        ensures
            (principal <= 0 || rate_bps == 0 || elapsed_seconds == 0) ==> r == Some(0i128),
            (principal > 0 && rate_bps > 0 && elapsed_seconds > 0) ==> r == (
            if interest_numerator(principal as int, rate_bps as int, elapsed_seconds as int)
                <= i128::MAX {
                Some(simple_interest(principal as int, rate_bps as int, elapsed_seconds as int) as i128)
            } else {
                None::<i128>
            }),
    {
        if principal <= 0 || rate_bps == 0 || elapsed_seconds == 0 {
            return Some(0);
        }
        let annualized = match SafeMath::mul(principal, rate_bps as i128) {
            Some(v) => v,
            None => {
                proof {
                    lemma_product_monotone(principal as int, rate_bps as int, elapsed_seconds as int);
                }
                return None;
            },
        };
        let elapsed_units = match SafeMath::mul(annualized, elapsed_seconds as i128) {
            Some(v) => v,
            None => return None,
        };
        let seconds_per_year: i128 = 365 * 24 * 60 * 60 * 10_000;
        SafeMath::div(elapsed_units, seconds_per_year)
    }
}

/// For positive factors, `a * b <= a * b * c`.
pub proof fn lemma_product_monotone(a: int, b: int, c: int)
    requires
        a > 0,
        b > 0,
        c > 0,
    ensures
        a * b <= a * b * c,
        a * b > 0,
{
    assert(a * b > 0) by (nonlinear_arith)
        requires
            a > 0,
            b > 0,
    ;
    assert(a * b <= a * b * c) by (nonlinear_arith)
        requires
            a * b > 0,
            c > 0,
    ;
}

/// Start of the UTC day that contains `ts`.
pub open spec fn day_start(ts: int) -> int {
    (ts / DAY_SECONDS as int) * DAY_SECONDS as int
}

/// Time helpers for day-granular streak calculations.
pub struct StreakTimeHelper;

impl StreakTimeHelper {
    /// The UTC day period containing `now` (the timestamp floored to midnight).
    pub fn get_current_period(now: u64) -> (r: u64)
        ensures
            r == day_start(now as int),
            r <= now,
            now - r < DAY_SECONDS,
    {
        (now / DAY_SECONDS) * DAY_SECONDS
    }

    /// Whole days from `start` to `end`, zero when `end` is not after `start`.
    pub fn days_between(start: u64, end: u64) -> (r: u64)
        ensures
            r == (if end <= start { 0 } else { ((end - start) as int / DAY_SECONDS as int) as u64 }),
    {
        if end <= start {
            return 0;
        }
        (end - start) / DAY_SECONDS
    }

    /// Whether two timestamps fall in the same UTC day.
    pub fn is_same_period(ts1: u64, ts2: u64) -> (r: bool)
        ensures
            r == (ts1 as int / DAY_SECONDS as int == ts2 as int / DAY_SECONDS as int),
    {
        (ts1 / DAY_SECONDS) == (ts2 / DAY_SECONDS)
    }

    /// Whether `current_ts` falls in the UTC day right after that of `previous_ts`.
    pub fn is_consecutive_day(previous_ts: u64, current_ts: u64) -> (r: bool)
        requires
            day_start(previous_ts as int) + DAY_SECONDS <= u64::MAX,
        ensures
            r == (day_start(current_ts as int) == day_start(previous_ts as int) + DAY_SECONDS),
    {
        let previous_period = (previous_ts / DAY_SECONDS) * DAY_SECONDS;
        let next_expected = previous_period + DAY_SECONDS;
        let current_period = (current_ts / DAY_SECONDS) * DAY_SECONDS;
        current_period == next_expected
    }

    /// Whether more than one whole UTC day lies between the two timestamps'
    /// days (at least one day was missed).
    pub fn missed_day(previous_ts: u64, current_ts: u64) -> (r: bool)
        requires
            day_start(previous_ts as int) + DAY_SECONDS <= u64::MAX,
        ensures
            r == (day_start(current_ts as int) > day_start(previous_ts as int) + DAY_SECONDS),
    {
        let previous_period = (previous_ts / DAY_SECONDS) * DAY_SECONDS;
        let current_period = (current_ts / DAY_SECONDS) * DAY_SECONDS;
        current_period > previous_period + DAY_SECONDS
    }
}

} // verus!
