//! Fixed-point arithmetic of the lending pools. Rates and the interest index
//! are scaled by `10^18`; every product is checked and every quotient is
//! rounded toward zero.
use vstd::prelude::*;
use crate::types::FIXED_SCALE;
use crate::utils::{fit_i128, lemma_trunc_div_fits, trunc_div};

verus! {

/// `10^18 / 10000`: one basis point in fixed-point units.
pub const FIXED_PER_BPS: i128 = 100_000_000_000_000;

/// `a * b / d` rounded toward zero, or `None` when `a * b` does not fit in
/// an `i128`.
pub open spec fn mul_div(a: int, b: int, d: int) -> Option<int> {
    if i128::MIN <= a * b <= i128::MAX {
        Some(trunc_div(a * b, d))
    } else {
        None
    }
}

/// Shares minted for `amount` in a pool holding `assets` against `shares`:
/// one per token while the pool is empty, else `amount * shares / assets`.
pub open spec fn shares_for_deposit(amount: int, assets: int, shares: int) -> Option<int> {
    if shares == 0 || assets == 0 {
        Some(amount)
    } else {
        mul_div(amount, shares, assets)
    }
}

/// Tokens paid for redeeming `redeemed` shares of a pool holding `assets`
/// against `shares`: `redeemed * assets / shares`; `None` for a pool without
/// shares.
pub open spec fn redeem_value(redeemed: int, assets: int, shares: int) -> Option<int> {
    if shares == 0 {
        None
    } else {
        mul_div(redeemed, assets, shares)
    }
}

/// `x / d` rounded up, for a positive `d`.
pub open spec fn ceil_div(x: int, d: int) -> int {
    if x > 0 && x % d != 0 {
        x / d + 1
    } else {
        trunc_div(x, d)
    }
}

/// Interest on `principal` at the fixed-point `rate_per_second` over
/// `elapsed` seconds: `principal * rate * elapsed / 10^18`, rounded up so
/// that a debt never accrues less than it owes; `None` when a product does
/// not fit.
pub open spec fn fixed_interest(principal: int, rate_per_second: int, elapsed: int) -> Option<int> {
    if i128::MIN <= principal * rate_per_second <= i128::MAX && i128::MIN <= principal
        * rate_per_second * elapsed <= i128::MAX {
        Some(ceil_div(principal * rate_per_second * elapsed, FIXED_SCALE as int))
    } else {
        None
    }
}

/// The interest index after `elapsed` seconds at `rate_per_second`:
/// `index + index * rate * elapsed / 10^18`.
pub open spec fn grown_index(index: int, rate_per_second: int, elapsed: int) -> Option<int> {
    match fixed_interest(index, rate_per_second, elapsed) {
        Some(g) => fit_int(index + g),
        None => None,
    }
}

/// Interest earned by `shares` while the index moved from `last_index` to
/// `current_index`: `shares * (current - last) / 10^18`.
pub open spec fn share_interest(shares: int, current_index: int, last_index: int) -> Option<int> {
    if i128::MIN <= current_index - last_index <= i128::MAX {
        mul_div(shares, current_index - last_index, FIXED_SCALE as int)
    } else {
        None
    }
}

/// `Some(v)` when `v` fits in an `i128`.
pub open spec fn fit_int(v: int) -> Option<int> {
    if i128::MIN <= v <= i128::MAX {
        Some(v)
    } else {
        None
    }
}

/// `a * b / d` on machine integers, for a positive divisor.
fn checked_mul_div(a: i128, b: i128, d: i128) -> (r: Option<i128>)
    requires
        d > 0,
    ensures
        r == (match mul_div(a as int, b as int, d as int) {
            Some(v) => Some(v as i128),
            None => None,
        }),
        r matches Some(v) ==> v as int == trunc_div(a * b, d as int),
{
    match a.checked_mul(b) {
        Some(p) => {
            proof {
                lemma_trunc_div_fits(p as int, d as int);
            }
            match p.checked_div(d) {
                Some(q) => Some(q),
                None => None,
            }
        },
        None => None,
    }
}

/// Fixed-point helpers of the lending pools.
pub struct FixedMath;

impl FixedMath {
    /// A rate in basis points as a fixed-point fraction
    /// (`10000` bps is `10^18`), `None` when it does not fit.
    pub fn basis_points_to_fixed(bps: i128) -> (r: Option<i128>)
        ensures
            r == fit_i128(bps * FIXED_PER_BPS),
    {
        bps.checked_mul(FIXED_PER_BPS)
    }

    /// Shares to mint for a deposit of `amount`.
    pub fn calculate_shares(amount: i128, total_assets: i128, total_shares: i128) -> (r: Option<
        i128,
    >)
        requires
            total_assets >= 0,
        ensures
            r == (match shares_for_deposit(amount as int, total_assets as int, total_shares as int) {
                Some(v) => Some(v as i128),
                None => None,
            }),
    {
        if total_shares == 0 || total_assets == 0 {
            Some(amount)
        } else {
            checked_mul_div(amount, total_shares, total_assets)
        }
    }

    /// Tokens paid for redeeming `shares`.
    pub fn calculate_redeem_amount(shares: i128, total_assets: i128, total_shares: i128) -> (r:
        Option<i128>)
        requires
            total_shares >= 0,
        ensures
            r == (match redeem_value(shares as int, total_assets as int, total_shares as int) {
                Some(v) => Some(v as i128),
                None => None,
            }),
    {
        if total_shares == 0 {
            None
        } else {
            checked_mul_div(shares, total_assets, total_shares)
        }
    }

    /// Interest on `principal` at `rate_per_second` over `elapsed_seconds`,
    /// rounded up.
    pub fn calculate_interest(principal: i128, rate_per_second: i128, elapsed_seconds: i128) -> (r:
        Option<i128>)
        ensures
            r == (match fixed_interest(
                principal as int,
                rate_per_second as int,
                elapsed_seconds as int,
            ) {
                Some(v) => Some(v as i128),
                None => None,
            }),
    {
        let p = match principal.checked_mul(rate_per_second) {
            Some(p) => p,
            None => return None,
        };
        let units = match p.checked_mul(elapsed_seconds) {
            Some(u) => u,
            None => return None,
        };
        proof {
            lemma_trunc_div_fits(units as int, FIXED_SCALE as int);
        }
        let q = match units.checked_div(FIXED_SCALE) {
            Some(q) => q,
            None => return None,
        };
        proof {
            lemma_ceil_step(units as int, FIXED_SCALE as int);
        }
        if units > 0 && q * FIXED_SCALE != units {
            Some(q + 1)
        } else {
            Some(q)
        }
    }

    /// The interest index grown at `rate_per_second` over `elapsed_seconds`.
    pub fn calculate_new_index(index: i128, rate_per_second: i128, elapsed_seconds: i128) -> (r:
        Option<i128>)
        ensures
            r == (match grown_index(index as int, rate_per_second as int, elapsed_seconds as int) {
                Some(v) => Some(v as i128),
                None => None,
            }),
    {
        match Self::calculate_interest(index, rate_per_second, elapsed_seconds) {
            Some(g) => index.checked_add(g),
            None => None,
        }
    }

    /// Interest earned by `shares` between two index values.
    pub fn calculate_user_interest(shares: i128, current_index: i128, last_index: i128) -> (r:
        Option<i128>)
        ensures
            r == (match share_interest(shares as int, current_index as int, last_index as int) {
                Some(v) => Some(v as i128),
                None => None,
            }),
    {
        match current_index.checked_sub(last_index) {
            Some(d) => checked_mul_div(shares, d, FIXED_SCALE),
            None => None,
        }
    }
}

/// While a pool holds exactly one token per share, a deposit mints one share
/// per token and a redemption pays one token per share (when the products
/// involved fit).
pub proof fn law_one_token_per_share(amount: int, redeemed: int, total: int)
    requires
        total > 0,
    ensures
        shares_for_deposit(amount, total, total) matches Some(v) ==> v == amount,
        redeem_value(redeemed, total, total) matches Some(v) ==> v == redeemed,
{
    lemma_mul_trunc_div_cancel(amount, total);
    lemma_mul_trunc_div_cancel(redeemed, total);
}

/// `x * d / d == x` for a positive `d`, with division toward zero.
pub proof fn lemma_mul_trunc_div_cancel(x: int, d: int)
    requires
        d > 0,
    ensures
        trunc_div(x * d, d) == x,
{
    if x > 0 {
        assert(x * d > 0 && (x * d) / d == x) by (nonlinear_arith)
            requires
                x > 0,
                d > 0,
        ;
    } else if x < 0 {
        assert(x * d < 0 && (-(x * d)) / d == -x) by (nonlinear_arith)
            requires
                x < 0,
                d > 0,
        ;
    } else {
        assert(x * d == 0) by (nonlinear_arith)
            requires
                x == 0,
        ;
    }
}

/// A quotient `a * b / d` by a positive `d` fits in an `i128`.
pub proof fn lemma_mul_div_fits(a: int, b: int, d: int)
    requires
        d > 0,
    ensures
        mul_div(a, b, d) matches Some(v) ==> i128::MIN <= v <= i128::MAX,
{
    if i128::MIN <= a * b <= i128::MAX {
        lemma_trunc_div_fits(a * b, d);
    }
}

/// For a positive dividend, the quotient times the divisor is the dividend
/// exactly when nothing remains, and the rounded-up quotient still fits.
pub proof fn lemma_ceil_step(x: int, d: int)
    requires
        d > 1,
        i128::MIN <= x <= i128::MAX,
    ensures
        x > 0 ==> trunc_div(x, d) == x / d,
        x > 0 ==> ((x / d) * d == x <==> x % d == 0),
        x > 0 ==> x / d + 1 <= i128::MAX,
        x > 0 ==> i128::MIN <= (x / d) * d <= i128::MAX,
{
    if x > 0 {
        vstd::arithmetic::div_mod::lemma_fundamental_div_mod(x, d);
        assert((x / d) * d == d * (x / d)) by (nonlinear_arith);
        assert(0 <= x % d < d) by (nonlinear_arith)
            requires
                d > 0,
        ;
        assert(0 <= x / d && x / d < x) by (nonlinear_arith)
            requires
                x > 0,
                d > 1,
        ;
    }
}

/// Fixed-point interest, when defined, fits in an `i128`.
pub proof fn lemma_fixed_interest_fits(principal: int, rate_per_second: int, elapsed: int)
    ensures
        fixed_interest(principal, rate_per_second, elapsed) matches Some(v) ==> i128::MIN <= v
            <= i128::MAX,
{
    let x = principal * rate_per_second * elapsed;
    if i128::MIN <= x <= i128::MAX {
        lemma_trunc_div_fits(x, FIXED_SCALE as int);
        lemma_ceil_step(x, FIXED_SCALE as int);
    }
}

} // verus!
