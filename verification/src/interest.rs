//! Vault interest: simple annual interest on a vault's principal, accrued
//! over non-overlapping periods and tracked apart from the withdrawable
//! balance.
use vstd::prelude::*;
use crate::errors::Error;
use crate::utils::{interest_numerator, lemma_product_monotone, simple_interest, SafeMath};
pub use crate::utils::SECONDS_PER_YEAR;

verus! {

/// Interest on `balance` at `rate_bps` per year over `elapsed_seconds`:
/// `balance * rate_bps * elapsed_seconds / (SECONDS_PER_YEAR * 10000)`,
/// rounded down. Zero when any input is not positive; `Overflow` when the
/// product does not fit in an `i128`.
pub fn calculate_interest(balance: i128, rate_bps: i128, elapsed_seconds: u64) -> (r: Result<
    i128,
    Error,
>)
    ensures
        (balance <= 0 || rate_bps <= 0 || elapsed_seconds == 0) ==> r == Ok::<i128, Error>(0),
        (balance > 0 && rate_bps > 0 && elapsed_seconds > 0) ==> r == (if interest_numerator(
            balance as int,
            rate_bps as int,
            elapsed_seconds as int,
        ) <= i128::MAX {
            Ok::<i128, Error>(
                simple_interest(balance as int, rate_bps as int, elapsed_seconds as int) as i128,
            )
        } else {
            Err::<i128, Error>(Error::Overflow)
        }),
        r matches Ok(v) ==> v >= 0,
{
    if balance <= 0 || rate_bps <= 0 || elapsed_seconds == 0 {
        return Ok(0);
    }
    proof {
        lemma_product_monotone(balance as int, rate_bps as int, elapsed_seconds as int);
    }
    let annualized = match SafeMath::mul(balance, rate_bps) {
        Some(v) => v,
        None => return Err(Error::Overflow),
    };
    let units = match SafeMath::mul(annualized, elapsed_seconds as i128) {
        Some(v) => v,
        None => return Err(Error::Overflow),
    };
    let denominator: i128 = 315_360_000_000;
    proof {
        assert(units > 0) by (nonlinear_arith)
            requires
                annualized > 0,
                elapsed_seconds > 0,
                units == annualized * elapsed_seconds,
        ;
    }
    match SafeMath::div(units, denominator) {
        Some(v) => Ok(v),
        None => Ok(0),
    }
}

} // verus!
