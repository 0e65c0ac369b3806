//! Verified core of the Vaulty savings protocol: time-locked savings vaults,
//! daily deposit streaks, milestone rewards and collateralized loans.
//!
//! Every contract is modelled as a plain state value whose operations are
//! state transitions taking the ledger time and the authenticated caller as
//! inputs. Host concerns (persistent storage, TTL extension, event
//! publication, token transfers and cross-contract invocation) are left to
//! the contract glue around this crate.

pub mod errors;
pub mod types;
pub mod utils;
pub mod table;
pub mod vault_id;
pub mod fixed_math;
pub mod positions;
pub mod interest;
pub mod vault;
pub mod streaks;
pub mod rewards;
pub mod reward_ledger;
pub mod progression;
pub mod borrowing;
pub mod lending;
