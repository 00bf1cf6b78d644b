//! The thresholds and intervals of the oracle.
//!
//! A threshold that stands for a decimal number is given as the raw count of
//! a [`Fixed`](crate::fixed::Fixed) value: in billionths.

use vstd::prelude::*;

verus! {

/// Oldest feed snapshot that is still trusted, in seconds.
pub const MAX_SWITCHBOARD_DATA_AGE: i64 = 300;

/// Largest relative move of a price in one write: 0.20, in billionths.
pub const PRICE_CHANGE_LIMIT: i128 = 200_000_000;

/// Largest uncertainty of a price feed, in units of the price: 0.80, in
/// billionths.
pub const PRICE_CONFIDENCE_BOUND: i128 = 800_000_000;

/// Largest uncertainty of a yield feed, as a rate: 0.001, in billionths.
pub const APY_CONFIDENCE_BOUND: i128 = 1_000_000;

/// Number of failed updates after which an operator is expected to stop the
/// oracle.
pub const EMERGENCY_STOP_THRESHOLD: u64 = 10000;

/// Price of the stable token below which an operator is expected to stop the
/// oracle: 0.94, in billionths.
pub const XXUSD_PRICE_EMERGENCY_THRESHOLD: i128 = 940_000_000;

/// Largest share of the assets that one hedging transfer may move: 0.25, in
/// billionths.
pub const HEDGE_STRATEGY_TRANSFER_LIMIT: i128 = 250_000_000;

/// Seconds between two price updates.
pub const PRICE_UPDATE_INTERVAL: i64 = 300;

/// Seconds before a new asset becomes active: seven days.
pub const NEW_ASSET_ACTIVATION_DELAY: i64 = 604_800;

} // verus!
