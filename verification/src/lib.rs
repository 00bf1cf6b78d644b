//! A price and yield attestation store.
//!
//! Readings of an oracle feed are validated, decoded and written to a ledger
//! that holds, for each asset, its current price, its previous price, its
//! yield and the time of its last write. A price that moves further in one
//! write than the limit allows is refused and stops the oracle: from then on
//! every write is refused until the authority sets the oracle running again.
//!
//! Prices, yields and thresholds are exact decimal numbers with nine places
//! ([`fixed::Fixed`]); the library holds no floating-point number.
//!
//! - [`fixed`]: the values, and the decoding of a reading into a value.
//! - [`text`]: values as decimal text.
//! - [`switchboard_utils`]: the snapshot of a feed, its validation, and the
//!   decoding of single and packed readings.
//! - [`envelope`]: prices that arrive in a JSON envelope.
//! - [`registry`]: which slot of the ledger belongs to which asset.
//! - [`ledger`]: the records, and the limit on the move of a price.
//! - [`control`]: the header of the oracle and its emergency stop.
//! - [`price_oracle`]: the operations of the oracle.
//! - [`wide`]: products of 128-bit numbers and their order.
//! - [`laws`]: what holds of the operations taken together.

pub mod config;
pub mod control;
pub mod envelope;
pub mod error;
pub mod fixed;
pub mod identity;
pub mod laws;
pub mod ledger;
pub mod price_oracle;
pub mod registry;
pub mod switchboard_utils;
pub mod text;
pub mod types;
pub mod wide;
