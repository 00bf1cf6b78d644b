//! The errors of the oracle, one enumeration for each component that fails.

use vstd::prelude::*;
use crate::fixed::DecodeError;

verus! {

/// Why a feed snapshot is not trusted.
#[derive(Clone, Copy, Debug, PartialEq, Eq, Structural)]
pub enum ValidationError {
    /// The snapshot is older than the age that the caller allows.
    StaleData,
    /// The uncertainty that the feed reports is above the caller's bound.
    ExceedsConfidenceInterval,
    /// The snapshot does not belong to the registered feed authority, or
    /// what it carries is not in the form that was asked for.
    InvalidFeedAccount,
}

/// Why an asset has no slot.
#[derive(Clone, Copy, Debug, PartialEq, Eq, Structural)]
pub enum RegistryError {
    /// The asset was never registered.
    AssetNotFound,
    /// The asset is not registered and every slot is taken.
    MaxAssetsReached,
}

/// Why the ledger refuses a write.
#[derive(Clone, Copy, Debug, PartialEq, Eq, Structural)]
pub enum LedgerError {
    /// The new price lies further from the current one than the limit allows.
    PriceChangeExceedsLimit,
}

/// Why the emergency control refuses a call.
#[derive(Clone, Copy, Debug, PartialEq, Eq, Structural)]
pub enum ControlError {
    /// The emergency stop is set.
    Stopped,
    /// The caller is not the authority of the oracle.
    Unauthorized,
}

/// Any error of the oracle.
#[derive(Clone, Copy, Debug, PartialEq, Eq, Structural)]
pub enum OracleError {
    Decode(DecodeError),
    Validation(ValidationError),
    Registry(RegistryError),
    Ledger(LedgerError),
    Control(ControlError),
    /// The asset's record was never written.
    DataNotAvailable,
}

impl OracleError {
    /// The message of the error.
    pub open spec fn message_text(self) -> Seq<char> {
        match self {
            OracleError::Decode(DecodeError::NonFinite) => "Invalid Switchboard data"@,
            OracleError::Validation(ValidationError::StaleData) => "Stale data"@,
            OracleError::Validation(ValidationError::ExceedsConfidenceInterval) => "Confidence interval exceeded"@,
            OracleError::Validation(ValidationError::InvalidFeedAccount) => "Invalid Switchboard account"@,
            OracleError::Registry(RegistryError::AssetNotFound) => "Invalid asset type"@,
            OracleError::Registry(RegistryError::MaxAssetsReached) => "Maximum number of assets reached"@,
            OracleError::Ledger(LedgerError::PriceChangeExceedsLimit) => "Price change exceeds 20% limit"@,
            OracleError::Control(ControlError::Stopped) => "Emergency stop activated"@,
            OracleError::Control(ControlError::Unauthorized) => "Unauthorized access"@,
            OracleError::DataNotAvailable => "Data not available"@,
        }
    }

    /// The message of the error.
    pub fn message(&self) -> (r: &'static str)
        ensures
            r@ == self.message_text(),
    {
        match self {
            OracleError::Decode(DecodeError::NonFinite) => "Invalid Switchboard data",
            OracleError::Validation(ValidationError::StaleData) => "Stale data",
            OracleError::Validation(ValidationError::ExceedsConfidenceInterval) => "Confidence interval exceeded",
            OracleError::Validation(ValidationError::InvalidFeedAccount) => "Invalid Switchboard account",
            OracleError::Registry(RegistryError::AssetNotFound) => "Invalid asset type",
            OracleError::Registry(RegistryError::MaxAssetsReached) => "Maximum number of assets reached",
            OracleError::Ledger(LedgerError::PriceChangeExceedsLimit) => "Price change exceeds 20% limit",
            OracleError::Control(ControlError::Stopped) => "Emergency stop activated",
            OracleError::Control(ControlError::Unauthorized) => "Unauthorized access",
            OracleError::DataNotAvailable => "Data not available",
        }
    }
}

} // verus!
