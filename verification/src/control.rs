//! The header of the oracle and its emergency control.
//!
//! The oracle is either running or stopped. Any write that trips the
//! volatility limit stops it; the authority alone may stop it by hand or
//! set it running again. While it is stopped no write is accepted.

use vstd::prelude::*;
use crate::error::ControlError;
use crate::identity::Pubkey;
use crate::registry::{Registry, RegistryModel};

verus! {

/// The control block of the oracle.
pub struct PriceOracleHeader {
    /// When a write last succeeded.
    pub last_global_update: i64,
    /// Whether the oracle is stopped.
    pub emergency_stop: bool,
    /// Who may set and clear the emergency stop.
    pub authority: Pubkey,
    /// Whom a feed snapshot must belong to.
    pub switchboard_program_id: Pubkey,
    pub bump: u8,
    /// Which slot of the ledger belongs to which asset.
    pub registry: Registry,
}

/// What a header holds.
pub struct HeaderModel {
    pub last_global_update: i64,
    pub emergency_stop: bool,
    pub authority: Pubkey,
    pub switchboard_program_id: Pubkey,
    pub bump: u8,
    pub registry: RegistryModel,
}

impl View for PriceOracleHeader {
    type V = HeaderModel;

    open spec fn view(&self) -> HeaderModel {
        HeaderModel {
            last_global_update: self.last_global_update,
            emergency_stop: self.emergency_stop,
            authority: self.authority,
            switchboard_program_id: self.switchboard_program_id,
            bump: self.bump,
            registry: self.registry@,
        }
    }
}

impl HeaderModel {
    /// The registry of the header is well-formed.
    pub open spec fn wf(self) -> bool {
        self.registry.wf()
    }

    /// The header with the emergency stop set to `stop`.
    pub open spec fn with_stop(self, stop: bool) -> HeaderModel {
        HeaderModel { emergency_stop: stop, ..self }
    }

    /// What every write asks first: `Stopped` when the emergency stop is set.
    pub open spec fn check_not_stopped(self) -> Result<(), ControlError> {
        if self.emergency_stop {
            Err(ControlError::Stopped)
        } else {
            Ok(())
        }
    }

    /// The header after `caller` asked for the emergency stop to be `stop`,
    /// and what the call returns: only the authority is obeyed.
    pub open spec fn set_emergency_stop(self, stop: bool, caller: Pubkey) -> (
        HeaderModel,
        Result<(), ControlError>,
    ) {
        if caller == self.authority {
            (self.with_stop(stop), Ok(()))
        } else {
            (self, Err(ControlError::Unauthorized))
        }
    }
}

impl PriceOracleHeader {
    /// Fails with `Stopped` when the emergency stop is set.
    pub fn check_not_stopped(&self) -> (r: Result<(), ControlError>)
        ensures
            r == self@.check_not_stopped(),
    {
        if self.emergency_stop {
            Err(ControlError::Stopped)
        } else {
            Ok(())
        }
    }

    /// Whether the emergency stop is set.
    pub fn is_stopped(&self) -> (r: bool)
        ensures
            r == self@.emergency_stop,
    {
        self.emergency_stop
    }

    /// Sets the emergency stop to `stop` on behalf of `caller`.
    ///
    /// Fails with `Unauthorized`, and changes nothing, unless `caller` is the
    /// authority of the oracle.
    pub fn set_emergency_stop(&mut self, stop: bool, caller: &Pubkey) -> (r: Result<
        (),
        ControlError,
    >)
        ensures
            (final(self)@, r) == old(self)@.set_emergency_stop(stop, *caller),
    {
        if *caller == self.authority {
            self.emergency_stop = stop;
            Ok(())
        } else {
            Err(ControlError::Unauthorized)
        }
    }

    /// Sets the emergency stop. This is what a breach of the volatility
    /// limit does, and it asks for no authority.
    pub fn trip(&mut self)
        ensures
            final(self)@ == old(self)@.with_stop(true),
    {
        self.emergency_stop = true;
    }
}

} // verus!
