//! The operations of the oracle.
//!
//! Every write goes the same way: the emergency stop is consulted, the feed
//! snapshot is validated, its reading is decoded, the asset's slot is
//! resolved, and the ledger is written. A price that moves further than the
//! limit allows is not written and stops the oracle; every other failure
//! leaves the header and the ledger as they were. Reads ignore the emergency
//! stop.

use vstd::prelude::*;
use crate::config::{
    APY_CONFIDENCE_BOUND,
    MAX_SWITCHBOARD_DATA_AGE,
    PRICE_CHANGE_LIMIT,
    PRICE_CONFIDENCE_BOUND,
};
use crate::control::{HeaderModel, PriceOracleHeader};
use crate::error::{ControlError, OracleError};
use crate::fixed::Fixed;
use crate::identity::Pubkey;
use crate::ledger::{LedgerModel, PriceData, PriceOracleData, MAX_ASSETS};
use crate::registry::{lemma_registered_wf, Registry, RegistryModel};
use crate::switchboard_utils::{
    get_multi_asset_result,
    packed_reading,
    packed_result,
    parse_packed_values,
    validate,
    FeedSnapshot,
    MultiAssetResult,
};
use crate::types::{AssetType, ASSET_KINDS};

verus! {

/// The operations of the oracle, on a header and a ledger.
pub struct PriceOracle;

/// The limit on the relative move of a price.
pub open spec fn price_change_limit() -> Fixed {
    Fixed { raw: PRICE_CHANGE_LIMIT }
}

/// The bound on the uncertainty of a price feed.
pub open spec fn price_confidence_bound() -> Fixed {
    Fixed { raw: PRICE_CONFIDENCE_BOUND }
}

/// The bound on the uncertainty of a yield feed.
pub open spec fn apy_confidence_bound() -> Fixed {
    Fixed { raw: APY_CONFIDENCE_BOUND }
}

impl PriceOracle {
    /// The header of a new oracle.
    pub open spec fn initial_header(
        authority: Pubkey,
        switchboard_program_id: Pubkey,
        bump: u8,
        registry: RegistryModel,
    ) -> HeaderModel {
        HeaderModel {
            last_global_update: 0,
            emergency_stop: false,
            authority,
            switchboard_program_id,
            bump,
            registry,
        }
    }

    /// The ledger of a new oracle: no record was ever written.
    pub open spec fn initial_ledger(bump: u8) -> LedgerModel {
        LedgerModel { records: Seq::new(MAX_ASSETS as nat, |slot: int| PriceData::zeroed()), bump }
    }

    /// The static registry.
    pub open spec fn static_registry() -> RegistryModel {
        RegistryModel { dynamic: false, capacity: ASSET_KINDS as nat, assets: AssetType::all() }
    }

    /// The value that a write takes from `feed` at `now`, or the error that
    /// ends the write before anything is changed: `Stopped` when the
    /// emergency stop is set, else what validation refuses, else `NonFinite`.
    pub open spec fn trusted_value(
        header: HeaderModel,
        feed: FeedSnapshot,
        now: i64,
        confidence_bound: Fixed,
    ) -> Result<Fixed, OracleError> {
        if header.emergency_stop {
            Err(OracleError::Control(ControlError::Stopped))
        } else {
            match feed.validated(
                now,
                MAX_SWITCHBOARD_DATA_AGE,
                confidence_bound,
                header.switchboard_program_id,
            ) {
                Err(e) => Err(OracleError::Validation(e)),
                Ok(reading) => match reading.decoded() {
                    Err(e) => Err(OracleError::Decode(e)),
                    Ok(value) => Ok(value),
                },
            }
        }
    }

    /// The header after a write for `asset` succeeded at `now`.
    pub open spec fn after_write(header: HeaderModel, asset: AssetType, now: i64) -> HeaderModel {
        HeaderModel {
            last_global_update: now,
            registry: header.registry.registered(asset),
            ..header
        }
    }

    /// The state after `price` was offered for `asset`, and the result.
    pub open spec fn price_written(
        header: HeaderModel,
        ledger: LedgerModel,
        asset: AssetType,
        price: Fixed,
        now: i64,
    ) -> (HeaderModel, LedgerModel, Result<(), OracleError>) {
        match header.registry.register_result(asset) {
            Err(e) => (header, ledger, Err(OracleError::Registry(e))),
            Ok(slot) => match ledger.apply_price_update(slot, price, now, price_change_limit()) {
                (_, Err(e)) => (header.with_stop(true), ledger, Err(OracleError::Ledger(e))),
                (written, Ok(())) => (Self::after_write(header, asset, now), written, Ok(())),
            },
        }
    }

    /// The state after `apy` was offered for `asset`, and the result.
    pub open spec fn apy_written(
        header: HeaderModel,
        ledger: LedgerModel,
        asset: AssetType,
        apy: Fixed,
        now: i64,
    ) -> (HeaderModel, LedgerModel, Result<(), OracleError>) {
        match header.registry.register_result(asset) {
            Err(e) => (header, ledger, Err(OracleError::Registry(e))),
            Ok(slot) => (
                Self::after_write(header, asset, now),
                ledger.apply_apy_update(slot, apy, now),
                Ok(()),
            ),
        }
    }

    /// The state after `price` and `apy` were offered for `asset`, and the
    /// result.
    pub open spec fn price_and_apy_written(
        header: HeaderModel,
        ledger: LedgerModel,
        asset: AssetType,
        price: Fixed,
        apy: Fixed,
        now: i64,
    ) -> (HeaderModel, LedgerModel, Result<(), OracleError>) {
        match header.registry.register_result(asset) {
            Err(e) => (header, ledger, Err(OracleError::Registry(e))),
            Ok(slot) => match ledger.apply_price_and_apy_update(
                slot,
                price,
                apy,
                now,
                price_change_limit(),
            ) {
                (_, Err(e)) => (header.with_stop(true), ledger, Err(OracleError::Ledger(e))),
                (written, Ok(())) => (Self::after_write(header, asset, now), written, Ok(())),
            },
        }
    }

    /// What [`PriceOracle::update_price`] does.
    pub open spec fn update_price_spec(
        header: HeaderModel,
        ledger: LedgerModel,
        asset: AssetType,
        feed: FeedSnapshot,
        now: i64,
    ) -> (HeaderModel, LedgerModel, Result<(), OracleError>) {
        match Self::trusted_value(header, feed, now, price_confidence_bound()) {
            Err(e) => (header, ledger, Err(e)),
            Ok(price) => Self::price_written(header, ledger, asset, price, now),
        }
    }

    /// What [`PriceOracle::update_apy`] does.
    pub open spec fn update_apy_spec(
        header: HeaderModel,
        ledger: LedgerModel,
        asset: AssetType,
        feed: FeedSnapshot,
        now: i64,
    ) -> (HeaderModel, LedgerModel, Result<(), OracleError>) {
        match Self::trusted_value(header, feed, now, apy_confidence_bound()) {
            Err(e) => (header, ledger, Err(e)),
            Ok(apy) => Self::apy_written(header, ledger, asset, apy, now),
        }
    }

    /// What [`PriceOracle::update_price_and_apy`] does: the price feed is
    /// read first, then the yield feed.
    pub open spec fn update_price_and_apy_spec(
        header: HeaderModel,
        ledger: LedgerModel,
        asset: AssetType,
        price_feed: FeedSnapshot,
        apy_feed: FeedSnapshot,
        now: i64,
    ) -> (HeaderModel, LedgerModel, Result<(), OracleError>) {
        match Self::trusted_value(header, price_feed, now, price_confidence_bound()) {
            Err(e) => (header, ledger, Err(e)),
            Ok(price) => match Self::trusted_value(header, apy_feed, now, apy_confidence_bound()) {
                Err(e) => (header, ledger, Err(e)),
                Ok(apy) => Self::price_and_apy_written(header, ledger, asset, price, apy, now),
            },
        }
    }

    /// The registry and the ledger after the prices and yields of `result`
    /// were written one after the other, from the asset kind of ordinal
    /// `from` on, or the error of the first write that fails.
    pub open spec fn all_written_from(
        registry: RegistryModel,
        ledger: LedgerModel,
        result: MultiAssetResult,
        now: i64,
        from: int,
    ) -> Result<(RegistryModel, LedgerModel), OracleError>
        decreases 6 - from,
    {
        if from < 0 || from >= 6 {
            Ok((registry, ledger))
        } else {
            let asset = AssetType::all()[from];
            match registry.register_result(asset) {
                Err(e) => Err(OracleError::Registry(e)),
                Ok(slot) => match ledger.apply_price_and_apy_update(
                    slot,
                    result.prices@[from],
                    result.apys@[from],
                    now,
                    price_change_limit(),
                ) {
                    (_, Err(e)) => Err(OracleError::Ledger(e)),
                    (written, Ok(())) => Self::all_written_from(
                        registry.registered(asset),
                        written,
                        result,
                        now,
                        from + 1,
                    ),
                },
            }
        }
    }

    /// What [`PriceOracle::apply_multi_asset_update`] does: all six assets
    /// are written or none is.
    pub open spec fn all_written(
        header: HeaderModel,
        ledger: LedgerModel,
        result: MultiAssetResult,
        now: i64,
    ) -> (HeaderModel, LedgerModel, Result<(), OracleError>) {
        if header.emergency_stop {
            (header, ledger, Err(OracleError::Control(ControlError::Stopped)))
        } else {
            match Self::all_written_from(header.registry, ledger, result, now, 0) {
                Ok((registry, written)) => (
                    HeaderModel { last_global_update: now, registry, ..header },
                    written,
                    Ok(()),
                ),
                Err(OracleError::Ledger(e)) => (
                    header.with_stop(true),
                    ledger,
                    Err(OracleError::Ledger(e)),
                ),
                Err(e) => (header, ledger, Err(e)),
            }
        }
    }

    /// What [`PriceOracle::update_prices_and_apys`] does.
    pub open spec fn update_prices_and_apys_spec(
        header: HeaderModel,
        ledger: LedgerModel,
        feed: FeedSnapshot,
        now: i64,
    ) -> (HeaderModel, LedgerModel, Result<(), OracleError>) {
        if header.emergency_stop {
            (header, ledger, Err(OracleError::Control(ControlError::Stopped)))
        } else {
            match feed.validated(
                now,
                MAX_SWITCHBOARD_DATA_AGE,
                price_confidence_bound(),
                header.switchboard_program_id,
            ) {
                Err(e) => (header, ledger, Err(OracleError::Validation(e))),
                Ok(reading) => match packed_reading(reading) {
                    Err(e) => (header, ledger, Err(e)),
                    Ok(result) => Self::all_written(header, ledger, result, now),
                },
            }
        }
    }

    /// What [`PriceOracle::get_current_price`] returns.
    pub open spec fn current_price(header: HeaderModel, ledger: LedgerModel, asset: AssetType) -> Result<
        Fixed,
        OracleError,
    > {
        match header.registry.slot_for(asset) {
            Err(e) => Err(OracleError::Registry(e)),
            Ok(slot) => if ledger.records[slot].last_update_time == 0 {
                Err(OracleError::DataNotAvailable)
            } else {
                Ok(ledger.records[slot].price)
            },
        }
    }

    /// What [`PriceOracle::get_current_apy`] returns.
    pub open spec fn current_apy(header: HeaderModel, ledger: LedgerModel, asset: AssetType) -> Result<
        Fixed,
        OracleError,
    > {
        match header.registry.slot_for(asset) {
            Err(e) => Err(OracleError::Registry(e)),
            Ok(slot) => if ledger.records[slot].last_update_time == 0 {
                Err(OracleError::DataNotAvailable)
            } else {
                Ok(ledger.records[slot].apy)
            },
        }
    }

    /// Sets up a new oracle with the static registry: it is running, no
    /// record was ever written, and `authority` is the only identity that
    /// may set or clear the emergency stop.
    pub fn initialize(
        header: &mut PriceOracleHeader,
        data: &mut PriceOracleData,
        authority: Pubkey,
        switchboard_program_id: Pubkey,
        header_bump: u8,
        data_bump: u8,
    ) -> (r: Result<(), OracleError>)
        ensures
            r == Ok::<(), OracleError>(()),
            final(header)@ == Self::initial_header(
                authority,
                switchboard_program_id,
                header_bump,
                Self::static_registry(),
            ),
            final(header)@.wf(),
            final(data)@ == Self::initial_ledger(data_bump),
            final(data)@.non_negative(),
    {
        Self::initialize_with_registry(
            header,
            data,
            authority,
            switchboard_program_id,
            header_bump,
            data_bump,
            Registry::new_static(),
        )
    }

    /// Sets up a new oracle as [`PriceOracle::initialize`] does, with the
    /// registry that the caller has chosen.
    pub fn initialize_with_registry(
        header: &mut PriceOracleHeader,
        data: &mut PriceOracleData,
        authority: Pubkey,
        switchboard_program_id: Pubkey,
        header_bump: u8,
        data_bump: u8,
        registry: Registry,
    ) -> (r: Result<(), OracleError>)
        requires
            registry@.wf(),
        ensures
            r == Ok::<(), OracleError>(()),
            final(header)@ == Self::initial_header(
                authority,
                switchboard_program_id,
                header_bump,
                registry@,
            ),
            final(header)@.wf(),
            final(data)@ == Self::initial_ledger(data_bump),
            final(data)@.non_negative(),
    {
        header.last_global_update = 0;
        header.emergency_stop = false;
        header.authority = authority;
        header.switchboard_program_id = switchboard_program_id;
        header.bump = header_bump;
        header.registry = registry;
        *data = PriceOracleData::new(data_bump);
        Ok(())
    }

    /// The start of every write: the emergency stop, the validation of the
    /// snapshot, the decoding of its reading.
    fn read_trusted_value(
        header: &PriceOracleHeader,
        feed: &FeedSnapshot,
        now: i64,
        confidence_bound: Fixed,
    ) -> (r: Result<Fixed, OracleError>)
        ensures
            r == Self::trusted_value(header@, *feed, now, confidence_bound),
    {
        match header.check_not_stopped() {
            Err(e) => {
                return Err(OracleError::Control(e));
            },
            Ok(()) => {},
        }
        let reading = match validate(
            feed,
            now,
            MAX_SWITCHBOARD_DATA_AGE,
            confidence_bound,
            &header.switchboard_program_id,
        ) {
            Err(e) => {
                return Err(OracleError::Validation(e));
            },
            Ok(reading) => reading,
        };
        match reading.decode() {
            Err(e) => Err(OracleError::Decode(e)),
            Ok(value) => Ok(value),
        }
    }

    /// The end of a price write: the slot, the ledger, the header.
    fn write_price(
        header: &mut PriceOracleHeader,
        data: &mut PriceOracleData,
        asset: AssetType,
        price: Fixed,
        now: i64,
    ) -> (r: Result<(), OracleError>)
        requires
            old(header)@.wf(),
        ensures
            (final(header)@, final(data)@, r) == Self::price_written(
                old(header)@,
                old(data)@,
                asset,
                price,
                now,
            ),
            final(header)@.wf(),
            old(data)@.non_negative() ==> final(data)@.non_negative(),
    {
        proof {
            lemma_registered_wf(header@.registry, asset);
        }
        let slot = match header.registry.slot_to_write(asset) {
            Err(e) => {
                return Err(OracleError::Registry(e));
            },
            Ok(slot) => slot,
        };
        match data.apply_price_update(slot, price, now, Fixed { raw: PRICE_CHANGE_LIMIT }) {
            Err(e) => {
                header.trip();
                Err(OracleError::Ledger(e))
            },
            Ok(()) => {
                let _ = header.registry.register(asset);
                header.last_global_update = now;
                Ok(())
            },
        }
    }

    /// The end of a yield write: the slot, the ledger, the header.
    fn write_apy(
        header: &mut PriceOracleHeader,
        data: &mut PriceOracleData,
        asset: AssetType,
        apy: Fixed,
        now: i64,
    ) -> (r: Result<(), OracleError>)
        requires
            old(header)@.wf(),
        ensures
            (final(header)@, final(data)@, r) == Self::apy_written(
                old(header)@,
                old(data)@,
                asset,
                apy,
                now,
            ),
            final(header)@.wf(),
            old(data)@.non_negative() ==> final(data)@.non_negative(),
    {
        proof {
            lemma_registered_wf(header@.registry, asset);
        }
        let slot = match header.registry.register(asset) {
            Err(e) => {
                return Err(OracleError::Registry(e));
            },
            Ok(slot) => slot,
        };
        data.apply_apy_update(slot, apy, now);
        header.last_global_update = now;
        Ok(())
    }

    /// The end of a write of price and yield: the slot, the ledger, the
    /// header.
    fn write_price_and_apy(
        header: &mut PriceOracleHeader,
        data: &mut PriceOracleData,
        asset: AssetType,
        price: Fixed,
        apy: Fixed,
        now: i64,
    ) -> (r: Result<(), OracleError>)
        requires
            old(header)@.wf(),
        ensures
            (final(header)@, final(data)@, r) == Self::price_and_apy_written(
                old(header)@,
                old(data)@,
                asset,
                price,
                apy,
                now,
            ),
            final(header)@.wf(),
            old(data)@.non_negative() ==> final(data)@.non_negative(),
    {
        proof {
            lemma_registered_wf(header@.registry, asset);
        }
        let slot = match header.registry.slot_to_write(asset) {
            Err(e) => {
                return Err(OracleError::Registry(e));
            },
            Ok(slot) => slot,
        };
        match data.apply_price_and_apy_update(
            slot,
            price,
            apy,
            now,
            Fixed { raw: PRICE_CHANGE_LIMIT },
        ) {
            Err(e) => {
                header.trip();
                Err(OracleError::Ledger(e))
            },
            Ok(()) => {
                let _ = header.registry.register(asset);
                header.last_global_update = now;
                Ok(())
            },
        }
    }

    /// Writes the price that `feed` reports for `asset`.
    ///
    /// Fails with `Stopped` while the emergency stop is set, with the error
    /// of the validation when the snapshot is not trusted, with `NonFinite`
    /// when its reading has no value, and with `MaxAssetsReached` when the
    /// asset has no slot and none is free: in all of these nothing changes.
    /// Fails with `PriceChangeExceedsLimit` when the price is below zero or
    /// has moved too far: then the emergency stop is set, and nothing else
    /// changes. Both prices of every record stay zero or above.
    pub fn update_price(
        header: &mut PriceOracleHeader,
        data: &mut PriceOracleData,
        asset: AssetType,
        feed: &FeedSnapshot,
        now: i64,
    ) -> (r: Result<(), OracleError>)
        requires
            old(header)@.wf(),
        ensures
            (final(header)@, final(data)@, r) == Self::update_price_spec(
                old(header)@,
                old(data)@,
                asset,
                *feed,
                now,
            ),
            final(header)@.wf(),
            old(data)@.non_negative() ==> final(data)@.non_negative(),
    {
        match Self::read_trusted_value(header, feed, now, Fixed { raw: PRICE_CONFIDENCE_BOUND }) {
            Err(e) => Err(e),
            Ok(price) => Self::write_price(header, data, asset, price, now),
        }
    }

    /// Writes the yield that `feed` reports for `asset`. No limit bounds how
    /// far a yield may move.
    pub fn update_apy(
        header: &mut PriceOracleHeader,
        data: &mut PriceOracleData,
        asset: AssetType,
        feed: &FeedSnapshot,
        now: i64,
    ) -> (r: Result<(), OracleError>)
        requires
            old(header)@.wf(),
        ensures
            (final(header)@, final(data)@, r) == Self::update_apy_spec(
                old(header)@,
                old(data)@,
                asset,
                *feed,
                now,
            ),
            final(header)@.wf(),
            old(data)@.non_negative() ==> final(data)@.non_negative(),
    {
        match Self::read_trusted_value(header, feed, now, Fixed { raw: APY_CONFIDENCE_BOUND }) {
            Err(e) => Err(e),
            Ok(apy) => Self::write_apy(header, data, asset, apy, now),
        }
    }

    /// Writes the price and the yield that the two feeds report for `asset`,
    /// or neither.
    pub fn update_price_and_apy(
        header: &mut PriceOracleHeader,
        data: &mut PriceOracleData,
        asset: AssetType,
        price_feed: &FeedSnapshot,
        apy_feed: &FeedSnapshot,
        now: i64,
    ) -> (r: Result<(), OracleError>)
        requires
            old(header)@.wf(),
        ensures
            (final(header)@, final(data)@, r) == Self::update_price_and_apy_spec(
                old(header)@,
                old(data)@,
                asset,
                *price_feed,
                *apy_feed,
                now,
            ),
            final(header)@.wf(),
            old(data)@.non_negative() ==> final(data)@.non_negative(),
    {
        let price = match Self::read_trusted_value(
            header,
            price_feed,
            now,
            Fixed { raw: PRICE_CONFIDENCE_BOUND },
        ) {
            Err(e) => {
                return Err(e);
            },
            Ok(price) => price,
        };
        let apy = match Self::read_trusted_value(
            header,
            apy_feed,
            now,
            Fixed { raw: APY_CONFIDENCE_BOUND },
        ) {
            Err(e) => {
                return Err(e);
            },
            Ok(apy) => apy,
        };
        Self::write_price_and_apy(header, data, asset, price, apy, now)
    }

    /// Writes the prices and yields of the six liquid-staking tokens, or
    /// none of them.
    ///
    /// Fails with `Stopped` while the emergency stop is set and with
    /// `MaxAssetsReached` when an asset has no slot and none is free: then
    /// nothing changes. Fails with `PriceChangeExceedsLimit` when one of the
    /// prices is below zero or has moved too far: then the emergency stop is
    /// set, and nothing else changes.
    pub fn apply_multi_asset_update(
        header: &mut PriceOracleHeader,
        data: &mut PriceOracleData,
        result: &MultiAssetResult,
        now: i64,
    ) -> (r: Result<(), OracleError>)
        requires
            old(header)@.wf(),
        ensures
            (final(header)@, final(data)@, r) == Self::all_written(
                old(header)@,
                old(data)@,
                *result,
                now,
            ),
            final(header)@.wf(),
            old(data)@.non_negative() ==> final(data)@.non_negative(),
    {
        if header.emergency_stop {
            return Err(OracleError::Control(ControlError::Stopped));
        }
        // The writes are tried on a copy, which takes the place of the
        // registry and the ledger only when all of them have succeeded.
        let mut registry = header.registry.clone();
        let mut ledger = *data;
        let ghost start_header = header@;
        let ghost start_ledger = data@;
        let kinds = AssetType::iter();
        let mut next: usize = 0;
        while next < 6
            invariant
                next <= 6,
                kinds@ == AssetType::all(),
                registry@.wf(),
                header@ == start_header,
                data@ == start_ledger,
                start_header == old(header)@,
                start_ledger == old(data)@,
                start_header.wf(),
                !start_header.emergency_stop,
                start_ledger.non_negative() ==> ledger@.non_negative(),
                Self::all_written_from(registry@, ledger@, *result, now, next as int)
                    == Self::all_written_from(
                    start_header.registry,
                    start_ledger,
                    *result,
                    now,
                    0,
                ),
            decreases 6 - next,
        {
            let asset = kinds[next];
            proof {
                lemma_registered_wf(registry@, asset);
            }
            let slot = match registry.register(asset) {
                Err(e) => {
                    return Err(OracleError::Registry(e));
                },
                Ok(slot) => slot,
            };
            match ledger.apply_price_and_apy_update(
                slot,
                result.prices[next],
                result.apys[next],
                now,
                Fixed { raw: PRICE_CHANGE_LIMIT },
            ) {
                Err(e) => {
                    header.trip();
                    return Err(OracleError::Ledger(e));
                },
                Ok(()) => {},
            }
            next = next + 1;
        }
        header.registry = registry;
        *data = ledger;
        header.last_global_update = now;
        Ok(())
    }

    /// Writes the prices and yields that `feed` reports for the six
    /// liquid-staking tokens in one packed reading, or none of them.
    ///
    /// Fails as [`PriceOracle::update_price`] does, with `InvalidFeedAccount`
    /// when the reading does not hold twelve values. The reading of a feed
    /// holds one value, so this is where every call ends that gets so far: a
    /// caller that holds the packed text writes its values with
    /// [`PriceOracle::update_prices_and_apys_from_text`].
    pub fn update_prices_and_apys(
        header: &mut PriceOracleHeader,
        data: &mut PriceOracleData,
        feed: &FeedSnapshot,
        now: i64,
    ) -> (r: Result<(), OracleError>)
        requires
            old(header)@.wf(),
        ensures
            (final(header)@, final(data)@, r) == Self::update_prices_and_apys_spec(
                old(header)@,
                old(data)@,
                *feed,
                now,
            ),
            final(header)@.wf(),
            old(data)@.non_negative() ==> final(data)@.non_negative(),
    {
        match header.check_not_stopped() {
            Err(e) => {
                return Err(OracleError::Control(e));
            },
            Ok(()) => {},
        }
        let reading = match validate(
            feed,
            now,
            MAX_SWITCHBOARD_DATA_AGE,
            Fixed { raw: PRICE_CONFIDENCE_BOUND },
            &header.switchboard_program_id,
        ) {
            Err(e) => {
                return Err(OracleError::Validation(e));
            },
            Ok(reading) => reading,
        };
        assert(reading == feed.result);
        match get_multi_asset_result(feed) {
            Err(e) => Err(e),
            Ok(result) => Self::apply_multi_asset_update(header, data, &result, now),
        }
    }

    /// Writes the prices and yields that the packed text `packed` holds for
    /// the six liquid-staking tokens, or none of them. The snapshot `feed`
    /// is what the text was taken from: it is validated before the text is
    /// read.
    ///
    /// Fails with `Stopped` while the emergency stop is set, with the error
    /// of the validation when the snapshot is not trusted, with
    /// `InvalidFeedAccount` when the text does not hold twelve numbers, and
    /// with `MaxAssetsReached` when an asset has no slot and none is free:
    /// in all of these nothing changes. Fails with `PriceChangeExceedsLimit`
    /// when one of the prices is refused: then the emergency stop is set,
    /// and nothing else changes.
    pub fn update_prices_and_apys_from_text(
        header: &mut PriceOracleHeader,
        data: &mut PriceOracleData,
        feed: &FeedSnapshot,
        packed: &[u8],
        now: i64,
    ) -> (r: Result<(), OracleError>)
        requires
            old(header)@.wf(),
        ensures
            final(header)@.wf(),
            (final(header)@, final(data)@, r) == (if old(header)@.emergency_stop {
                (old(header)@, old(data)@, Err(OracleError::Control(ControlError::Stopped)))
            } else {
                match feed.validated(
                    now,
                    MAX_SWITCHBOARD_DATA_AGE,
                    price_confidence_bound(),
                    old(header)@.switchboard_program_id,
                ) {
                    Err(e) => (old(header)@, old(data)@, Err(OracleError::Validation(e))),
                    Ok(_) => match packed_result(packed@) {
                        Err(e) => (old(header)@, old(data)@, Err(e)),
                        Ok(m) => Self::all_written(old(header)@, old(data)@, m, now),
                    },
                }
            }),
            old(data)@.non_negative() ==> final(data)@.non_negative(),
    {
        match header.check_not_stopped() {
            Err(e) => {
                return Err(OracleError::Control(e));
            },
            Ok(()) => {},
        }
        match validate(
            feed,
            now,
            MAX_SWITCHBOARD_DATA_AGE,
            Fixed { raw: PRICE_CONFIDENCE_BOUND },
            &header.switchboard_program_id,
        ) {
            Err(e) => {
                return Err(OracleError::Validation(e));
            },
            Ok(_) => {},
        }
        match parse_packed_values(packed) {
            Err(e) => Err(e),
            Ok(result) => Self::apply_multi_asset_update(header, data, &result, now),
        }
    }

    /// Writes the price that `feed` reports for the base asset.
    pub fn update_sol_price(
        header: &mut PriceOracleHeader,
        data: &mut PriceOracleData,
        feed: &FeedSnapshot,
        now: i64,
    ) -> (r: Result<(), OracleError>)
        requires
            old(header)@.wf(),
        ensures
            (final(header)@, final(data)@, r) == Self::update_price_spec(
                old(header)@,
                old(data)@,
                AssetType::SOL,
                *feed,
                now,
            ),
            final(header)@.wf(),
            old(data)@.non_negative() ==> final(data)@.non_negative(),
    {
        Self::update_price(header, data, AssetType::SOL, feed, now)
    }

    /// The current price of `asset`.
    ///
    /// Fails with `AssetNotFound` when the asset has no slot, and with
    /// `DataNotAvailable` when its record was never written. The emergency
    /// stop does not matter.
    pub fn get_current_price(
        header: &PriceOracleHeader,
        data: &PriceOracleData,
        asset_type: AssetType,
    ) -> (r: Result<Fixed, OracleError>)
        requires
            header@.wf(),
        ensures
            r == Self::current_price(header@, data@, asset_type),
    {
        match header.registry.slot_for(asset_type) {
            Err(e) => Err(OracleError::Registry(e)),
            Ok(slot) => {
                let record = data.record(slot);
                if record.last_update_time == 0 {
                    Err(OracleError::DataNotAvailable)
                } else {
                    Ok(record.price)
                }
            },
        }
    }

    /// The current yield of `asset`.
    ///
    /// Fails as [`PriceOracle::get_current_price`] does.
    pub fn get_current_apy(
        header: &PriceOracleHeader,
        data: &PriceOracleData,
        asset_type: AssetType,
    ) -> (r: Result<Fixed, OracleError>)
        requires
            header@.wf(),
        ensures
            r == Self::current_apy(header@, data@, asset_type),
    {
        match header.registry.slot_for(asset_type) {
            Err(e) => Err(OracleError::Registry(e)),
            Ok(slot) => {
                let record = data.record(slot);
                if record.last_update_time == 0 {
                    Err(OracleError::DataNotAvailable)
                } else {
                    Ok(record.apy)
                }
            },
        }
    }

    /// Whether the emergency stop is set.
    pub fn is_emergency_stopped(header: &PriceOracleHeader) -> (r: bool)
        ensures
            r == header@.emergency_stop,
    {
        header.emergency_stop
    }

    /// Sets the emergency stop to `stop` on behalf of `caller`.
    ///
    /// Fails with `Unauthorized`, and changes nothing, unless `caller` is the
    /// authority of the oracle.
    pub fn set_emergency_stop(header: &mut PriceOracleHeader, stop: bool, caller: &Pubkey) -> (r:
        Result<(), OracleError>)
        ensures
            final(header)@ == old(header)@.set_emergency_stop(stop, *caller).0,
            r == match old(header)@.set_emergency_stop(stop, *caller).1 {
                Ok(()) => Ok::<(), OracleError>(()),
                Err(e) => Err::<(), OracleError>(OracleError::Control(e)),
            },
    {
        match header.set_emergency_stop(stop, caller) {
            Ok(()) => Ok(()),
            Err(e) => Err(OracleError::Control(e)),
        }
    }
}

} // verus!
