//! What holds of the oracle as a whole, proved from the definitions of its
//! operations.

use vstd::prelude::*;
use vstd::arithmetic::div_mod::lemma_fundamental_div_mod;
use crate::control::HeaderModel;
use crate::error::{ControlError, LedgerError, OracleError, RegistryError, ValidationError};
use crate::fixed::{
    decode_spec,
    lemma_feed_reading_decodable,
    lemma_pow10_positive,
    pow10,
    scaled_value,
    DecodeError,
    Fixed,
    FRACTION_DIGITS,
    MAX_SCALE,
};
use crate::identity::Pubkey;
use crate::ledger::{price_refused, LedgerModel, PriceData};
use crate::wide::magnitude;
use crate::price_oracle::{price_change_limit, PriceOracle};
use crate::registry::{lemma_all_assets, lemma_registered_wf, lemma_slot_unique, RegistryModel};
use crate::switchboard_utils::{
    commas_from,
    lemma_one_field,
    lemma_one_value_for_each_field,
    packed_reading,
    packed_result,
    packed_values,
    FeedSnapshot,
    MultiAssetResult,
    SwitchboardDecimal,
};
use crate::text::{lemma_rendered_bytes, lemma_rendered_reads_back, parse_decimal, rendered};
use crate::types::AssetType;

verus! {

/// A reading with at most nine decimal places is decoded exactly. Of a
/// reading with more, what lies beyond the ninth place is cut off: the
/// decoded value is no further from zero than the reading, on the same side
/// of it, and less than one billionth away from it.
pub proof fn law_decode_within_rounding(mantissa: int, scale: int)
    ensures
        scale <= FRACTION_DIGITS ==> scaled_value(mantissa, scale) == mantissa * pow10(
            (FRACTION_DIGITS - scale) as nat,
        ),
        scale > FRACTION_DIGITS ==> ({
            let unit = pow10((scale - FRACTION_DIGITS) as nat) as int;
            let value = scaled_value(mantissa, scale);
            &&& mantissa >= 0 ==> value >= 0
            &&& mantissa <= 0 ==> value <= 0
            &&& 0 <= magnitude(mantissa) - magnitude(value) * unit < unit
        }),
{
    if scale > FRACTION_DIGITS {
        let unit = pow10((scale - FRACTION_DIGITS) as nat) as int;
        lemma_pow10_positive((scale - FRACTION_DIGITS) as nat);
        let size = magnitude(mantissa);
        lemma_fundamental_div_mod(size, unit);
        assert(0 <= size % unit < unit) by (nonlinear_arith)
            requires
                unit > 0,
        ;
        assert(size / unit >= 0) by (nonlinear_arith)
            requires
                size >= 0,
                unit > 0,
        ;
        assert(unit * (size / unit) == (size / unit) * unit) by (nonlinear_arith);
    }
}

/// Every reading that a feed reports has a value, and that value is the
/// number of billionths in the reading, rounded toward zero: the mantissa of
/// a feed has up to 96 bits, and its scale is between zero and twenty-eight.
/// No such reading is refused, whatever its magnitude.
pub proof fn law_feed_readings_decode(mantissa: int, scale: int)
    requires
        -0x1_0000_0000_0000_0000_0000_0000 < mantissa < 0x1_0000_0000_0000_0000_0000_0000,
        0 <= scale <= MAX_SCALE,
    ensures
        decode_spec(mantissa, scale) == Ok::<Fixed, DecodeError>(
            Fixed { raw: scaled_value(mantissa, scale) as i128 },
        ),
        i128::MIN <= scaled_value(mantissa, scale) <= i128::MAX,
{
    lemma_feed_reading_decodable(mantissa, scale);
}

/// A reading whose scale lies more than twenty-eight places from zero has
/// no value, whatever its mantissa.
pub proof fn law_far_scale_refused(mantissa: int, scale: int)
    requires
        scale > MAX_SCALE || scale < -MAX_SCALE,
    ensures
        decode_spec(mantissa, scale) == Err::<Fixed, DecodeError>(DecodeError::NonFinite),
{
}

/// Registering an asset a second time returns the slot that the first call
/// returned and leaves the registry as the first call left it: the number
/// of registered assets does not grow.
pub proof fn law_registration_idempotent(registry: RegistryModel, asset: AssetType)
    requires
        registry.wf(),
    ensures
        registry.registered(asset).register_result(asset) == registry.register_result(asset),
        registry.registered(asset).registered(asset) == registry.registered(asset),
        registry.registered(asset).assets.len() == registry.registered(asset).registered(
            asset,
        ).assets.len(),
{
    lemma_registered_wf(registry, asset);
    let once = registry.registered(asset);
    if !registry.assets.contains(asset) && registry.assets.len() < registry.capacity {
        assert(once.assets[registry.assets.len() as int] == asset);
        assert(once.assets.contains(asset));
    }
}

/// While the emergency stop is set, every write fails with `Stopped` and
/// changes neither the header nor the ledger. So the stop stays set until a
/// call of `set_emergency_stop` clears it.
pub proof fn law_stopped_refuses_writes(
    header: HeaderModel,
    ledger: LedgerModel,
    asset: AssetType,
    feed: FeedSnapshot,
    second_feed: FeedSnapshot,
    now: i64,
)
    requires
        header.emergency_stop,
    ensures
        PriceOracle::update_price_spec(header, ledger, asset, feed, now) == (
            header,
            ledger,
            Err::<(), OracleError>(OracleError::Control(ControlError::Stopped)),
        ),
        PriceOracle::update_apy_spec(header, ledger, asset, feed, now) == (
            header,
            ledger,
            Err::<(), OracleError>(OracleError::Control(ControlError::Stopped)),
        ),
        PriceOracle::update_price_and_apy_spec(header, ledger, asset, feed, second_feed, now) == (
            header,
            ledger,
            Err::<(), OracleError>(OracleError::Control(ControlError::Stopped)),
        ),
{
}

/// A read returns the same whether the emergency stop is set or not.
pub proof fn law_reads_ignore_stop(
    header: HeaderModel,
    ledger: LedgerModel,
    asset: AssetType,
    stop: bool,
)
    ensures
        PriceOracle::current_price(header.with_stop(stop), ledger, asset)
            == PriceOracle::current_price(header, ledger, asset),
        PriceOracle::current_apy(header.with_stop(stop), ledger, asset) == PriceOracle::current_apy(
            header,
            ledger,
            asset,
        ),
{
}

/// A write sets the emergency stop only by failing with
/// `PriceChangeExceedsLimit`, and no write clears it.
pub proof fn law_stop_changes_only_on_breach(
    header: HeaderModel,
    ledger: LedgerModel,
    asset: AssetType,
    feed: FeedSnapshot,
    second_feed: FeedSnapshot,
    now: i64,
)
    ensures
        ({
            let (after, _, r) = PriceOracle::update_price_spec(header, ledger, asset, feed, now);
            after.emergency_stop != header.emergency_stop ==> after.emergency_stop && r == Err::<
                (),
                OracleError,
            >(OracleError::Ledger(LedgerError::PriceChangeExceedsLimit))
        }),
        ({
            let (after, _, r) = PriceOracle::update_apy_spec(header, ledger, asset, feed, now);
            after.emergency_stop == header.emergency_stop
        }),
        ({
            let (after, _, r) = PriceOracle::update_price_and_apy_spec(
                header,
                ledger,
                asset,
                feed,
                second_feed,
                now,
            );
            after.emergency_stop != header.emergency_stop ==> after.emergency_stop && r == Err::<
                (),
                OracleError,
            >(OracleError::Ledger(LedgerError::PriceChangeExceedsLimit))
        }),
{
}

/// A write that fails writes nothing to the ledger. It leaves the header as
/// it was too, unless it fails with `PriceChangeExceedsLimit`: then the
/// emergency stop is set and the rest of the header is as it was.
pub proof fn law_failed_write_changes_nothing(
    header: HeaderModel,
    ledger: LedgerModel,
    asset: AssetType,
    feed: FeedSnapshot,
    second_feed: FeedSnapshot,
    now: i64,
)
    ensures
        ({
            let (after, written, r) = PriceOracle::update_price_spec(
                header,
                ledger,
                asset,
                feed,
                now,
            );
            r is Err ==> written == ledger && after == (if r == Err::<(), OracleError>(
                OracleError::Ledger(LedgerError::PriceChangeExceedsLimit),
            ) {
                header.with_stop(true)
            } else {
                header
            })
        }),
        ({
            let (after, written, r) = PriceOracle::update_apy_spec(header, ledger, asset, feed, now);
            r is Err ==> written == ledger && after == header
        }),
        ({
            let (after, written, r) = PriceOracle::update_price_and_apy_spec(
                header,
                ledger,
                asset,
                feed,
                second_feed,
                now,
            );
            r is Err ==> written == ledger && after == (if r == Err::<(), OracleError>(
                OracleError::Ledger(LedgerError::PriceChangeExceedsLimit),
            ) {
                header.with_stop(true)
            } else {
                header
            })
        }),
{
}

/// Under the limit of the oracle a price of zero or above is refused
/// exactly when it has moved by more than a fifth of the price that it
/// follows; a price that follows none is not held against the limit.
pub proof fn law_limit_is_a_fifth(old: Fixed, new: Fixed)
    requires
        old.raw >= 0,
        new.raw >= 0,
    ensures
        price_refused(old, new, price_change_limit()) <==> old.raw > 0 && 5 * magnitude(
            new.raw - old.raw,
        ) > old.raw,
{
}

/// A record whose time of update is zero accepts any price of zero or
/// above, however large, under any limit: the price becomes the current and
/// the previous price of the record.
///
/// This holds of a ledger in which no record was written at time zero: a
/// record that was written then has a time of update of zero too, and a
/// price to hold the new one against.
pub proof fn law_first_update_accepted(
    ledger: LedgerModel,
    slot: int,
    price: Fixed,
    now: i64,
    max_relative_change: Fixed,
)
    requires
        ledger.unwritten_are_zero(),
        0 <= slot < ledger.records.len(),
        ledger.records[slot].last_update_time == 0,
        price.raw >= 0,
    ensures
        ledger.apply_price_update(slot, price, now, max_relative_change).1 == Ok::<
            (),
            LedgerError,
        >(()),
        ledger.apply_price_update(slot, price, now, max_relative_change).0.records[slot] == (
            PriceData {
                price,
                last_price: price,
                last_update_time: now,
                apy: ledger.records[slot].apy,
            }
        ),
{
}

/// The first price that a feed reports for an asset is written, however
/// large it is: when the oracle is running, the snapshot is trusted, its
/// reading has a value of zero or above and the asset has or gets a slot
/// whose time of update is zero, the write succeeds, the price is the current
/// and the previous price of the record, and the oracle keeps running.
///
/// This holds of a ledger in which no record was written at time zero.
pub proof fn law_first_price_written(
    header: HeaderModel,
    ledger: LedgerModel,
    asset: AssetType,
    feed: FeedSnapshot,
    now: i64,
)
    requires
        header.wf(),
        ledger.wf(),
        ledger.unwritten_are_zero(),
        PriceOracle::trusted_value(
            header,
            feed,
            now,
            crate::price_oracle::price_confidence_bound(),
        ) matches Ok(price) && price.raw >= 0,
        header.registry.register_result(asset) matches Ok(slot)
            && ledger.records[slot].last_update_time == 0,
    ensures
        ({
            let (after, written, r) = PriceOracle::update_price_spec(
                header,
                ledger,
                asset,
                feed,
                now,
            );
            let price = PriceOracle::trusted_value(
                header,
                feed,
                now,
                crate::price_oracle::price_confidence_bound(),
            )->Ok_0;
            let slot = header.registry.register_result(asset)->Ok_0;
            &&& r == Ok::<(), OracleError>(())
            &&& !after.emergency_stop
            &&& written.records[slot].price == price
            &&& written.records[slot].last_price == price
            &&& written.records[slot].last_update_time == now
        }),
{
    lemma_registered_wf(header.registry, asset);
}

/// No write at a time other than zero leaves a record behind that has a
/// time of update of zero and a price: a ledger in which no record was
/// written at time zero stays one.
pub proof fn law_unwritten_stay_zero(
    header: HeaderModel,
    ledger: LedgerModel,
    asset: AssetType,
    feed: FeedSnapshot,
    second_feed: FeedSnapshot,
    now: i64,
)
    requires
        header.wf(),
        ledger.wf(),
        ledger.unwritten_are_zero(),
        now != 0,
    ensures
        PriceOracle::update_price_spec(header, ledger, asset, feed, now).1.unwritten_are_zero(),
        PriceOracle::update_apy_spec(header, ledger, asset, feed, now).1.unwritten_are_zero(),
        PriceOracle::update_price_and_apy_spec(
            header,
            ledger,
            asset,
            feed,
            second_feed,
            now,
        ).1.unwritten_are_zero(),
{
    lemma_registered_wf(header.registry, asset);
}

/// In a new oracle every record is one that was never written.
pub proof fn law_new_ledger_never_written(bump: u8, slot: int)
    requires
        0 <= slot < PriceOracle::initial_ledger(bump).records.len(),
    ensures
        PriceOracle::initial_ledger(bump).records[slot] == PriceData::zeroed(),
        PriceOracle::initial_ledger(bump).wf(),
        PriceOracle::initial_ledger(bump).unwritten_are_zero(),
{
}

/// After a price write that succeeded, a read of the asset returns the
/// value that was written. After one that failed, a read returns what it
/// returned before.
///
/// The time of the write is not zero: a record written at time zero reads
/// as one that was never written.
pub proof fn law_price_round_trip(
    header: HeaderModel,
    ledger: LedgerModel,
    asset: AssetType,
    feed: FeedSnapshot,
    now: i64,
)
    requires
        header.wf(),
        ledger.wf(),
        now != 0,
    ensures
        ({
            let (after, written, r) = PriceOracle::update_price_spec(
                header,
                ledger,
                asset,
                feed,
                now,
            );
            let offered = PriceOracle::trusted_value(
                header,
                feed,
                now,
                crate::price_oracle::price_confidence_bound(),
            );
            &&& r is Ok ==> offered is Ok && PriceOracle::current_price(after, written, asset)
                == Ok::<Fixed, OracleError>(offered->Ok_0)
            &&& r is Err ==> PriceOracle::current_price(after, written, asset)
                == PriceOracle::current_price(header, ledger, asset)
        }),
{
    lemma_registered_wf(header.registry, asset);
}

/// After a yield write that succeeded, a read of the asset's yield returns
/// the value that was written; a failed one changes nothing.
///
/// The time of the write is not zero.
pub proof fn law_apy_round_trip(
    header: HeaderModel,
    ledger: LedgerModel,
    asset: AssetType,
    feed: FeedSnapshot,
    now: i64,
)
    requires
        header.wf(),
        ledger.wf(),
        now != 0,
    ensures
        ({
            let (after, written, r) = PriceOracle::update_apy_spec(header, ledger, asset, feed, now);
            let offered = PriceOracle::trusted_value(
                header,
                feed,
                now,
                crate::price_oracle::apy_confidence_bound(),
            );
            &&& r is Ok ==> offered is Ok && PriceOracle::current_apy(after, written, asset) == Ok::<
                Fixed,
                OracleError,
            >(offered->Ok_0)
            &&& r is Err ==> after == header && written == ledger
        }),
{
    lemma_registered_wf(header.registry, asset);
}

/// A call of `set_emergency_stop` by anyone but the authority fails with
/// `Unauthorized` and changes nothing; a call by the authority sets the
/// emergency stop to what was asked for and changes nothing else.
pub proof fn law_only_authority_toggles(header: HeaderModel, stop: bool, caller: Pubkey)
    ensures
        caller != header.authority ==> header.set_emergency_stop(stop, caller) == (
            header,
            Err::<(), ControlError>(ControlError::Unauthorized),
        ),
        caller == header.authority ==> header.set_emergency_stop(stop, caller) == (
            header.with_stop(stop),
            Ok::<(), ControlError>(()),
        ),
{
}

/// Whatever a feed reports, and whether a write succeeds or fails, both
/// prices of every record stay zero or above: a price below zero is never
/// written.
pub proof fn law_prices_stay_non_negative(
    header: HeaderModel,
    ledger: LedgerModel,
    asset: AssetType,
    feed: FeedSnapshot,
    second_feed: FeedSnapshot,
    now: i64,
)
    requires
        header.wf(),
        ledger.wf(),
        ledger.non_negative(),
    ensures
        PriceOracle::update_price_spec(header, ledger, asset, feed, now).1.non_negative(),
        PriceOracle::update_apy_spec(header, ledger, asset, feed, now).1.non_negative(),
        PriceOracle::update_price_and_apy_spec(
            header,
            ledger,
            asset,
            feed,
            second_feed,
            now,
        ).1.non_negative(),
{
    lemma_registered_wf(header.registry, asset);
}

/// A price below zero is refused with `PriceChangeExceedsLimit` whatever the
/// record holds and whatever the limit is, and nothing is written.
pub proof fn law_negative_price_refused(
    ledger: LedgerModel,
    slot: int,
    price: Fixed,
    apy: Fixed,
    now: i64,
    max_relative_change: Fixed,
)
    requires
        price.raw < 0,
    ensures
        ledger.apply_price_update(slot, price, now, max_relative_change) == (
            ledger,
            Err::<(), LedgerError>(LedgerError::PriceChangeExceedsLimit),
        ),
        ledger.apply_price_and_apy_update(slot, price, apy, now, max_relative_change) == (
            ledger,
            Err::<(), LedgerError>(LedgerError::PriceChangeExceedsLimit),
        ),
{
}

/// The writes of the assets from `from` on keep both prices of every record
/// zero or above.
proof fn lemma_all_written_non_negative(
    registry: RegistryModel,
    ledger: LedgerModel,
    result: MultiAssetResult,
    now: i64,
    from: int,
)
    requires
        registry.wf(),
        ledger.wf(),
        ledger.non_negative(),
        0 <= from <= 6,
        PriceOracle::all_written_from(registry, ledger, result, now, from) is Ok,
    ensures
        PriceOracle::all_written_from(registry, ledger, result, now, from)->Ok_0.1.non_negative(),
    decreases 6 - from,
{
    if from < 6 {
        let next = AssetType::all()[from];
        lemma_registered_wf(registry, next);
        let target = registry.register_result(next)->Ok_0;
        let stepped = ledger.apply_price_and_apy_update(
            target,
            result.prices@[from],
            result.apys@[from],
            now,
            price_change_limit(),
        ).0;
        lemma_all_written_non_negative(registry.registered(next), stepped, result, now, from + 1);
    }
}

/// A write of all assets keeps both prices of every record zero or above,
/// whatever the values are and whether it succeeds or fails.
pub proof fn law_all_written_non_negative(
    header: HeaderModel,
    ledger: LedgerModel,
    result: MultiAssetResult,
    now: i64,
)
    requires
        header.wf(),
        ledger.wf(),
        ledger.non_negative(),
    ensures
        PriceOracle::all_written(header, ledger, result, now).1.non_negative(),
{
    if !header.emergency_stop && PriceOracle::all_written_from(
        header.registry,
        ledger,
        result,
        now,
        0,
    ) is Ok {
        lemma_all_written_non_negative(header.registry, ledger, result, now, 0);
    }
}

/// Every write keeps the header well-formed: no asset has two slots and no
/// more than `MAX_ASSETS` are registered.
pub proof fn law_writes_keep_registry(
    header: HeaderModel,
    ledger: LedgerModel,
    asset: AssetType,
    feed: FeedSnapshot,
    second_feed: FeedSnapshot,
    now: i64,
)
    requires
        header.wf(),
        ledger.wf(),
    ensures
        PriceOracle::update_price_spec(header, ledger, asset, feed, now).0.wf(),
        PriceOracle::update_price_spec(header, ledger, asset, feed, now).1.wf(),
        PriceOracle::update_apy_spec(header, ledger, asset, feed, now).0.wf(),
        PriceOracle::update_apy_spec(header, ledger, asset, feed, now).1.wf(),
        PriceOracle::update_price_and_apy_spec(header, ledger, asset, feed, second_feed, now).0.wf(),
        PriceOracle::update_price_and_apy_spec(header, ledger, asset, feed, second_feed, now).1.wf(),
{
    lemma_registered_wf(header.registry, asset);
}

/// While the emergency stop is set, a write of all assets fails with
/// `Stopped` and changes nothing, whether its values come decoded or in a
/// feed.
pub proof fn law_stopped_refuses_all_writes(
    header: HeaderModel,
    ledger: LedgerModel,
    result: MultiAssetResult,
    feed: FeedSnapshot,
    now: i64,
)
    requires
        header.emergency_stop,
    ensures
        PriceOracle::all_written(header, ledger, result, now) == (
            header,
            ledger,
            Err::<(), OracleError>(OracleError::Control(ControlError::Stopped)),
        ),
        PriceOracle::update_prices_and_apys_spec(header, ledger, feed, now) == (
            header,
            ledger,
            Err::<(), OracleError>(OracleError::Control(ControlError::Stopped)),
        ),
{
}

/// A write of all assets that fails writes nothing: the ledger and the
/// registry stay as they were, and the header changes only in that a price
/// beyond the limit sets the emergency stop.
pub proof fn law_all_or_nothing(
    header: HeaderModel,
    ledger: LedgerModel,
    result: MultiAssetResult,
    now: i64,
)
    ensures
        ({
            let (after, written, r) = PriceOracle::all_written(header, ledger, result, now);
            r is Err ==> {
                &&& written == ledger
                &&& after == header || (after == header.with_stop(true) && r == Err::<
                    (),
                    OracleError,
                >(OracleError::Ledger(LedgerError::PriceChangeExceedsLimit)))
            }
        }),
{
}

/// The writes of the assets from `from` on keep the registry and the ledger
/// well-formed, and leave alone the slot of an asset that is registered and
/// stands before `from` in the enumeration.
proof fn lemma_later_writes_keep_slot(
    registry: RegistryModel,
    ledger: LedgerModel,
    result: MultiAssetResult,
    now: i64,
    from: int,
    asset: AssetType,
    slot: int,
)
    requires
        registry.wf(),
        ledger.wf(),
        0 <= from <= 6,
        asset.ordinal() < from,
        registry.holds_at(asset, slot),
        PriceOracle::all_written_from(registry, ledger, result, now, from) is Ok,
    ensures
        ({
            let (after, written) = PriceOracle::all_written_from(
                registry,
                ledger,
                result,
                now,
                from,
            )->Ok_0;
            &&& after.wf()
            &&& written.wf()
            &&& after.holds_at(asset, slot)
            &&& written.records[slot] == ledger.records[slot]
        }),
    decreases 6 - from,
{
    if from < 6 {
        lemma_all_assets();
        let next = AssetType::all()[from];
        assert(next.ordinal() == from) by {
            assert(AssetType::all()[next.ordinal() as int] == next);
        }
        lemma_registered_wf(registry, next);
        let target = registry.register_result(next)->Ok_0;
        let grown = registry.registered(next);
        assert(grown.holds_at(asset, slot));
        lemma_slot_unique(grown, asset, slot);
        assert(target != slot);
        let stepped = ledger.apply_price_and_apy_update(
            target,
            result.prices@[from],
            result.apys@[from],
            now,
            price_change_limit(),
        ).0;
        lemma_later_writes_keep_slot(grown, stepped, result, now, from + 1, asset, slot);
    }
}

/// Every asset of ordinal `kind`, at or after `from`, reads as written once
/// the writes from `from` on have succeeded.
proof fn lemma_writes_are_read(
    registry: RegistryModel,
    ledger: LedgerModel,
    result: MultiAssetResult,
    now: i64,
    from: int,
    kind: int,
)
    requires
        registry.wf(),
        ledger.wf(),
        0 <= from <= kind < 6,
        PriceOracle::all_written_from(registry, ledger, result, now, from) is Ok,
    ensures
        ({
            let (after, written) = PriceOracle::all_written_from(
                registry,
                ledger,
                result,
                now,
                from,
            )->Ok_0;
            let asset = AssetType::all()[kind];
            &&& after.wf()
            &&& written.wf()
            &&& after.slot_of(asset) is Some
            &&& 0 <= after.slot_of(asset)->Some_0 < written.records.len()
            &&& written.records[after.slot_of(asset)->Some_0].price == result.prices@[kind]
            &&& written.records[after.slot_of(asset)->Some_0].apy == result.apys@[kind]
            &&& written.records[after.slot_of(asset)->Some_0].last_update_time == now
        }),
    decreases 6 - from,
{
    lemma_all_assets();
    let next = AssetType::all()[from];
    assert(next.ordinal() == from) by {
        assert(AssetType::all()[next.ordinal() as int] == next);
    }
    lemma_registered_wf(registry, next);
    let target = registry.register_result(next)->Ok_0;
    let grown = registry.registered(next);
    let stepped = ledger.apply_price_and_apy_update(
        target,
        result.prices@[from],
        result.apys@[from],
        now,
        price_change_limit(),
    ).0;
    if from == kind {
        assert(grown.slot_of(next) == Some(target));
        assert(grown.holds_at(next, target));
        lemma_later_writes_keep_slot(grown, stepped, result, now, from + 1, next, target);
        let after = PriceOracle::all_written_from(grown, stepped, result, now, from + 1)->Ok_0.0;
        lemma_slot_unique(after, next, target);
    } else {
        lemma_writes_are_read(grown, stepped, result, now, from + 1, kind);
    }
}

/// The writes of the assets from `from` on, at a time other than zero,
/// leave no record behind that has a time of update of zero and a price.
proof fn lemma_all_written_unwritten_zero(
    registry: RegistryModel,
    ledger: LedgerModel,
    result: MultiAssetResult,
    now: i64,
    from: int,
)
    requires
        registry.wf(),
        ledger.wf(),
        ledger.unwritten_are_zero(),
        now != 0,
        0 <= from <= 6,
        PriceOracle::all_written_from(registry, ledger, result, now, from) is Ok,
    ensures
        PriceOracle::all_written_from(registry, ledger, result, now, from)->Ok_0.1.unwritten_are_zero(),
    decreases 6 - from,
{
    if from < 6 {
        let next = AssetType::all()[from];
        lemma_registered_wf(registry, next);
        let target = registry.register_result(next)->Ok_0;
        let stepped = ledger.apply_price_and_apy_update(
            target,
            result.prices@[from],
            result.apys@[from],
            now,
            price_change_limit(),
        ).0;
        lemma_all_written_unwritten_zero(
            registry.registered(next),
            stepped,
            result,
            now,
            from + 1,
        );
    }
}

/// A write of all assets at a time other than zero keeps a ledger one in
/// which no record was written at time zero.
pub proof fn law_all_written_unwritten_stay_zero(
    header: HeaderModel,
    ledger: LedgerModel,
    result: MultiAssetResult,
    now: i64,
)
    requires
        header.wf(),
        ledger.wf(),
        ledger.unwritten_are_zero(),
        now != 0,
    ensures
        PriceOracle::all_written(header, ledger, result, now).1.unwritten_are_zero(),
{
    if !header.emergency_stop && PriceOracle::all_written_from(
        header.registry,
        ledger,
        result,
        now,
        0,
    ) is Ok {
        lemma_all_written_unwritten_zero(header.registry, ledger, result, now, 0);
    }
}

/// After a write of all assets that succeeded at a time other than zero,
/// each of the six liquid-staking tokens reads as it was written, and the
/// header is well-formed.
pub proof fn law_all_written_round_trip(
    header: HeaderModel,
    ledger: LedgerModel,
    result: MultiAssetResult,
    now: i64,
    kind: int,
)
    requires
        header.wf(),
        ledger.wf(),
        now != 0,
        0 <= kind < 6,
        PriceOracle::all_written(header, ledger, result, now).2 is Ok,
    ensures
        ({
            let (after, written, _) = PriceOracle::all_written(header, ledger, result, now);
            let asset = AssetType::all()[kind];
            &&& after.wf()
            &&& written.wf()
            &&& PriceOracle::current_price(after, written, asset) == Ok::<Fixed, OracleError>(
                result.prices@[kind],
            )
            &&& PriceOracle::current_apy(after, written, asset) == Ok::<Fixed, OracleError>(
                result.apys@[kind],
            )
        }),
{
    lemma_writes_are_read(header.registry, ledger, result, now, 0, kind);
}

/// What is written of a value reads back as that value.
pub proof fn law_written_value_reads_back(value: Fixed)
    ensures
        parse_decimal(rendered(value)) == Some(value),
{
    lemma_rendered_reads_back(value);
}

/// Whether the records that the liquid-staking tokens from the ordinal
/// `from` on have, or would get, hold no price: the record of each such
/// token that is registered, and every record that no asset has yet.
pub open spec fn awaits_first_prices(registry: RegistryModel, ledger: LedgerModel, from: int) -> bool {
    &&& forall|asset: AssetType, slot: int|
        #[trigger] registry.holds_at(asset, slot) && from <= asset.ordinal() < 6
            ==> ledger.records[slot].price.raw == 0
    &&& forall|slot: int|
        registry.assets.len() <= slot < ledger.records.len() ==> (
        #[trigger] ledger.records[slot]).price.raw == 0
}

/// Whether the records that the six liquid-staking tokens have, or would
/// get, were never written: their time of update is zero.
pub open spec fn tokens_never_written(registry: RegistryModel, ledger: LedgerModel) -> bool {
    &&& forall|asset: AssetType, slot: int|
        #[trigger] registry.holds_at(asset, slot) && asset.ordinal() < 6
            ==> ledger.records[slot].last_update_time == 0
    &&& forall|slot: int|
        registry.assets.len() <= slot < ledger.records.len() ==> (
        #[trigger] ledger.records[slot]).last_update_time == 0
}

/// Prices of zero or above are written to records that hold no price yet,
/// whatever the prices are: the writes from `from` on fail only for want of
/// a slot, and never with a static registry.
proof fn lemma_first_prices_written(
    registry: RegistryModel,
    ledger: LedgerModel,
    result: MultiAssetResult,
    now: i64,
    from: int,
)
    requires
        registry.wf(),
        ledger.wf(),
        0 <= from <= 6,
        awaits_first_prices(registry, ledger, from),
        forall|kind: int| from <= kind < 6 ==> result.prices@[kind].raw >= 0,
    ensures
        PriceOracle::all_written_from(registry, ledger, result, now, from) matches Err(e) ==> e
            == OracleError::Registry(RegistryError::MaxAssetsReached) && registry.dynamic,
    decreases 6 - from,
{
    if from < 6 {
        lemma_all_assets();
        let next = AssetType::all()[from];
        assert(next.ordinal() == from) by {
            assert(AssetType::all()[next.ordinal() as int] == next);
        }
        lemma_registered_wf(registry, next);
        if registry.register_result(next) is Ok {
            let target = registry.register_result(next)->Ok_0;
            let grown = registry.registered(next);
            if registry.assets.contains(next) {
                assert(registry.holds_at(next, target));
            }
            assert(ledger.records[target].price.raw == 0);
            let stepped = ledger.apply_price_and_apy_update(
                target,
                result.prices@[from],
                result.apys@[from],
                now,
                price_change_limit(),
            ).0;
            assert(grown.assets.contains(next));
            assert(grown.holds_at(next, target));
            assert forall|asset: AssetType, slot: int|
                #[trigger] grown.holds_at(asset, slot) && from + 1 <= asset.ordinal()
                    < 6 implies stepped.records[slot].price.raw == 0 by {
                assert(asset != next);
                assert(slot != target);
                if slot < registry.assets.len() {
                    assert(registry.holds_at(asset, slot));
                }
            }
            assert forall|slot: int|
                grown.assets.len() <= slot < stepped.records.len() implies (
            #[trigger] stepped.records[slot]).price.raw == 0 by {
                assert(ledger.records[slot].price.raw == 0);
            }
            lemma_first_prices_written(grown, stepped, result, now, from + 1);
        }
    }
}

/// A write of all six liquid-staking tokens to records that were never
/// written accepts any prices of zero or above, however large: no price is
/// held against a limit, and the oracle keeps running. With the static
/// registry the write succeeds; with a dynamic one it can fail only with
/// `MaxAssetsReached`.
///
/// This holds of a ledger in which no record was written at time zero.
pub proof fn law_first_prices_all_written(
    header: HeaderModel,
    ledger: LedgerModel,
    result: MultiAssetResult,
    now: i64,
)
    requires
        header.wf(),
        ledger.wf(),
        ledger.unwritten_are_zero(),
        !header.emergency_stop,
        tokens_never_written(header.registry, ledger),
        forall|kind: int| 0 <= kind < 6 ==> result.prices@[kind].raw >= 0,
    ensures
        ({
            let (after, written, r) = PriceOracle::all_written(header, ledger, result, now);
            &&& !after.emergency_stop
            &&& r == Ok::<(), OracleError>(()) || (header.registry.dynamic && r == Err::<
                (),
                OracleError,
            >(OracleError::Registry(RegistryError::MaxAssetsReached)))
        }),
{
    assert(awaits_first_prices(header.registry, ledger, 0)) by {
        assert forall|asset: AssetType, slot: int|
            #[trigger] header.registry.holds_at(asset, slot) && 0 <= asset.ordinal()
                < 6 implies ledger.records[slot].price.raw == 0 by {
            assert(ledger.records[slot].last_update_time == 0);
        }
    }
    lemma_first_prices_written(header.registry, ledger, result, now, 0);
}

/// A packed text decodes only when it has exactly twelve fields, that is
/// eleven commas, and each field spells a number; each value then stands at
/// the position of its field.
pub proof fn law_packed_text_fixed_positions(text: Seq<u8>)
    ensures
        packed_result(text) is Ok ==> commas_from(text, 0) == 11,
        packed_result(text) is Ok <==> (packed_values(text) matches Some(values) && values.len()
            == 12),
        packed_result(text) is Err ==> packed_result(text) == Err::<MultiAssetResult, OracleError>(
            OracleError::Validation(ValidationError::InvalidFeedAccount),
        ),
{
    lemma_one_value_for_each_field(text, 0, 0);
}

/// A reading that holds one value is no packed reading: what is written of
/// its value holds no comma, so it has one field and not twelve. A write of
/// all assets from the reading of a feed therefore fails, whatever the feed
/// reports.
pub proof fn law_single_reading_is_not_packed(
    decimal: SwitchboardDecimal,
    header: HeaderModel,
    ledger: LedgerModel,
    feed: FeedSnapshot,
    now: i64,
)
    ensures
        decimal.decoded() matches Ok(value) ==> packed_result(rendered(value)) == Err::<
            MultiAssetResult,
            OracleError,
        >(OracleError::Validation(ValidationError::InvalidFeedAccount)),
        packed_reading(decimal) is Err,
        PriceOracle::update_prices_and_apys_spec(header, ledger, feed, now).2 is Err,
{
    if decimal.decoded() is Ok {
        let value = decimal.decoded()->Ok_0;
        lemma_rendered_bytes(value);
        lemma_one_field(rendered(value), 0, 0);
    }
}

} // verus!
