use oracles::config::{
    EMERGENCY_STOP_THRESHOLD, HEDGE_STRATEGY_TRANSFER_LIMIT, NEW_ASSET_ACTIVATION_DELAY,
    PRICE_CHANGE_LIMIT, PRICE_UPDATE_INTERVAL, XXUSD_PRICE_EMERGENCY_THRESHOLD,
};
use oracles::error::{LedgerError, RegistryError};
use oracles::fixed::{Fixed, ONE};
use oracles::identity::Pubkey;
use oracles::ledger::{exceeds_limit, PriceData, PriceOracleData, MAX_ASSETS};
use oracles::registry::Registry;
use oracles::types::{AssetType, AssetTypeWrapper, ASSET_KINDS};

const ALL: [AssetType; 7] = [
    AssetType::JupSOL,
    AssetType::VSOL,
    AssetType::BSOL,
    AssetType::MSOL,
    AssetType::HSOL,
    AssetType::JitoSOL,
    AssetType::SOL,
];

#[test]
fn test_constants() {
    let as_number = |raw: i128| raw as f64 / ONE as f64;
    let price_change_limit = as_number(PRICE_CHANGE_LIMIT);
    let hedge_strategy_transfer_limit = as_number(HEDGE_STRATEGY_TRANSFER_LIMIT);
    let xxusd_price_emergency_threshold = as_number(XXUSD_PRICE_EMERGENCY_THRESHOLD);
    assert!(price_change_limit > 0.0 && price_change_limit < 1.0);
    assert!(hedge_strategy_transfer_limit > 0.0 && hedge_strategy_transfer_limit < 1.0);
    assert!(xxusd_price_emergency_threshold > 0.0 && xxusd_price_emergency_threshold < 1.0);
    assert!(NEW_ASSET_ACTIVATION_DELAY > 0);
}

#[test]
fn the_thresholds_have_their_values() {
    let as_number = |raw: i128| raw as f64 / ONE as f64;
    assert_eq!(as_number(PRICE_CHANGE_LIMIT), 0.20);
    assert_eq!(as_number(HEDGE_STRATEGY_TRANSFER_LIMIT), 0.25);
    assert_eq!(as_number(XXUSD_PRICE_EMERGENCY_THRESHOLD), 0.94);
    assert_eq!(NEW_ASSET_ACTIVATION_DELAY, 7 * 24 * 60 * 60);
    assert_eq!(PRICE_UPDATE_INTERVAL, 300);
    assert_eq!(EMERGENCY_STOP_THRESHOLD, 10000);
}

#[test]
fn asset_kinds_keep_their_ordinals() {
    assert_eq!(ASSET_KINDS, 7);
    assert_eq!(AssetType::iter(), ALL);
    for (i, asset) in ALL.into_iter().enumerate() {
        assert_eq!(asset.index(), i);
        assert_eq!(AssetType::from_index(i), Some(asset));
    }
    assert_eq!(AssetType::from_index(7), None);
    assert_eq!(AssetType::from_index(usize::MAX), None);
}

#[test]
fn a_wrapper_holds_its_asset_kind() {
    assert_eq!(AssetTypeWrapper::new(AssetType::MSOL).get(), AssetType::MSOL);
    assert_eq!(AssetTypeWrapper::default().get(), AssetType::SOL);
    assert_eq!(AssetTypeWrapper::from(AssetType::BSOL).get(), AssetType::BSOL);
    let wrapper: AssetTypeWrapper = AssetType::HSOL.into();
    assert_eq!(wrapper, AssetTypeWrapper { asset_type: AssetType::HSOL });
}

#[test]
fn identities_are_equal_when_their_bytes_are() {
    let mut bytes = [7u8; 32];
    let a = Pubkey::new(bytes);
    assert!(a == Pubkey { bytes });
    for i in 0..32 {
        bytes[i] = 8;
        assert!(a != Pubkey::new(bytes), "{i}");
        bytes[i] = 7;
    }
    assert!(a == Pubkey::new(bytes));
}

#[test]
fn the_static_registry_holds_every_kind_at_its_ordinal() {
    let mut registry = Registry::new_static();
    assert_eq!(registry.asset_count(), 7);
    for (i, asset) in ALL.into_iter().enumerate() {
        assert_eq!(registry.slot_for(asset), Ok(i));
        assert_eq!(registry.slot_to_write(asset), Ok(i));
        assert_eq!(registry.register(asset), Ok(i));
        assert_eq!(registry.asset_count(), 7);
    }
}

#[test]
fn registering_twice_gives_the_same_slot() {
    let mut registry = Registry::new_dynamic(MAX_ASSETS);
    assert_eq!(registry.asset_count(), 0);
    assert_eq!(registry.slot_for(AssetType::SOL), Err(RegistryError::AssetNotFound));
    assert_eq!(registry.slot_to_write(AssetType::SOL), Ok(0));
    assert_eq!(registry.asset_count(), 0);
    assert_eq!(registry.register(AssetType::SOL), Ok(0));
    assert_eq!(registry.asset_count(), 1);
    assert_eq!(registry.register(AssetType::SOL), Ok(0));
    assert_eq!(registry.asset_count(), 1);
    assert_eq!(registry.register(AssetType::BSOL), Ok(1));
    assert_eq!(registry.register(AssetType::SOL), Ok(0));
    assert_eq!(registry.register(AssetType::BSOL), Ok(1));
    assert_eq!(registry.asset_count(), 2);
    assert_eq!(registry.slot_for(AssetType::SOL), Ok(0));
    assert_eq!(registry.slot_for(AssetType::BSOL), Ok(1));
    assert_eq!(registry.slot_for(AssetType::MSOL), Err(RegistryError::AssetNotFound));
}

#[test]
fn a_full_registry_refuses_a_new_asset_and_keeps_the_old() {
    let mut registry = Registry::new_dynamic(2);
    assert_eq!(registry.register(AssetType::HSOL), Ok(0));
    assert_eq!(registry.register(AssetType::VSOL), Ok(1));
    assert_eq!(registry.slot_to_write(AssetType::SOL), Err(RegistryError::MaxAssetsReached));
    assert_eq!(registry.register(AssetType::SOL), Err(RegistryError::MaxAssetsReached));
    assert_eq!(registry.register(AssetType::SOL), Err(RegistryError::MaxAssetsReached));
    assert_eq!(registry.asset_count(), 2);
    assert_eq!(registry.register(AssetType::HSOL), Ok(0));
    assert_eq!(registry.register(AssetType::VSOL), Ok(1));
    assert_eq!(registry.slot_for(AssetType::SOL), Err(RegistryError::AssetNotFound));

    let mut none = Registry::new_dynamic(0);
    assert_eq!(none.register(AssetType::SOL), Err(RegistryError::MaxAssetsReached));
    assert_eq!(none.asset_count(), 0);
}

#[test]
fn a_registry_knows_its_kind_and_its_capacity() {
    assert!(!Registry::new_static().is_dynamic());
    assert_eq!(Registry::new_static().capacity(), 7);
    assert!(Registry::new_dynamic(4).is_dynamic());
    assert_eq!(Registry::new_dynamic(4).capacity(), 4);
    assert_eq!(Registry::new_dynamic(0).capacity(), 0);
    assert_eq!(Registry::new_dynamic(10).capacity(), 10);
    assert_eq!(Registry::new_dynamic(11).capacity(), 10);
}

#[test]
fn a_capacity_above_the_maximum_is_cut() {
    let mut registry = Registry::new_dynamic(usize::MAX);
    for (i, asset) in ALL.into_iter().enumerate() {
        assert_eq!(registry.register(asset), Ok(i));
    }
    assert_eq!(registry.asset_count(), 7);
    assert_eq!(MAX_ASSETS, 10);
}

#[test]
fn a_copy_of_a_registry_holds_the_same_assets() {
    let mut registry = Registry::new_dynamic(3);
    registry.register(AssetType::MSOL).unwrap();
    registry.register(AssetType::SOL).unwrap();
    let mut copy = registry.clone();
    assert_eq!(copy.asset_count(), 2);
    assert_eq!(copy.slot_for(AssetType::MSOL), Ok(0));
    assert_eq!(copy.slot_for(AssetType::SOL), Ok(1));
    assert_eq!(copy.register(AssetType::BSOL), Ok(2));
    assert_eq!(copy.register(AssetType::HSOL), Err(RegistryError::MaxAssetsReached));
    assert_eq!(registry.asset_count(), 2);
    assert_eq!(Registry::new_static().clone().slot_for(AssetType::SOL), Ok(6));
}

fn fixed(units: i128) -> Fixed {
    Fixed { raw: units * ONE }
}

#[test]
fn the_limit_is_held_against_the_old_price() {
    let limit = Fixed { raw: PRICE_CHANGE_LIMIT };
    assert!(exceeds_limit(fixed(100), fixed(121), limit));
    assert!(!exceeds_limit(fixed(100), fixed(119), limit));
    assert!(!exceeds_limit(fixed(100), fixed(120), limit));
    assert!(exceeds_limit(fixed(100), Fixed { raw: 120 * ONE + 1 }, limit));
    assert!(!exceeds_limit(fixed(100), fixed(80), limit));
    assert!(exceeds_limit(fixed(100), Fixed { raw: 80 * ONE - 1 }, limit));
    assert!(!exceeds_limit(fixed(0), fixed(1_000_000), limit));
    assert!(!exceeds_limit(fixed(0), fixed(-1_000_000), limit));
    assert!(!exceeds_limit(fixed(-100), fixed(500), limit));
    assert!(exceeds_limit(Fixed { raw: 1 }, Fixed { raw: i64::MAX as i128 }, Fixed { raw: i64::MAX as i128 }));
    assert!(!exceeds_limit(Fixed { raw: i64::MAX as i128 }, Fixed { raw: i64::MIN as i128 }, fixed(3)));
    assert!(exceeds_limit(Fixed { raw: i64::MAX as i128 }, Fixed { raw: i64::MIN as i128 }, fixed(2)));
    assert!(!exceeds_limit(Fixed { raw: i64::MAX as i128 }, Fixed { raw: -(i64::MAX as i128) }, fixed(2)));
    assert!(exceeds_limit(Fixed { raw: 1 }, Fixed { raw: i128::MAX }, Fixed { raw: i128::MAX }));
    assert!(!exceeds_limit(Fixed { raw: i128::MAX }, Fixed { raw: i128::MIN }, fixed(3)));
    assert!(exceeds_limit(Fixed { raw: i128::MAX }, Fixed { raw: i128::MIN }, fixed(2)));
    assert!(!exceeds_limit(Fixed { raw: i128::MAX }, Fixed { raw: -i128::MAX }, fixed(2)));
    assert!(exceeds_limit(Fixed { raw: i128::MAX }, Fixed { raw: -i128::MAX }, Fixed { raw: 2 * ONE - 1 }));
    assert!(exceeds_limit(Fixed { raw: i128::MIN }, Fixed { raw: i128::MAX }, Fixed { raw: i128::MIN }));
    assert!(!exceeds_limit(Fixed { raw: i128::MIN }, Fixed { raw: i128::MAX }, Fixed { raw: -1 }));
    assert!(exceeds_limit(
        fixed(1_000_000_000_000),
        fixed(1_200_000_000_001),
        Fixed { raw: PRICE_CHANGE_LIMIT }
    ));
    assert!(!exceeds_limit(
        fixed(1_000_000_000_000),
        fixed(1_200_000_000_000),
        Fixed { raw: PRICE_CHANGE_LIMIT }
    ));
    assert!(exceeds_limit(fixed(100), fixed(100), Fixed { raw: -1 }));
    assert!(exceeds_limit(fixed(-100), fixed(-100), Fixed { raw: -1 }));
    assert!(!exceeds_limit(fixed(-100), fixed(-300), fixed(-1)));
    assert!(exceeds_limit(fixed(-100), fixed(-150), fixed(-1)));
}

#[test]
fn the_ledger_writes_one_record_and_leaves_the_others() {
    let limit = Fixed { raw: PRICE_CHANGE_LIMIT };
    let mut data = PriceOracleData::new(3);
    assert_eq!(data.bump, 3);
    assert_eq!(data.record(9), PriceData::default());
    assert_eq!(data.apply_price_update(9, fixed(50), 10, limit), Ok(()));
    assert_eq!(
        data.record(9),
        PriceData { price: fixed(50), last_price: fixed(50), last_update_time: 10, apy: fixed(0) }
    );
    data.apply_apy_update(9, fixed(2), 11);
    assert_eq!(data.apply_price_update(9, fixed(55), 12, limit), Ok(()));
    assert_eq!(
        data.record(9),
        PriceData { price: fixed(55), last_price: fixed(50), last_update_time: 12, apy: fixed(2) }
    );
    assert_eq!(
        data.apply_price_update(9, fixed(70), 13, limit),
        Err(LedgerError::PriceChangeExceedsLimit)
    );
    assert_eq!(
        data.apply_price_and_apy_update(9, fixed(70), fixed(9), 13, limit),
        Err(LedgerError::PriceChangeExceedsLimit)
    );
    assert_eq!(data.record(9).apy, fixed(2));
    assert_eq!(data.record(9).last_update_time, 12);
    assert_eq!(data.apply_price_and_apy_update(9, fixed(70), fixed(9), 14, fixed(1)), Ok(()));
    assert_eq!(
        data.record(9),
        PriceData { price: fixed(70), last_price: fixed(55), last_update_time: 14, apy: fixed(9) }
    );
    for slot in 0..9 {
        assert_eq!(data.record(slot), PriceData::default());
    }
    assert_eq!(data.bump, 3);
}
