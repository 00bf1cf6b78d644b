use oracles::envelope::{parse_price_envelope, price_from_field};
use oracles::error::{OracleError, ValidationError};
use oracles::fixed::{DecodeError, Fixed, ONE};
use oracles::identity::Pubkey;
use oracles::switchboard_utils::{
    get_multi_asset_result, get_sol_price, get_switchboard_result, parse_multi_asset_data,
    parse_packed_values, parse_sol_price, read_packed_values, switchboard_decimal_to_result,
    switchboard_decimal_to_string, validate, FeedSnapshot, SwitchboardDecimal, SwitchboardResult,
};

fn as_float(value: Fixed) -> f64 {
    value.raw as f64 / ONE as f64
}

fn key(byte: u8) -> Pubkey {
    Pubkey::new([byte; 32])
}

fn snapshot(mantissa: i128, scale: u32) -> FeedSnapshot {
    FeedSnapshot {
        result: SwitchboardDecimal { mantissa, scale },
        timestamp: 1_000,
        owner: key(7),
        std_deviation: SwitchboardDecimal { mantissa: 5, scale: 1 },
    }
}

const MALFORMED: OracleError = OracleError::Validation(ValidationError::InvalidFeedAccount);

#[test]
fn test_switchboard_decimal_to_result() {
    let decimal = SwitchboardDecimal {
        mantissa: 12340000,
        scale: 5,
    };
    let result = switchboard_decimal_to_result(&decimal).unwrap();
    assert_eq!(as_float(result.value), 123.4);

    let invalid_decimal = SwitchboardDecimal {
        mantissa: i128::MAX,
        scale: u32::MAX,
    };
    assert!(switchboard_decimal_to_result(&invalid_decimal).is_err());
}

#[test]
fn test_parse_sol_price() {
    let decimal = SwitchboardDecimal {
        mantissa: 15610523850000000000000000000,
        scale: 26,
    };
    let result = parse_sol_price(&decimal).unwrap();
    assert_eq!(as_float(result.value), 156.10523850000000000000000000);
}

#[test]
fn test_parse_multi_asset_data() {
    // One reading holds one value: its text is one field, not twelve.
    let decimal = SwitchboardDecimal {
        mantissa: 8114553583522887934,
        scale: 17,
    };
    assert_eq!(parse_multi_asset_data(&decimal).err(), Some(MALFORMED));
    // The twelve values arrive as a packed text.
    let result =
        parse_packed_values(b"81.1,0.07,82.2,0.06,83.3,0.05,84.4,0.04,85.5,0.03,86.6,0.02")
            .unwrap();
    assert_eq!(result.prices.len(), 6);
    assert_eq!(result.apys.len(), 6);
    assert_eq!(result.prices[0], Fixed { raw: 81_100_000_000 });
    assert_eq!(result.apys[5], Fixed { raw: 20_000_000 });
}

#[test]
fn a_single_reading_is_no_packed_reading() {
    let decimal = SwitchboardDecimal {
        mantissa: 8114553583522887934,
        scale: 17,
    };
    assert_eq!(parse_multi_asset_data(&decimal).err(), Some(MALFORMED));
    assert_eq!(
        get_multi_asset_result(&snapshot(8114553583522887934, 17)).err(),
        Some(MALFORMED)
    );
}

#[test]
fn a_packed_reading_without_a_value_is_refused_as_such() {
    let decimal = SwitchboardDecimal {
        mantissa: 1,
        scale: 40,
    };
    assert_eq!(
        parse_multi_asset_data(&decimal).err(),
        Some(OracleError::Decode(DecodeError::NonFinite))
    );
}

#[test]
fn switchboard_result_holds_its_value() {
    assert_eq!(SwitchboardResult::new(Fixed { raw: 5 }).value, Fixed { raw: 5 });
}

#[test]
fn feed_readings_decode_as_their_decimals_do() {
    let feed = snapshot(12340000, 5);
    assert_eq!(
        get_switchboard_result(&feed),
        Ok(SwitchboardResult { value: Fixed { raw: 123_400_000_000 } })
    );
    assert_eq!(get_sol_price(&feed), get_switchboard_result(&feed));
    let broken = snapshot(1, 29);
    assert_eq!(
        get_switchboard_result(&broken),
        Err(OracleError::Decode(DecodeError::NonFinite))
    );
    assert_eq!(get_sol_price(&broken), Err(OracleError::Decode(DecodeError::NonFinite)));
}

#[test]
fn readings_are_written_as_short_decimals() {
    let text = |mantissa: i128, scale: u32| {
        String::from_utf8(
            switchboard_decimal_to_string(&SwitchboardDecimal { mantissa, scale }).unwrap(),
        )
        .unwrap()
    };
    assert_eq!(text(12340000, 5), "123.4");
    assert_eq!(text(15610523850000000000000000000, 26), "156.1052385");
    assert_eq!(text(8114553583522887934, 17), "81.145535835");
    assert_eq!(text(0, 0), "0");
    assert_eq!(text(-5, 1), "-0.5");
    assert_eq!(text(7, 0), "7");
    assert_eq!(text(1, 9), "0.000000001");
    assert_eq!(text(-1_000_000_001, 9), "-1.000000001");
    assert_eq!(text(120, 1), "12");
    assert_eq!(text(i64::MAX as i128, 9), "9223372036.854775807");
    assert_eq!(text(i64::MIN as i128, 9), "-9223372036.854775808");
    assert_eq!(text(1_000_000_000_000, 0), "1000000000000");
    assert_eq!(
        text(79_228_162_514_264_337_593_543_950_335, 0),
        "79228162514264337593543950335"
    );
    assert_eq!(
        text(79_228_162_514_264_337_593_543_950_335, 28),
        "7.922816251"
    );
    assert_eq!(
        switchboard_decimal_to_string(&SwitchboardDecimal { mantissa: 1, scale: 29 }),
        Err(OracleError::Decode(DecodeError::NonFinite))
    );
}

#[test]
fn twelve_packed_values_are_prices_and_yields_in_turn() {
    let result =
        parse_packed_values(b"1, 0.01, 2, 0.02, 3, 0.03, 4, 0.04, 5, 0.05, 6, 0.06").unwrap();
    assert_eq!(result.prices.len(), 6);
    assert_eq!(result.apys.len(), 6);
    for i in 0..6 {
        assert_eq!(result.prices[i], Fixed { raw: (i as i128 + 1) * ONE });
        assert_eq!(result.apys[i], Fixed { raw: (i as i128 + 1) * 10_000_000 });
    }
}

#[test]
fn a_field_that_spells_no_number_leaves_a_text_without_values() {
    assert_eq!(
        read_packed_values(b" 1.5 ,\t-2\n,+4."),
        Some(vec![
            Fixed { raw: 1_500_000_000 },
            Fixed { raw: -2_000_000_000 },
            Fixed { raw: 4_000_000_000 }
        ])
    );
    assert_eq!(read_packed_values(b" 1.5 ,x,\t-2\n,+4."), None);
    assert_eq!(read_packed_values(b"1,,2"), None);
    assert_eq!(read_packed_values(b"1, 3e5 ,2"), None);
    assert_eq!(read_packed_values(b""), None);
    assert_eq!(read_packed_values(b","), None);
    assert_eq!(read_packed_values(b"7"), Some(vec![Fixed { raw: 7 * ONE }]));
    assert_eq!(read_packed_values(b"7,"), None);
    assert_eq!(read_packed_values(b",7"), None);
}

#[test]
fn packed_values_that_are_not_twelve_are_refused() {
    assert_eq!(parse_packed_values(b"").err(), Some(MALFORMED));
    assert_eq!(
        parse_packed_values(b"1,2,3,4,5,6,7,8,9,10,11").err(),
        Some(MALFORMED)
    );
    assert_eq!(
        parse_packed_values(b"1,2,3,4,5,6,7,8,9,10,11,12,13").err(),
        Some(MALFORMED)
    );
    assert_eq!(
        parse_packed_values(b"1,2,3,4,5,6,7,8,9,10,11,twelve").err(),
        Some(MALFORMED)
    );
    assert!(parse_packed_values(b"1,2,3,4,5,6,7,8,9,10,11,12").is_ok());
}

#[test]
fn no_packed_value_is_taken_from_another_position() {
    // Thirteen fields of which twelve spell a number.
    assert_eq!(
        parse_packed_values(b"x,1,2,3,4,5,6,7,8,9,10,11,12").err(),
        Some(MALFORMED)
    );
    assert_eq!(
        parse_packed_values(b"1,2,3,4,5,6,7,8,9,10,11,x,12").err(),
        Some(MALFORMED)
    );
    // Twelve fields of which one spells none.
    assert_eq!(
        parse_packed_values(b"1,2,3,4,5,,7,8,9,10,11,12").err(),
        Some(MALFORMED)
    );
    assert_eq!(
        parse_packed_values(b"1,2,3,4,5,6,7,8,9,10,11,12,").err(),
        Some(MALFORMED)
    );
}

#[test]
fn packed_values_may_be_large() {
    let result =
        parse_packed_values(b"10000000000,1,2,3,4,5,6,7,8,9,1000000000000,0.5").unwrap();
    assert_eq!(result.prices[0], Fixed { raw: 10_000_000_000 * ONE });
    assert_eq!(result.apys[0], Fixed { raw: ONE });
    assert_eq!(result.prices[5], Fixed { raw: 1_000_000_000_000 * ONE });
    assert_eq!(result.apys[5], Fixed { raw: 500_000_000 });
}

#[test]
fn an_envelope_holds_its_price_in_the_member_result() {
    assert_eq!(
        parse_price_envelope(br#"{"result": "156.1052385"}"#),
        Ok(SwitchboardResult { value: Fixed { raw: 156_105_238_500 } })
    );
    assert_eq!(
        parse_price_envelope(br#" { "other": 1, "result": "-0.5" } "#),
        Ok(SwitchboardResult { value: Fixed { raw: -500_000_000 } })
    );
}

#[test]
fn an_envelope_without_a_price_is_refused() {
    assert_eq!(parse_price_envelope(b"156.1052385"), Err(MALFORMED));
    assert_eq!(parse_price_envelope(br#"{"result": 156.1}"#), Err(MALFORMED));
    assert_eq!(parse_price_envelope(br#"{"price": "156.1"}"#), Err(MALFORMED));
    assert_eq!(parse_price_envelope(br#"{"result": "abc"}"#), Err(MALFORMED));
    assert_eq!(parse_price_envelope(br#"{"result": "1" "#), Err(MALFORMED));
    assert_eq!(parse_price_envelope(br#"["result"]"#), Err(MALFORMED));
    assert_eq!(parse_price_envelope(b""), Err(MALFORMED));
    assert_eq!(
        parse_price_envelope(br#"{"result": "99999999999999999999999999999999999999999"}"#),
        Err(MALFORMED)
    );
}

#[test]
fn the_member_of_an_envelope_is_read_as_a_number() {
    assert_eq!(
        price_from_field(Some(b"2.5".to_vec())),
        Ok(SwitchboardResult { value: Fixed { raw: 2_500_000_000 } })
    );
    assert_eq!(price_from_field(Some(b" 2.5".to_vec())), Err(MALFORMED));
    assert_eq!(price_from_field(None), Err(MALFORMED));
}

#[test]
fn validation_returns_the_reading_unchanged() {
    let feed = snapshot(12345, 2);
    assert_eq!(
        validate(&feed, 1_300, 300, Fixed { raw: 800_000_000 }, &key(7)),
        Ok(SwitchboardDecimal { mantissa: 12345, scale: 2 })
    );
}

#[test]
fn validation_refuses_a_stale_snapshot() {
    let feed = snapshot(12345, 2);
    let bound = Fixed { raw: 800_000_000 };
    assert_eq!(validate(&feed, 1_300, 300, bound, &key(7)).is_ok(), true);
    assert_eq!(
        validate(&feed, 1_301, 300, bound, &key(7)),
        Err(ValidationError::StaleData)
    );
    assert_eq!(validate(&feed, 0, 300, bound, &key(7)).is_ok(), true);
    let ancient = FeedSnapshot { timestamp: i64::MIN, ..feed };
    assert_eq!(
        validate(&ancient, i64::MAX, i64::MAX, bound, &key(7)),
        Err(ValidationError::StaleData)
    );
}

#[test]
fn validation_refuses_an_uncertain_snapshot() {
    let feed = snapshot(12345, 2);
    assert_eq!(
        validate(&feed, 1_000, 300, Fixed { raw: 500_000_000 }, &key(7)).is_ok(),
        true
    );
    assert_eq!(
        validate(&feed, 1_000, 300, Fixed { raw: 499_999_999 }, &key(7)),
        Err(ValidationError::ExceedsConfidenceInterval)
    );
    let unreadable = FeedSnapshot {
        std_deviation: SwitchboardDecimal { mantissa: 1, scale: 29 },
        ..feed
    };
    assert_eq!(
        validate(&unreadable, 1_000, 300, Fixed { raw: i128::MAX }, &key(7)),
        Err(ValidationError::ExceedsConfidenceInterval)
    );
}

#[test]
fn validation_refuses_a_foreign_snapshot_before_anything_else() {
    let feed = FeedSnapshot {
        std_deviation: SwitchboardDecimal { mantissa: 9, scale: 0 },
        ..snapshot(12345, 2)
    };
    assert_eq!(
        validate(&feed, 9_000, 300, Fixed { raw: 800_000_000 }, &key(8)),
        Err(ValidationError::InvalidFeedAccount)
    );
    assert_eq!(
        validate(&feed, 9_000, 300, Fixed { raw: 800_000_000 }, &key(7)),
        Err(ValidationError::StaleData)
    );
}
