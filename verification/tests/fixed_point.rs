use oracles::fixed::{decode, DecodeError, Fixed, FRACTION_DIGITS, MAX_SCALE, ONE};

fn as_float(value: Fixed) -> f64 {
    value.raw as f64 / ONE as f64
}

#[test]
fn decode_reads_two_decimal_places() {
    let value = decode(12345, 2).unwrap();
    assert_eq!(value, Fixed { raw: 123_450_000_000 });
    assert_eq!(as_float(value), 123.45);
}

#[test]
fn decode_refuses_a_scale_of_a_thousand() {
    assert_eq!(decode(1, 1000), Err(DecodeError::NonFinite));
}

#[test]
fn decode_keeps_nine_places_exactly() {
    assert_eq!(decode(1, 9), Ok(Fixed { raw: 1 }));
    assert_eq!(decode(-1, 9), Ok(Fixed { raw: -1 }));
    assert_eq!(decode(7, 0), Ok(Fixed { raw: 7 * ONE }));
    assert_eq!(decode(0, 0), Ok(Fixed { raw: 0 }));
    assert_eq!(FRACTION_DIGITS, 9);
}

#[test]
fn decode_cuts_toward_zero_beyond_the_ninth_place() {
    assert_eq!(decode(19, 10), Ok(Fixed { raw: 1 }));
    assert_eq!(decode(-19, 10), Ok(Fixed { raw: -1 }));
    assert_eq!(decode(9, 10), Ok(Fixed { raw: 0 }));
    assert_eq!(decode(-9, 10), Ok(Fixed { raw: 0 }));
    assert_eq!(
        decode(8_114_553_583_522_887_934, 17),
        Ok(Fixed { raw: 81_145_535_835 })
    );
}

#[test]
fn decode_multiplies_for_a_negative_scale() {
    assert_eq!(decode(3, -2), Ok(Fixed { raw: 300 * ONE }));
    assert_eq!(decode(-3, -2), Ok(Fixed { raw: -300 * ONE }));
}

#[test]
fn decode_accepts_the_ends_of_the_range() {
    assert_eq!(decode(i128::MAX, 9), Ok(Fixed { raw: i128::MAX }));
    assert_eq!(decode(i128::MIN, 9), Ok(Fixed { raw: i128::MIN }));
    assert_eq!(decode(i128::MAX / 10, 8), Ok(Fixed { raw: i128::MAX / 10 * 10 }));
    assert_eq!(decode(i128::MAX / 10 + 1, 8), Err(DecodeError::NonFinite));
    assert_eq!(decode(i128::MIN / 10, 8), Ok(Fixed { raw: i128::MIN / 10 * 10 }));
    assert_eq!(decode(i128::MIN / 10 - 1, 8), Err(DecodeError::NonFinite));
}

#[test]
fn decode_refuses_what_does_not_fit() {
    assert_eq!(decode(i128::MAX, -1), Err(DecodeError::NonFinite));
    assert_eq!(decode(i128::MAX, 0), Err(DecodeError::NonFinite));
    assert_eq!(decode(i128::MIN, 0), Err(DecodeError::NonFinite));
    assert_eq!(decode(18, -28), Err(DecodeError::NonFinite));
    assert_eq!(decode(-18, -28), Err(DecodeError::NonFinite));
    assert_eq!(
        decode(17, -28),
        Ok(Fixed { raw: 170_000_000_000_000_000_000_000_000_000_000_000_000 })
    );
}

#[test]
fn decode_accepts_every_reading_of_a_feed() {
    let widest: i128 = (1 << 96) - 1;
    assert_eq!(decode(widest, 0), Ok(Fixed { raw: widest * ONE }));
    assert_eq!(decode(-widest, 0), Ok(Fixed { raw: -widest * ONE }));
    assert_eq!(decode(widest, 28), Ok(Fixed { raw: 7_922_816_251 }));
    assert_eq!(decode(-widest, 28), Ok(Fixed { raw: -7_922_816_251 }));
    for scale in 0..=28 {
        assert!(decode(widest, scale).is_ok());
        assert!(decode(-widest, scale).is_ok());
    }
    assert_eq!(
        decode(1_000_000_000_000, 0),
        Ok(Fixed { raw: 1_000_000_000_000 * ONE })
    );
    assert_eq!(as_float(decode(1_000_000_000_000, 0).unwrap()), 1.0e12);
    assert_eq!(decode(10_000_000_000, 0), Ok(Fixed { raw: 10_000_000_000 * ONE }));
    assert_eq!(
        decode(9_500_000_000, 0),
        Ok(Fixed { raw: 9_500_000_000 * ONE })
    );
}

#[test]
fn decode_accepts_scales_up_to_the_limit() {
    assert_eq!(MAX_SCALE, 28);
    assert_eq!(
        decode(15_610_523_850_000_000_000_000_000_000, 26),
        Ok(Fixed { raw: 156_105_238_500 })
    );
    assert_eq!(
        decode(i128::MAX, 28),
        Ok(Fixed { raw: 17_014_118_346_046_923_173 })
    );
    assert_eq!(
        decode(92_233_720_368_547_758_079_999_999_999, 28),
        Ok(Fixed { raw: 9_223_372_036 })
    );
    assert_eq!(decode(0, 28), Ok(Fixed { raw: 0 }));
    assert_eq!(decode(0, -28), Ok(Fixed { raw: 0 }));
    assert_eq!(decode(0, 29), Err(DecodeError::NonFinite));
    assert_eq!(decode(0, -29), Err(DecodeError::NonFinite));
    assert_eq!(decode(5, i32::MAX), Err(DecodeError::NonFinite));
    assert_eq!(decode(5, i32::MIN), Err(DecodeError::NonFinite));
}

#[test]
fn fixed_constructors_agree() {
    assert_eq!(Fixed::zero(), Fixed { raw: 0 });
    assert_eq!(Fixed::from_raw(42), Fixed { raw: 42 });
}
