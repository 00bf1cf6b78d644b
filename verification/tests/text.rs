use oracles::fixed::{Fixed, ONE};
use oracles::text::{parse_decimal_text, render_decimal, trim_blanks};

#[test]
fn numbers_are_read_with_sign_and_point() {
    assert_eq!(parse_decimal_text(b"12"), Some(Fixed { raw: 12 * ONE }));
    assert_eq!(parse_decimal_text(b"-0.5"), Some(Fixed { raw: -500_000_000 }));
    assert_eq!(parse_decimal_text(b"+3."), Some(Fixed { raw: 3 * ONE }));
    assert_eq!(parse_decimal_text(b".25"), Some(Fixed { raw: 250_000_000 }));
    assert_eq!(parse_decimal_text(b"0"), Some(Fixed { raw: 0 }));
    assert_eq!(parse_decimal_text(b"-0"), Some(Fixed { raw: 0 }));
    assert_eq!(parse_decimal_text(b"007.10"), Some(Fixed { raw: 7_100_000_000 }));
    assert_eq!(
        parse_decimal_text(b"156.1052385"),
        Some(Fixed { raw: 156_105_238_500 })
    );
}

#[test]
fn digits_beyond_the_ninth_place_are_cut() {
    assert_eq!(parse_decimal_text(b"0.1234567899"), Some(Fixed { raw: 123_456_789 }));
    assert_eq!(parse_decimal_text(b"-0.0000000009"), Some(Fixed { raw: 0 }));
    assert_eq!(
        parse_decimal_text(b"81.14553583522887934"),
        Some(Fixed { raw: 81_145_535_835 })
    );
}

#[test]
fn what_is_no_number_is_refused() {
    assert_eq!(parse_decimal_text(b""), None);
    assert_eq!(parse_decimal_text(b"-"), None);
    assert_eq!(parse_decimal_text(b"+"), None);
    assert_eq!(parse_decimal_text(b"."), None);
    assert_eq!(parse_decimal_text(b"-."), None);
    assert_eq!(parse_decimal_text(b"1e5"), None);
    assert_eq!(parse_decimal_text(b"1.2.3"), None);
    assert_eq!(parse_decimal_text(b"--1"), None);
    assert_eq!(parse_decimal_text(b" 1"), None);
    assert_eq!(parse_decimal_text(b"1 "), None);
    assert_eq!(parse_decimal_text(b"1,5"), None);
    assert_eq!(parse_decimal_text(b"0.5x"), None);
    assert_eq!(parse_decimal_text(b"0.0000000000x"), None);
    assert_eq!(parse_decimal_text(b"inf"), None);
    assert_eq!(parse_decimal_text(b"NaN"), None);
}

#[test]
fn numbers_that_do_not_fit_are_refused() {
    assert_eq!(
        parse_decimal_text(b"170141183460469231731687303715.884105727"),
        Some(Fixed { raw: i128::MAX })
    );
    assert_eq!(
        parse_decimal_text(b"170141183460469231731687303715.884105728"),
        None
    );
    assert_eq!(
        parse_decimal_text(b"-170141183460469231731687303715.884105728"),
        Some(Fixed { raw: i128::MIN })
    );
    assert_eq!(
        parse_decimal_text(b"-170141183460469231731687303715.884105729"),
        None
    );
    assert_eq!(parse_decimal_text(b"200000000000000000000000000000"), None);
    assert_eq!(parse_decimal_text(b"200000000000000000000000000001"), None);
    assert_eq!(parse_decimal_text(b"99999999999999999999999999999999999999999"), None);
    assert_eq!(parse_decimal_text(b"99999999999999999999999999999999999999999x"), None);
    assert_eq!(
        parse_decimal_text(b"00000000000000000000000000000000000000001"),
        Some(Fixed { raw: ONE })
    );
}

#[test]
fn large_numbers_are_read() {
    assert_eq!(
        parse_decimal_text(b"10000000000"),
        Some(Fixed { raw: 10_000_000_000 * ONE })
    );
    assert_eq!(
        parse_decimal_text(b"1000000000000"),
        Some(Fixed { raw: 1_000_000_000_000 * ONE })
    );
    assert_eq!(
        parse_decimal_text(b"79228162514264337593543950335"),
        Some(Fixed { raw: 79_228_162_514_264_337_593_543_950_335 * ONE })
    );
    assert_eq!(
        render_decimal(Fixed { raw: 79_228_162_514_264_337_593_543_950_335 * ONE }),
        b"79228162514264337593543950335"
    );
}

#[test]
fn what_is_written_reads_back() {
    for raw in [
        0,
        1,
        -1,
        ONE,
        -ONE,
        123_400_000_000,
        156_105_238_500,
        999_999_999,
        1_000_000_001,
        i64::MAX as i128,
        i64::MIN as i128,
        1_000_000_000_000 * ONE,
        i128::MAX,
        i128::MIN,
        i128::MIN + 1,
    ] {
        let text = render_decimal(Fixed { raw });
        assert_eq!(parse_decimal_text(&text), Some(Fixed { raw }));
    }
}

#[test]
fn values_are_written_without_idle_zeros() {
    assert_eq!(render_decimal(Fixed { raw: 0 }), b"0");
    assert_eq!(render_decimal(Fixed { raw: 10 * ONE }), b"10");
    assert_eq!(render_decimal(Fixed { raw: 100_000_000 }), b"0.1");
    assert_eq!(render_decimal(Fixed { raw: 10 }), b"0.00000001");
    assert_eq!(render_decimal(Fixed { raw: -1_050_000_000 }), b"-1.05");
}

#[test]
fn blanks_are_trimmed_at_both_ends() {
    assert_eq!(trim_blanks(b"  1 2\t\r\n"), b"1 2");
    assert_eq!(trim_blanks(b"\x0b\x0c7"), b"7");
    assert_eq!(trim_blanks(b"7"), b"7");
    assert_eq!(trim_blanks(b"   "), b"");
    assert_eq!(trim_blanks(b""), b"");
    assert_eq!(trim_blanks(b"\x087\x0e"), b"\x087\x0e");
}
