use city_weather::decimal::parse_decimal_e7;

#[test]
fn integer_numeral() {
    assert_eq!(parse_decimal_e7(b"7"), Some(70_000_000));
    assert_eq!(parse_decimal_e7(b"0"), Some(0));
    assert_eq!(parse_decimal_e7(b"180"), Some(1_800_000_000));
}

#[test]
fn fraction_shorter_than_the_resolution() {
    assert_eq!(parse_decimal_e7(b"51.5074"), Some(515_074_000));
    assert_eq!(parse_decimal_e7(b"0.5"), Some(5_000_000));
}

#[test]
fn fraction_at_full_resolution() {
    assert_eq!(parse_decimal_e7(b"26.2540493"), Some(262_540_493));
}

#[test]
fn negative_numeral() {
    assert_eq!(parse_decimal_e7(b"-0.1278"), Some(-1_278_000));
    assert_eq!(parse_decimal_e7(b"-90"), Some(-900_000_000));
    assert_eq!(parse_decimal_e7(b"-0"), Some(0));
}

#[test]
fn digits_beyond_the_resolution_are_cut_off() {
    assert_eq!(parse_decimal_e7(b"1.23456789"), Some(12_345_678));
}

#[test]
fn widest_accepted_numeral() {
    assert_eq!(parse_decimal_e7(b"99999999999"), Some(999_999_999_990_000_000));
}

#[test]
fn too_many_integer_digits_rejected() {
    assert_eq!(parse_decimal_e7(b"123456789012"), None);
}

#[test]
fn malformed_numerals_rejected() {
    assert_eq!(parse_decimal_e7(b""), None);
    assert_eq!(parse_decimal_e7(b"."), None);
    assert_eq!(parse_decimal_e7(b"1."), None);
    assert_eq!(parse_decimal_e7(b".5"), None);
    assert_eq!(parse_decimal_e7(b"-"), None);
    assert_eq!(parse_decimal_e7(b"--1"), None);
    assert_eq!(parse_decimal_e7(b"1a"), None);
    assert_eq!(parse_decimal_e7(b"1.2.3"), None);
    assert_eq!(parse_decimal_e7(b" 1"), None);
    assert_eq!(parse_decimal_e7(b"1e5"), None);
}
