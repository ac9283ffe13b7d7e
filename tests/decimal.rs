use parse_mediawiki_dump_reboot::decimal::parse_i32;

#[test]
fn decimal_codes() {
    assert_eq!(parse_i32("0"), Some(0));
    assert_eq!(parse_i32("42"), Some(42));
    assert_eq!(parse_i32("-2"), Some(-2));
    assert_eq!(parse_i32("+7"), Some(7));
    assert_eq!(parse_i32("007"), Some(7));
    assert_eq!(parse_i32("2147483647"), Some(i32::MAX));
    assert_eq!(parse_i32("-2147483648"), Some(i32::MIN));
}

#[test]
fn not_decimal_codes() {
    for s in ["", "-", "+", "2147483648", "-2147483649", "1 ", " 1", "1a", "--1", "١", "99999999999999999999"] {
        assert_eq!(parse_i32(s), None, "{:?}", s);
        assert_eq!(parse_i32(s).is_some(), s.parse::<i32>().is_ok(), "{:?}", s);
    }
}
