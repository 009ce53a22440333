use webapp_init_data::number::parse_decimal;

#[test]
fn digits_are_read() {
    assert_eq!(parse_decimal("0"), Some(0));
    assert_eq!(parse_decimal("7"), Some(7));
    assert_eq!(parse_decimal("1700000000"), Some(1_700_000_000));
    assert_eq!(parse_decimal("0012"), Some(12));
    assert_eq!(parse_decimal("000"), Some(0));
}

#[test]
fn one_plus_sign_may_lead() {
    assert_eq!(parse_decimal("+5"), Some(5));
    assert_eq!(parse_decimal("+0"), Some(0));
    assert_eq!(parse_decimal("++5"), None);
    assert_eq!(parse_decimal("+"), None);
    assert_eq!(parse_decimal("5+"), None);
}

#[test]
fn greatest_number_is_read_and_no_greater() {
    assert_eq!(parse_decimal("18446744073709551615"), Some(u64::MAX));
    assert_eq!(parse_decimal("+18446744073709551615"), Some(u64::MAX));
    assert_eq!(parse_decimal("18446744073709551616"), None);
    assert_eq!(parse_decimal("18446744073709551620"), None);
    assert_eq!(parse_decimal("99999999999999999999"), None);
    assert_eq!(parse_decimal("184467440737095516150"), None);
    assert_eq!(parse_decimal("000018446744073709551615"), Some(u64::MAX));
}

#[test]
fn anything_else_is_no_number() {
    for text in
        ["", "-", "-1", "-0", " 1", "1 ", "1.0", "1e3", "0x10", "1_000", "١٢٣", "１", "a", "12a", "\n"]
    {
        assert_eq!(parse_decimal(text), None, "{text:?}");
    }
}

#[test]
fn reads_as_std_does() {
    for text in [
        "",
        "+",
        "-",
        "0",
        "+0",
        "-0",
        "42",
        "+42",
        "-42",
        "4 2",
        "18446744073709551615",
        "18446744073709551616",
        "٣",
        "00",
        "+-1",
        "1+",
    ] {
        assert_eq!(parse_decimal(text), text.parse::<u64>().ok(), "{text:?}");
    }
}
