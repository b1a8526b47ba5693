use pfas_guard::decimal::parse_thousandths;

#[test]
fn whole_and_fractional_numbers() {
    assert_eq!(parse_thousandths("10"), Some(10_000));
    assert_eq!(parse_thousandths("10.5"), Some(10_500));
    assert_eq!(parse_thousandths("0.25"), Some(250));
    assert_eq!(parse_thousandths("1.234"), Some(1_234));
    assert_eq!(parse_thousandths("0"), Some(0));
    assert_eq!(parse_thousandths("007.0"), Some(7_000));
}

#[test]
fn digits_past_thousandths_are_dropped() {
    assert_eq!(parse_thousandths("0.0125"), Some(12));
    assert_eq!(parse_thousandths("2.99999"), Some(2_999));
}

#[test]
fn negative_numbers() {
    assert_eq!(parse_thousandths("-1.0"), Some(-1_000));
    assert_eq!(parse_thousandths("-0"), Some(0));
}

#[test]
fn malformed_text_is_refused() {
    for text in ["", "-", ".", "1.", ".5", "1a", "1.2.3", "+1", " 1", "1e3", "--1", "1.-2"] {
        assert_eq!(parse_thousandths(text), None, "{:?}", text);
    }
}

#[test]
fn largest_values() {
    assert_eq!(parse_thousandths("9223372036854775.807"), Some(i64::MAX));
    assert_eq!(parse_thousandths("-9223372036854775.807"), Some(-i64::MAX));
    assert_eq!(parse_thousandths("9223372036854775.808"), None);
    assert_eq!(parse_thousandths("9223372036854776"), None);
    assert_eq!(parse_thousandths("99999999999999999999999"), None);
}
