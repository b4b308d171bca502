use ledger_core::amounts::parse_amount;

#[test]
fn plain_digits_are_read() {
    assert_eq!(parse_amount("0"), Some(0));
    assert_eq!(parse_amount("7"), Some(7));
    assert_eq!(parse_amount("500"), Some(500));
    assert_eq!(parse_amount("0012"), Some(12));
}

#[test]
fn a_sign_may_lead() {
    assert_eq!(parse_amount("-1"), Some(-1));
    assert_eq!(parse_amount("+1"), Some(1));
    assert_eq!(parse_amount("-0"), Some(0));
    assert_eq!(parse_amount("-1050"), Some(-1050));
}

#[test]
fn the_limits_of_a_balance_are_read() {
    assert_eq!(parse_amount("9223372036854775807"), Some(i64::MAX));
    assert_eq!(parse_amount("-9223372036854775808"), Some(i64::MIN));
    assert_eq!(parse_amount("+9223372036854775807"), Some(i64::MAX));
    assert_eq!(parse_amount("0000000000000000000009223372036854775807"), Some(i64::MAX));
}

#[test]
fn what_lies_beyond_the_limits_is_no_amount() {
    assert_eq!(parse_amount("9223372036854775808"), None);
    assert_eq!(parse_amount("-9223372036854775809"), None);
    assert_eq!(parse_amount("99999999999999999999999999"), None);
    assert_eq!(parse_amount("-99999999999999999999999999"), None);
}

#[test]
fn other_text_is_no_amount() {
    assert_eq!(parse_amount(""), None);
    assert_eq!(parse_amount("-"), None);
    assert_eq!(parse_amount("+"), None);
    assert_eq!(parse_amount("abc"), None);
    assert_eq!(parse_amount("12a"), None);
    assert_eq!(parse_amount("1 2"), None);
    assert_eq!(parse_amount(" 12"), None);
    assert_eq!(parse_amount("12 "), None);
    assert_eq!(parse_amount("1.5"), None);
    assert_eq!(parse_amount("--1"), None);
    assert_eq!(parse_amount("+-1"), None);
    assert_eq!(parse_amount("1_000"), None);
    assert_eq!(parse_amount("\u{0663}"), None);
}

#[test]
fn reading_agrees_with_the_standard_parser() {
    let samples = [
        "0", "-0", "+0", "1", "-1", "42", "-42", "+42", "", "-", "+", "x", "4x", "x4", " 4",
        "9223372036854775807", "9223372036854775808", "-9223372036854775808",
        "-9223372036854775809", "000", "-000", "1e3", "0x10",
    ];
    for text in samples {
        assert_eq!(parse_amount(text), text.parse::<i64>().ok(), "for {:?}", text);
    }
}
