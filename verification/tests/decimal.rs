use drg::amount::Amount;
use drg::decimal::{parse_decimal, parse_decimal_bytes};

fn raw(text: &str) -> Option<i64> {
    parse_decimal(text).map(|a| a.raw)
}

#[test]
fn decimal_text_reads_as_hundred_millionths() {
    assert_eq!(raw("0"), Some(0));
    assert_eq!(raw("1"), Some(100_000_000));
    assert_eq!(raw("42000.50000000"), Some(4_200_050_000_000));
    assert_eq!(raw("0.00000001"), Some(1));
    assert_eq!(raw("3899.9"), Some(389_990_000_000));
    assert_eq!(raw("007.25"), Some(725_000_000));
    assert_eq!(raw("5."), Some(500_000_000));
    assert_eq!(raw(".5"), Some(50_000_000));
}

#[test]
fn decimal_text_may_carry_a_sign() {
    assert_eq!(raw("-1.5"), Some(-150_000_000));
    assert_eq!(raw("+1.5"), Some(150_000_000));
    assert_eq!(raw("-0"), Some(0));
    assert_eq!(raw("-.5"), Some(-50_000_000));
}

#[test]
fn decimal_digits_beyond_the_eighth_place_are_dropped() {
    assert_eq!(raw("0.123456789"), Some(12_345_678));
    assert_eq!(raw("0.999999999999"), Some(99_999_999));
    assert_eq!(raw("-0.000000009"), Some(0));
    assert_eq!(raw("1.000000000000000000000000000000000001"), Some(100_000_000));
}

#[test]
fn malformed_decimal_text_is_rejected() {
    for text in [
        "", "-", "+", ".", "-.", "+.", "1.2.3", "1..2", "abc", "1a", "a1", "1 ", " 1", "1e5", "--1",
        "+-1", "1-", "1,5", "0x10", "NaN", "inf", "1.5-", "١",
    ] {
        assert_eq!(raw(text), None, "{:?}", text);
    }
}

#[test]
fn decimal_range_is_that_of_an_amount() {
    assert_eq!(raw("92233720368.54775807"), Some(i64::MAX));
    assert_eq!(raw("92233720368.54775808"), None);
    assert_eq!(raw("-92233720368.54775808"), Some(i64::MIN));
    assert_eq!(raw("-92233720368.54775809"), None);
    assert_eq!(raw("92233720369"), None);
    assert_eq!(raw("-92233720369"), None);
    assert_eq!(raw("99999999999999999999999999999999999999999999"), None);
    assert_eq!(raw("000000000000000000000000000000000000000000001"), Some(100_000_000));
    assert_eq!(raw("184467440737095516160"), None);
}

#[test]
fn decimal_bytes_need_not_be_text() {
    assert_eq!(parse_decimal_bytes(b"12.5"), Some(Amount { raw: 1_250_000_000 }));
    assert_eq!(parse_decimal_bytes(&[0x31, 0xff]), None);
    assert_eq!(parse_decimal_bytes(&[]), None);
}
