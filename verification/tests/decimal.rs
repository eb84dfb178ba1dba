use downloader::decimal::append_decimal;
use downloader::decimal::append_fixed2;
use downloader::decimal::div_round_half_even;
use downloader::decimal::parse_decimal;

fn decimal_of(n: u128) -> String {
    let mut text = String::new();
    append_decimal(&mut text, n);
    text
}

fn fixed2_of(hundredths: u128) -> String {
    let mut text = String::new();
    append_fixed2(&mut text, hundredths);
    text
}

#[test]
fn decimal_of_zero_is_one_digit() {
    assert_eq!(decimal_of(0), "0");
}

#[test]
fn decimal_has_no_leading_zero() {
    assert_eq!(decimal_of(7), "7");
    assert_eq!(decimal_of(10), "10");
    assert_eq!(decimal_of(1000), "1000");
    assert_eq!(decimal_of(9_876_543_210), "9876543210");
}

#[test]
fn decimal_agrees_with_std_at_the_limits() {
    assert_eq!(decimal_of(u64::MAX as u128), u64::MAX.to_string());
    assert_eq!(decimal_of(u128::MAX), u128::MAX.to_string());
}

#[test]
fn decimal_is_appended_to_what_is_there() {
    let mut text = String::from("n=");
    append_decimal(&mut text, 42);
    assert_eq!(text, "n=42");
}

#[test]
fn fixed2_splits_hundredths() {
    assert_eq!(fixed2_of(0), "0.00");
    assert_eq!(fixed2_of(5), "0.05");
    assert_eq!(fixed2_of(70), "0.70");
    assert_eq!(fixed2_of(99), "0.99");
    assert_eq!(fixed2_of(100), "1.00");
    assert_eq!(fixed2_of(12345), "123.45");
    assert_eq!(fixed2_of(10000), "100.00");
}

#[test]
fn rounding_goes_to_the_nearest() {
    assert_eq!(div_round_half_even(10, 3), 3);
    assert_eq!(div_round_half_even(11, 3), 4);
    assert_eq!(div_round_half_even(0, 5), 0);
    assert_eq!(div_round_half_even(9, 1), 9);
}

#[test]
fn rounding_sends_a_tie_to_the_even_number() {
    assert_eq!(div_round_half_even(1, 2), 0);
    assert_eq!(div_round_half_even(3, 2), 2);
    assert_eq!(div_round_half_even(5, 2), 2);
    assert_eq!(div_round_half_even(7, 2), 4);
    assert_eq!(div_round_half_even(25, 10), 2);
    assert_eq!(div_round_half_even(35, 10), 4);
}

#[test]
fn rounding_works_on_large_numbers() {
    let den = u128::MAX / 2;
    assert_eq!(div_round_half_even(u128::MAX - 1, den), 2);
    assert_eq!(div_round_half_even(u128::MAX - 1, u128::MAX), 1);
}

#[test]
fn parse_reads_plain_numerals() {
    assert_eq!(parse_decimal(b"0"), Some(0));
    assert_eq!(parse_decimal(b"700"), Some(700));
    assert_eq!(parse_decimal(b"007"), Some(7));
    assert_eq!(parse_decimal(b"+5"), Some(5));
}

#[test]
fn parse_reads_the_largest_number() {
    assert_eq!(parse_decimal(b"18446744073709551615"), Some(u64::MAX));
    assert_eq!(parse_decimal(b"+18446744073709551615"), Some(u64::MAX));
    assert_eq!(parse_decimal(b"000018446744073709551615"), Some(u64::MAX));
}

#[test]
fn parse_refuses_what_does_not_fit() {
    assert_eq!(parse_decimal(b"18446744073709551616"), None);
    assert_eq!(parse_decimal(b"18446744073709551620"), None);
    assert_eq!(parse_decimal(b"99999999999999999999999"), None);
}

#[test]
fn parse_refuses_what_is_no_numeral() {
    assert_eq!(parse_decimal(b""), None);
    assert_eq!(parse_decimal(b"+"), None);
    assert_eq!(parse_decimal(b"-1"), None);
    assert_eq!(parse_decimal(b" 7"), None);
    assert_eq!(parse_decimal(b"7 "), None);
    assert_eq!(parse_decimal(b"1_000"), None);
    assert_eq!(parse_decimal(b"12a"), None);
    assert_eq!(parse_decimal(b"++1"), None);
    assert_eq!(parse_decimal(b"1+"), None);
    assert_eq!(parse_decimal(b"0x10"), None);
    assert_eq!(parse_decimal(b"1.5"), None);
}

#[test]
fn parse_agrees_with_std() {
    let samples: [&str; 12] = [
        "0", "1", "+1", "-1", "", "+", "42", "0042", "18446744073709551615",
        "18446744073709551616", "12 ", "1e3",
    ];
    for text in samples {
        assert_eq!(parse_decimal(text.as_bytes()), text.parse::<u64>().ok());
    }
}
