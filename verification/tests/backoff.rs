use tokval::backoff::parse_seconds;

fn seconds(text: &str) -> Option<u64> {
    parse_seconds(&text.as_bytes().to_vec())
}

#[test]
fn whole_seconds_are_read() {
    assert_eq!(seconds("2"), Some(2));
    assert_eq!(seconds("0"), Some(0));
    assert_eq!(seconds("60"), Some(60));
    assert_eq!(seconds("86400"), Some(86400));
}

#[test]
fn leading_zeros_are_digits_like_any_other() {
    assert_eq!(seconds("007"), Some(7));
    assert_eq!(seconds("0000"), Some(0));
}

#[test]
fn one_leading_plus_is_taken() {
    assert_eq!(seconds("+5"), Some(5));
    assert_eq!(seconds("++5"), None);
    assert_eq!(seconds("5+"), None);
}

#[test]
fn empty_value_and_lone_plus_are_nothing() {
    assert_eq!(seconds(""), None);
    assert_eq!(seconds("+"), None);
}

#[test]
fn anything_but_digits_is_refused() {
    assert_eq!(seconds("abc"), None);
    assert_eq!(seconds("-1"), None);
    assert_eq!(seconds("2.5"), None);
    assert_eq!(seconds(" 2"), None);
    assert_eq!(seconds("2 "), None);
    assert_eq!(seconds("2s"), None);
    assert_eq!(seconds("1_000"), None);
    assert_eq!(seconds("Wed, 21 Oct 2015 07:28:00 GMT"), None);
    assert_eq!(parse_seconds(&vec![0x32, 0xff]), None);
    assert_eq!(parse_seconds(&vec![0x2f]), None);
    assert_eq!(parse_seconds(&vec![0x3a]), None);
}

#[test]
fn largest_value_fits_and_the_next_does_not() {
    assert_eq!(seconds("18446744073709551615"), Some(u64::MAX));
    assert_eq!(seconds("18446744073709551616"), None);
    assert_eq!(seconds("18446744073709551620"), None);
    assert_eq!(seconds("99999999999999999999"), None);
    assert_eq!(seconds("000018446744073709551615"), Some(u64::MAX));
    assert_eq!(seconds("184467440737095516150"), None);
}

#[test]
fn agrees_with_the_standard_parser() {
    for text in ["", "+", "0", "+0", "12", "+12", "-12", "1e3", "٣", "18446744073709551615",
        "18446744073709551616", "00", " 1", "1\n"]
    {
        assert_eq!(seconds(text), text.parse::<u64>().ok());
    }
}
