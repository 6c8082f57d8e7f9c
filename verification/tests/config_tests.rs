use dmrparse::config::{parse_usize, usize_or_default, BUFFER_COUNT_DEFAULT, BUFFER_SIZE_DEFAULT};

#[test]
fn parse_plain_number() {
    assert_eq!(parse_usize("123"), Some(123));
    assert_eq!(parse_usize("0"), Some(0));
}

#[test]
fn parse_with_leading_plus() {
    assert_eq!(parse_usize("+7"), Some(7));
    assert_eq!(parse_usize("+"), None);
}

#[test]
fn parse_rejects_junk() {
    assert_eq!(parse_usize(""), None);
    assert_eq!(parse_usize("12a"), None);
    assert_eq!(parse_usize("-3"), None);
    assert_eq!(parse_usize(" 4"), None);
}

#[test]
fn parse_rejects_overflow() {
    assert_eq!(parse_usize("99999999999999999999999999999999"), None);
}

#[test]
fn default_used_on_absence_or_failure() {
    assert_eq!(usize_or_default(None, BUFFER_COUNT_DEFAULT), 8);
    assert_eq!(usize_or_default(Some("banana"), BUFFER_COUNT_DEFAULT), 8);
    assert_eq!(usize_or_default(Some("16"), BUFFER_COUNT_DEFAULT), 16);
    assert_eq!(usize_or_default(None, BUFFER_SIZE_DEFAULT), 150_000_000);
}

// A tunable must be positive: a configured zero falls back to the default.
#[test]
fn default_used_on_zero() {
    assert_eq!(usize_or_default(Some("0"), BUFFER_COUNT_DEFAULT), 8);
    assert_eq!(usize_or_default(Some("+0"), BUFFER_SIZE_DEFAULT), 150_000_000);
}
