use password_cracking::utils::charsets;
use password_cracking::utils::{format_duration, format_number};

#[test]
fn test_format_number() {
    assert_eq!(format_number(1234567890), "1,234,567,890");
    assert_eq!(format_number(999), "999");
    assert_eq!(format_number(1000), "1,000");
}

#[test]
fn test_format_duration() {
    assert_eq!(format_duration(45), "45s");
    assert_eq!(format_duration(125), "2m 5s");
    assert_eq!(format_duration(3665), "1h 1m 5s");
}

#[test]
fn test_format_number_small_and_zero() {
    assert_eq!(format_number(0), "0");
    assert_eq!(format_number(7), "7");
    assert_eq!(format_number(100000), "100,000");
}

#[test]
fn test_charsets() {
    assert_eq!(charsets::DIGITS, "0123456789");
    assert_eq!(charsets::alphanumeric().len(), 62);
    assert!(charsets::alphanumeric().starts_with("0123456789abc"));
    assert_eq!(charsets::all().len(), 62 + charsets::SPECIAL.len());
}
