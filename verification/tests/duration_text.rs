use audio_calculator::duration::Duration;
use audio_calculator::text::{decimal_string, format_duration};

#[test]
fn duration_new_carries_nanos() {
    let d = Duration::new(5, 2_500_000_000);
    assert_eq!(d.as_secs(), 7);
    assert_eq!(d.subsec_nanos(), 500_000_000);
}

#[test]
fn duration_from_nanos_splits() {
    let d = Duration::from_nanos(3_000_000_001);
    assert_eq!(d.as_secs(), 3);
    assert_eq!(d.subsec_nanos(), 1);
}

#[test]
fn duration_checked_add_sums_and_overflows() {
    let a = Duration::new(1, 600_000_000);
    let b = Duration::new(2, 700_000_000);
    let s = a.checked_add(&b).unwrap();
    assert_eq!(s.as_secs(), 4);
    assert_eq!(s.subsec_nanos(), 300_000_000);
    let big = Duration::new(u64::MAX, 999_999_999);
    assert!(big.checked_add(&Duration::from_nanos(1)).is_none());
    assert!(big.checked_add(&Duration::zero()).is_some());
}

#[test]
fn duration_zero_is_zero() {
    assert!(Duration::zero().is_zero());
    assert!(!Duration::from_nanos(1).is_zero());
}

#[test]
fn format_duration_pads_to_two_digits() {
    assert_eq!(format_duration(Duration::from_secs(3725)), "01:02:05");
    assert_eq!(format_duration(Duration::zero()), "00:00:00");
    assert_eq!(format_duration(Duration::new(59, 999_999_999)), "00:00:59");
}

#[test]
fn format_duration_hours_beyond_two_digits() {
    assert_eq!(format_duration(Duration::from_secs(100 * 3600 + 61)), "100:01:01");
}

#[test]
fn decimal_string_writes_digits() {
    assert_eq!(decimal_string(0), "0");
    assert_eq!(decimal_string(1234567890), "1234567890");
    assert_eq!(decimal_string(u64::MAX), "18446744073709551615");
}
