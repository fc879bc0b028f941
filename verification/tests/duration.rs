use opengate::duration::{parse_duration, DurationMicros, DurationParseError};
use opengate::micros_to_samples;

fn parse_us(input: &str) -> u64 {
    parse_duration(input).unwrap().0
}

#[test]
fn test_plain_numbers() {
    assert_eq!(parse_us("30"), 30_000_000);
    assert_eq!(parse_us("30.0"), 30_000_000);
    assert_eq!(parse_us("45.1"), 45_100_000);
}

#[test]
fn test_seconds() {
    assert_eq!(parse_us("30s"), 30_000_000);
    assert_eq!(parse_us("30.5s"), 30_500_000);
}

#[test]
fn test_minutes() {
    assert_eq!(parse_us("0.5m"), 30_000_000);
    assert_eq!(parse_us("60m"), 3_600_000_000);
    assert_eq!(parse_us("1m30s"), 90_000_000);
    assert_eq!(parse_us("0.5m10.5s"), 40_500_000);
}

#[test]
fn test_hours() {
    assert_eq!(parse_us("1h"), 3_600_000_000);
    assert_eq!(parse_us("3h30m"), 12_600_000_000);
    assert_eq!(parse_us("0.5h"), 1_800_000_000);
    assert_eq!(parse_us("1h2m3s"), 3_723_000_000);
}

#[test]
fn test_invalid() {
    assert!(parse_duration("abc").is_err());
    assert!(parse_duration("").is_err());
    assert!(parse_duration("1x").is_err());
    assert!(parse_duration("1d").is_err());
    assert!(parse_duration(".5h").is_err());
    assert!(parse_duration(".5m").is_err());
    assert!(parse_duration(".5s").is_err());
}

#[test]
fn test_error_kinds() {
    assert_eq!(parse_duration("1d"), Err(DurationParseError::Format));
    assert_eq!(parse_duration("0s"), Err(DurationParseError::NotPositive));
    assert_eq!(parse_duration(""), Err(DurationParseError::NotPositive));
    assert_eq!(parse_duration("0h0m0s"), Err(DurationParseError::NotPositive));
}

#[test]
fn test_plain_signs_and_fractions() {
    // a negative plain number reads as zero
    assert_eq!(parse_us("-5"), 0);
    assert_eq!(parse_us("-5.5"), 0);
    assert_eq!(parse_us("+2"), 2_000_000);
    assert_eq!(parse_us(".5"), 500_000);
    assert_eq!(parse_us("5."), 5_000_000);
    assert_eq!(parse_us("0"), 0);
}

#[test]
fn test_component_rounding() {
    // 0.0000005 s rounds to the nearest microsecond, half up
    assert_eq!(parse_us("0.0000005"), 1);
    assert_eq!(parse_us("0.0000004"), 0);
    // 0.0005 m = 30 ms
    assert_eq!(parse_us("0.0005m"), 30_000);
}

#[test]
fn test_saturation() {
    // far past u64::MAX microseconds: saturates instead of overflowing
    assert_eq!(parse_us("99999999999999999999999999"), u64::MAX);
    assert_eq!(parse_us("99999999999999999h"), u64::MAX);
}

#[test]
fn test_secs_to_samples() {
    assert_eq!(DurationMicros(1_500_000).to_samples(48_000), 72_000);
    assert_eq!(DurationMicros(500_000).to_samples(44_100), 22_050);
}

#[test]
fn test_secs_to_samples_clamp_negative() {
    // the parser already clamps a negative duration to zero seconds
    assert_eq!(parse_duration("-2").unwrap().to_samples(48_000), 0);
}

#[test]
fn test_secs_to_samples_rounding_behavior() {
    assert_eq!(DurationMicros(499_900).to_samples(48_000), 23_995);
    assert_eq!(DurationMicros(500_100).to_samples(48_000), 24_005);
}

#[test]
fn test_ms_to_samples() {
    assert_eq!(micros_to_samples(50_000, 48_000), 2_400);
    assert_eq!(micros_to_samples(1_000_000, 48_000), 48_000);
}

#[test]
fn test_ms_to_samples_clamp_negative() {
    // negative spans cannot be held at all; through the parser they are
    // already zero
    assert_eq!(parse_duration("-0.025").unwrap().to_samples(48_000), 0);
}
