use convertify::convert::parse_time_str;
use convertify::percent_of;

#[test]
fn parse_time_full_value() {
    // one hour, two minutes, 3.5 seconds
    assert_eq!(parse_time_str("01:02:03.50"), 3_723_500);
}

#[test]
fn parse_time_two_part_is_zero() {
    assert_eq!(parse_time_str("02:03"), 0);
}

#[test]
fn parse_time_garbage_is_zero() {
    assert_eq!(parse_time_str("not a time"), 0);
    assert_eq!(parse_time_str(""), 0);
    assert_eq!(parse_time_str("1:2:3:4"), 0);
}

#[test]
fn parse_time_plain_seconds() {
    assert_eq!(parse_time_str("00:00:01"), 1_000);
    assert_eq!(parse_time_str("00:01:00.2"), 60_200);
    assert_eq!(parse_time_str("10:00:00.000"), 36_000_000);
}

#[test]
fn parse_time_unparsable_component_counts_as_zero() {
    // bad hours still leave minutes and seconds
    assert_eq!(parse_time_str("aa:02:03"), 123_000);
    // a doubled dot makes the seconds component unreadable
    assert_eq!(parse_time_str("00:00:3..5"), 0);
}

#[test]
fn percent_is_clamped_to_hundred() {
    // reported elapsed time far past the known duration
    assert_eq!(percent_of(200_000, Some(100_000)), 100);
    assert_eq!(percent_of(u64::MAX, Some(1)), 100);
}

#[test]
fn percent_ordinary_and_degenerate() {
    assert_eq!(percent_of(50_000, Some(100_000)), 50);
    assert_eq!(percent_of(0, Some(100_000)), 0);
    assert_eq!(percent_of(5_000, None), 0);
    assert_eq!(percent_of(5_000, Some(0)), 0);
}
