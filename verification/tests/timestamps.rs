use huaweicloud_sdk_rust_obs::datetime::{
    days_in_month, format_rfc1123, is_leap_year, parse_basic_datetime, weekday, DateTime,
};

fn dt(year: u16, month: u8, day: u8, hour: u8, minute: u8, second: u8) -> DateTime {
    DateTime { year, month, day, hour, minute, second }
}

#[test]
fn parses_compact_timestamp() {
    let parsed = parse_basic_datetime("20240102T030405Z").unwrap();
    assert_eq!(parsed, dt(2024, 1, 2, 3, 4, 5));
}

#[test]
fn parses_leap_day() {
    let parsed = parse_basic_datetime("20000229T235959Z").unwrap();
    assert_eq!(parsed, dt(2000, 2, 29, 23, 59, 59));
}

#[test]
fn rejects_malformed_timestamps() {
    assert!(parse_basic_datetime("").is_none());
    assert!(parse_basic_datetime("2024-01-02T03:04:05Z").is_none());
    assert!(parse_basic_datetime("20240102T030405").is_none());
    assert!(parse_basic_datetime("20240102t030405Z").is_none());
    assert!(parse_basic_datetime("20240102T030405ZZ").is_none());
    assert!(parse_basic_datetime("2024010aT030405Z").is_none());
}

#[test]
fn rejects_impossible_dates_and_times() {
    assert!(parse_basic_datetime("20241302T030405Z").is_none());
    assert!(parse_basic_datetime("20240002T030405Z").is_none());
    assert!(parse_basic_datetime("20240230T030405Z").is_none());
    assert!(parse_basic_datetime("19000229T000000Z").is_none());
    assert!(parse_basic_datetime("20240102T240405Z").is_none());
    assert!(parse_basic_datetime("20240102T036005Z").is_none());
    assert!(parse_basic_datetime("20240102T030460Z").is_none());
}

#[test]
fn renders_rfc1123() {
    assert_eq!(
        format_rfc1123(&dt(2024, 1, 2, 3, 4, 5)),
        "Tue, 02 Jan 2024 03:04:05 GMT"
    );
    assert_eq!(
        format_rfc1123(&dt(2000, 2, 29, 0, 0, 0)),
        "Tue, 29 Feb 2000 00:00:00 GMT"
    );
    assert_eq!(
        format_rfc1123(&dt(1999, 12, 31, 23, 59, 59)),
        "Fri, 31 Dec 1999 23:59:59 GMT"
    );
}

#[test]
fn weekday_matches_known_dates() {
    // 1970-01-01 was a Thursday; weekday counts 0 for Sunday.
    assert_eq!(weekday(&dt(1970, 1, 1, 0, 0, 0)), 4);
    assert_eq!(weekday(&dt(2024, 1, 2, 0, 0, 0)), 2);
    assert_eq!(weekday(&dt(9999, 12, 31, 0, 0, 0)), 5);
}

#[test]
fn leap_year_rule() {
    assert!(is_leap_year(2000));
    assert!(is_leap_year(2024));
    assert!(!is_leap_year(1900));
    assert!(!is_leap_year(2023));
    assert_eq!(days_in_month(2024, 2), 29);
    assert_eq!(days_in_month(2023, 2), 28);
    assert_eq!(days_in_month(2024, 4), 30);
    assert_eq!(days_in_month(2024, 12), 31);
}
