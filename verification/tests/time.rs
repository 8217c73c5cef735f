use destiny::time::{ms_truncate_hour, ms_truncate_minute, Time};

fn t(year: u16, month: u8, day: u8, hour: u8, minute: u8, second: u8) -> Time {
    Time { year, month, day, hour, minute, second }
}

#[test]
fn parse_accepts_the_six_fixed_forms() {
    assert_eq!(Time::parse("2025").unwrap(), t(2025, 1, 1, 0, 0, 0));
    assert_eq!(Time::parse("202501").unwrap(), t(2025, 1, 1, 0, 0, 0));
    assert_eq!(Time::parse("20250102").unwrap(), t(2025, 1, 2, 0, 0, 0));
    assert_eq!(Time::parse("2025010203").unwrap(), t(2025, 1, 2, 3, 0, 0));
    assert_eq!(Time::parse("202501020304").unwrap(), t(2025, 1, 2, 3, 4, 0));
    assert_eq!(Time::parse("20250102030405").unwrap(), t(2025, 1, 2, 3, 4, 5));
}

#[test]
fn parse_rejects_malformed_input() {
    assert!(Time::parse("").is_none());
    assert!(Time::parse("20251").is_none()); // wrong length
    assert!(Time::parse("202513").is_none()); // month 13
    assert!(Time::parse("20250230").is_none()); // February 30th
    assert!(Time::parse("2025010225").is_none()); // hour 25
    assert!(Time::parse("20a5").is_none()); // not digits
    assert!(Time::parse("1969").is_none()); // before the epoch
}

#[test]
fn epoch_milliseconds() {
    assert_eq!(t(1970, 1, 1, 0, 0, 0).to_ms(), 0);
    assert_eq!(t(1970, 1, 2, 0, 0, 0).to_ms(), 86_400_000);
    // a leap year boundary
    assert_eq!(t(2020, 3, 1, 0, 0, 0).to_ms() - t(2020, 2, 28, 0, 0, 0).to_ms(), 2 * 86_400_000);
    // 2024-01-01T00:00:00Z
    assert_eq!(t(2024, 1, 1, 0, 0, 0).to_ms(), 1_704_067_200_000);
    assert_eq!(t(2024, 1, 1, 0, 10, 0).to_ms(), 1_704_067_800_000);
}

#[test]
fn truncations_zero_the_lower_fields() {
    let x = t(2024, 5, 17, 13, 45, 59);
    assert_eq!(x.truncate_second(), x);
    assert_eq!(x.truncate_minute(), t(2024, 5, 17, 13, 45, 0));
    assert_eq!(x.truncate_hour(), t(2024, 5, 17, 13, 0, 0));
    assert_eq!(x.truncate_day(), t(2024, 5, 17, 0, 0, 0));
    assert_eq!(x.truncate_month(), t(2024, 5, 1, 0, 0, 0));
    assert_eq!(x.truncate_year(), t(2024, 1, 1, 0, 0, 0));
}

#[test]
fn month_successor_wraps_december() {
    assert_eq!(t(2024, 11, 20, 1, 2, 3).month_next(), t(2024, 12, 1, 0, 0, 0));
    assert_eq!(t(2024, 12, 20, 1, 2, 3).month_next(), t(2025, 1, 1, 0, 0, 0));
}

#[test]
fn formatting() {
    let x = t(2025, 1, 2, 3, 4, 5);
    assert_eq!(x.str_ym(), "202501");
    assert_eq!(x.str_ymd(), "20250102");
    assert_eq!(x.str_ymd_hm(), "20250102_0304");
    assert_eq!(x.str_ymd_hms(), "20250102_030405");
    let y = t(2024, 12, 31, 23, 59, 58);
    assert_eq!(y.str_ymd_hms(), "20241231_235958");
}

#[test]
fn millisecond_truncation() {
    assert_eq!(ms_truncate_minute(0), 0);
    assert_eq!(ms_truncate_minute(59_999), 0);
    assert_eq!(ms_truncate_minute(60_001), 60_000);
    assert_eq!(ms_truncate_hour(3_599_999), 0);
    assert_eq!(ms_truncate_hour(7_200_000), 7_200_000);
}
