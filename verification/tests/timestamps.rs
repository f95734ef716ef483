use dbt_fleet::calendar::{civil_from_unix, is_leap_year};
use dbt_fleet::render::html::{current_timestamp, format_unix_utc};
use dbt_fleet::render::trend::short_date;
use dbt_fleet::score::{iso8601_from_unix, now_iso8601};

#[test]
fn iso8601_basic_format() {
    assert_eq!(iso8601_from_unix(1_778_058_000), "2026-05-06T09:00:00Z");
}

#[test]
fn iso8601_leap_day() {
    assert_eq!(iso8601_from_unix(1_709_209_845), "2024-02-29T12:30:45Z");
}

#[test]
fn iso8601_epoch_and_year_ends() {
    assert_eq!(iso8601_from_unix(0), "1970-01-01T00:00:00Z");
    assert_eq!(iso8601_from_unix(951_782_400), "2000-02-29T00:00:00Z");
    assert_eq!(iso8601_from_unix(1_735_689_599), "2024-12-31T23:59:59Z");
    assert_eq!(iso8601_from_unix(1_735_689_600), "2025-01-01T00:00:00Z");
}

#[test]
fn leap_years_follow_the_gregorian_rule() {
    assert!(is_leap_year(2024));
    assert!(is_leap_year(2000));
    assert!(!is_leap_year(1900));
    assert!(!is_leap_year(2023));
}

#[test]
fn calendar_fields_count_back_to_the_timestamp() {
    let t = civil_from_unix(1_709_209_845);
    assert_eq!((t.year, t.month, t.day), (2024, 2, 29));
    assert_eq!((t.hour, t.minute, t.second), (12, 30, 45));
    assert_eq!(t.hour * 3600 + t.minute * 60 + t.second, 1_709_209_845 % 86_400);
}

#[test]
fn now_is_a_timestamp() {
    let now = now_iso8601();
    assert_eq!(now.len(), 20);
    assert!(now.ends_with('Z'));
}

#[test]
fn both_timestamp_formats_show_the_same_date_and_time() {
    for t in [0i64, 1_709_209_845, 1_778_058_000, 4_102_444_799] {
        let iso = iso8601_from_unix(t);
        let html = format_unix_utc(t);
        assert_eq!(&iso[..10], &html[..10]);
        assert_eq!(&iso[11..16], &html[11..16]);
    }
}

#[test]
fn trend_labels_match_snapshot_dates() {
    assert_eq!(short_date(&iso8601_from_unix(1_709_209_845)), "Feb 29");
    assert_eq!(short_date(&iso8601_from_unix(0)), "Jan 01");
    assert_eq!(short_date(&iso8601_from_unix(1_735_689_599)), "Dec 31");
}

#[test]
fn current_timestamp_is_a_utc_minute() {
    let now = current_timestamp();
    assert_eq!(now.len(), 20);
    assert!(now.ends_with(" UTC"));
    assert_eq!(&now[4..5], "-");
}

#[test]
fn iso8601_before_the_epoch_counts_back() {
    assert_eq!(iso8601_from_unix(-1), "1969-12-31T23:59:59Z");
    assert_eq!(iso8601_from_unix(-86_400 * 366 * 2), "1967-12-31T00:00:00Z");
    let t = civil_from_unix(-86_400 * 365 - 1);
    assert_eq!((t.year, t.month, t.day, t.hour, t.minute, t.second), (1968, 12, 31, 23, 59, 59));
}

#[test]
fn iso8601_sorts_like_time() {
    let times: Vec<i64> = vec![0, 59, 60, 3_599, 86_399, 86_400, 951_782_400, 1_778_058_000, 4_102_444_800];
    for w in times.windows(2) {
        let a = iso8601_from_unix(w[0]);
        let b = iso8601_from_unix(w[1]);
        assert_eq!(a.len(), 20);
        assert!(a < b, "{} < {}", a, b);
        assert_eq!(format_unix_utc(w[0]), format!("{} {} UTC", &a[0..10], &a[11..16]));
    }
}

#[test]
fn report_stamps_sort_like_time() {
    let times: Vec<i64> = vec![0, 59, 60, 3_599, 86_399, 86_400, 951_782_400, 1_778_058_000];
    for w in times.windows(2) {
        assert!(format_unix_utc(w[0]) <= format_unix_utc(w[1]));
    }
    assert_eq!(format_unix_utc(0), format_unix_utc(59));
}
