use faa_registry_mirror::dates::round_trips;
use faa_registry_mirror::{
    faa_date, is_utc_date, is_utc_instant, require_utc_date, require_utc_instant,
};

#[test]
fn accepts_calendar_day() {
    assert!(is_utc_date("2026-09-01"));
}

#[test]
fn rejects_instant_slash_and_empty() {
    assert!(!is_utc_date("2026-09-01T00:00:00Z"));
    assert!(!is_utc_date("2026/09/01"));
    assert!(!is_utc_date(""));
}

#[test]
fn faa_date_normalizes_or_rejects() {
    assert_eq!(faa_date("20240115").unwrap(), "2024-01-15");
    assert_eq!(faa_date("").unwrap(), "");
    assert_eq!(faa_date("   ").unwrap(), "");
    assert!(faa_date("0000").is_err());
    assert!(faa_date("not-a-date").is_err());
    assert!(faa_date("00000000").is_err());
}

#[test]
fn faa_date_error_shows_trimmed_input() {
    assert_eq!(faa_date(" 2024011 ").unwrap_err(), "invalid FAA date \"2024011\"");
    assert_eq!(faa_date("20240231").unwrap_err(), "invalid FAA date \"20240231\"");
}

#[test]
fn faa_date_accepts_leap_day_and_trims() {
    assert_eq!(faa_date(" 20240229 ").unwrap(), "2024-02-29");
    assert!(faa_date("20230229").is_err());
}

#[test]
fn instants_are_zulu_second_resolution() {
    assert!(is_utc_instant("2026-09-01T21:19:58Z"));
    assert!(!is_utc_instant("2026-09-01"));
    assert!(!is_utc_instant("2026-09-01T21:19:58+00:00"));
    assert!(!is_utc_instant("2026-09-01T21:19:58.000Z"));
    assert!(!is_utc_instant(""));
}

#[test]
fn calendar_day_must_be_zero_padded() {
    assert!(!is_utc_date("2026-9-1"));
    assert!(!is_utc_date(" 2026-09-01"));
}

#[test]
fn require_messages_name_the_column() {
    assert!(require_utc_date("2026-09-01", "as_of_date").is_ok());
    assert_eq!(
        require_utc_date("2026/09/01", "as_of_date").unwrap_err(),
        "as_of_date must be UTC calendar day YYYY-MM-DD, got \"2026/09/01\""
    );
    assert!(require_utc_instant("2026-09-01T00:00:00Z", "started_at").is_ok());
    assert_eq!(
        require_utc_instant("2026-09-01", "started_at").unwrap_err(),
        "started_at must be UTC instant YYYY-MM-DDTHH:MM:SSZ, got \"2026-09-01\""
    );
}

#[test]
fn round_trip_compares_reformatted_text() {
    assert!(round_trips("2026-09-01", Some("2026-09-01".to_string())));
    assert!(!round_trips("2026-9-01", Some("2026-09-01".to_string())));
    assert!(!round_trips("garbage", None));
}
