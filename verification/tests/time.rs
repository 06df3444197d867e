use codex_monitor::diagnostics::{mask_home, safe_name};
use codex_monitor::sqlite::{epoch_time, quote_identifier};
use codex_monitor::time::Timestamp;

#[test]
fn instants_outside_chrono_range_are_refused() {
    assert!(Timestamp::from_unix(8_210_266_876_799, 0).is_some());
    assert!(Timestamp::from_unix(8_210_266_876_800, 0).is_none());
    assert!(Timestamp::from_unix(-8_334_601_228_800, 0).is_some());
    assert!(Timestamp::from_unix(-8_334_601_228_801, 0).is_none());
    assert!(Timestamp::from_unix(59, 1_500_000_000).is_some());
    assert!(Timestamp::from_unix(58, 1_500_000_000).is_none());
}

#[test]
fn rfc3339_round_trip_and_offsets() {
    let t = Timestamp::parse_rfc3339("2027-01-15T08:00:00+00:00").unwrap();
    assert_eq!(t.secs(), 1_800_000_000);
    assert_eq!(t.to_rfc3339(), "2027-01-15T08:00:00+00:00");
    let shifted = Timestamp::parse_rfc3339("2027-01-15T09:00:00+01:00").unwrap();
    assert_eq!(shifted.secs(), 1_800_000_000);
    assert!(Timestamp::parse_rfc3339("yesterday").is_none());
    assert_eq!(t.to_display(), "2027-01-15 08:00:00 UTC");
}

#[test]
fn stored_times_are_seconds_or_milliseconds() {
    assert_eq!(epoch_time(1_800_000_000).unwrap().secs(), 1_800_000_000);
    let ms = epoch_time(1_800_000_000_123).unwrap();
    assert_eq!(ms.secs(), 1_800_000_000);
    assert_eq!(ms.nanos(), 123_000_000);
    let before = epoch_time(-10_000_000_001).unwrap();
    assert_eq!(before.secs(), -10_000_001);
    assert_eq!(before.nanos(), 999_000_000);
}

#[test]
fn names_are_kept_only_when_safe() {
    assert_eq!(safe_name("  threads\t"), "threads");
    assert_eq!(safe_name("rollout-invalid-line"), "rollout-invalid-line");
    assert_eq!(safe_name("alice@example.com"), "redacted");
    assert_eq!(safe_name(""), "redacted");
    assert_eq!(safe_name(&"a".repeat(81)), "redacted");
    assert_eq!(safe_name(&"a".repeat(80)), "a".repeat(80));
}

#[test]
fn home_is_masked_in_paths() {
    assert_eq!(mask_home("/home/alice/.codex", "/home/alice"), "%USER_HOME%/.codex");
    assert_eq!(mask_home("/srv/data/x", "/home/alice"), "redacted");
}

#[test]
fn identifiers_are_quoted_with_inner_quotes_doubled() {
    assert_eq!(quote_identifier("threads"), "\"threads\"");
    assert_eq!(quote_identifier("a\"b"), "\"a\"\"b\"");
}
