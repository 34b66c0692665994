use volatility_estimator::time::{later, minute_of, normalize_to_minute, parse_rfc3339, trade_time, Timestamp};

#[test]
fn normalize_rounds_down_to_minute() {
    assert_eq!(normalize_to_minute(125), 120);
    assert_eq!(normalize_to_minute(120), 120);
    assert_eq!(normalize_to_minute(59), 0);
}

#[test]
fn normalize_truncates_negative_toward_zero() {
    assert_eq!(normalize_to_minute(-30), 0);
    assert_eq!(normalize_to_minute(-61), -60);
}

#[test]
fn minute_of_drops_nanos() {
    let t = minute_of(Timestamp { secs: 1_700_000_123, nanos: 5 });
    assert_eq!(t, Timestamp { secs: 1_700_000_100, nanos: 0 });
}

#[test]
fn later_prefers_second_on_tie() {
    let a = Timestamp { secs: 10, nanos: 1 };
    let b = Timestamp { secs: 10, nanos: 1 };
    assert_eq!(later(a, b), b);
    assert_eq!(later(Timestamp { secs: 11, nanos: 0 }, b).secs, 11);
}

#[test]
fn trade_times_from_rfc3339() {
    assert_eq!(
        parse_rfc3339("2023-11-14T22:13:20.500000Z"),
        Some(Timestamp { secs: 1_700_000_000, nanos: 500_000_000 })
    );
    assert_eq!(
        parse_rfc3339("2023-11-14T23:13:20+01:00"),
        Some(Timestamp { secs: 1_700_000_000, nanos: 0 })
    );
    assert_eq!(parse_rfc3339("yesterday"), None);
    assert_eq!(trade_time("1970-01-01T00:01:00Z"), Timestamp { secs: 60, nanos: 0 });
    assert!(trade_time("not a time").secs > 1_600_000_000);
}
