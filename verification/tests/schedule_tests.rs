use volatility_estimator::time::Timestamp;
use volatility_estimator::volatility::estimator::{
    is_retained, retention_cutoff, retention_seconds, select_window, WindowSchedule,
};
use volatility_estimator::volatility::types::VolatilityWindow;

fn window(name: &str, length_seconds: i64, sampling_interval: i64) -> VolatilityWindow {
    VolatilityWindow { name: name.to_string(), length_seconds, sampling_interval }
}

fn ts(secs: i64) -> Timestamp {
    Timestamp { secs, nanos: 0 }
}

#[test]
fn retention_is_the_longest_window() {
    let ws = [window("micro", 300, 60), window("daily", 86400, 300), window("short", 1800, 60)];
    assert_eq!(retention_seconds(&ws), 86400);
    assert_eq!(retention_seconds(&[]), 21600);
}

#[test]
fn retention_cutoff_and_keep() {
    let cutoff = retention_cutoff(Timestamp { secs: 100_000, nanos: 3 }, 86400);
    assert_eq!(cutoff, Timestamp { secs: 13_600, nanos: 3 });
    assert!(is_retained(Timestamp { secs: 13_600, nanos: 3 }, cutoff));
    assert!(is_retained(ts(13_601), cutoff));
    assert!(!is_retained(ts(13_600), cutoff));
}

#[test]
fn due_after_a_sampling_interval() {
    let mut s = WindowSchedule::new(&window("micro", 300, 60));
    assert!(s.is_due(ts(1000)));
    s.mark_calculated(ts(1000));
    assert!(!s.is_due(ts(1059)));
    assert!(!s.is_due(Timestamp { secs: 1059, nanos: 999_999_999 }));
    assert!(s.is_due(ts(1060)));
    assert_eq!(s.window_start(ts(1000)), ts(700));
    assert_eq!(s.sampling_step(), 1);
    assert_eq!(WindowSchedule::new(&window("daily", 86400, 300)).sampling_step(), 5);
}

#[test]
fn window_selection_takes_every_step_within_the_window() {
    let keys: Vec<Timestamp> = (0..10).map(|i| ts(i * 60)).collect();
    assert_eq!(select_window(&keys, ts(60), ts(420), 1), vec![1, 2, 3, 4, 5, 6, 7]);
    assert_eq!(select_window(&keys, ts(60), ts(420), 3), vec![1, 4, 7]);
    assert_eq!(select_window(&keys, ts(61), ts(419), 2), vec![2, 4, 6]);
    assert_eq!(select_window(&keys, ts(1000), ts(2000), 1), Vec::<usize>::new());
    assert_eq!(select_window(&keys, ts(0), ts(540), 100), vec![0]);
}

fn stamp(t: &chrono::DateTime<chrono::Utc>) -> Timestamp {
    Timestamp { secs: t.timestamp(), nanos: t.timestamp_subsec_nanos() }
}

#[test]
fn leap_seconds_count_as_chrono_counts_them() {
    let day = chrono::NaiveDate::from_ymd_opt(2016, 12, 31).unwrap();
    let next = chrono::NaiveDate::from_ymd_opt(2017, 1, 1).unwrap();
    let leap = day.and_hms_nano_opt(23, 59, 59, 1_500_000_000).unwrap().and_utc();
    let mut s = WindowSchedule::new(&window("micro", 300, 60));
    s.mark_calculated(stamp(&leap));
    let interval = chrono::Duration::seconds(60);
    let cases = [
        next.and_hms_nano_opt(0, 0, 59, 0).unwrap().and_utc(),
        next.and_hms_nano_opt(0, 1, 0, 499_999_999).unwrap().and_utc(),
        next.and_hms_nano_opt(0, 1, 0, 500_000_000).unwrap().and_utc(),
        next.and_hms_nano_opt(0, 1, 1, 0).unwrap().and_utc(),
    ];
    for now in cases.iter() {
        assert_eq!(s.is_due(stamp(now)), *now - leap >= interval);
    }
    assert!(!s.is_due(stamp(&cases[1])));
    assert!(s.is_due(stamp(&cases[2])));

    let before = day.and_hms_nano_opt(23, 58, 59, 800_000_000).unwrap().and_utc();
    let mut t = WindowSchedule::new(&window("micro", 300, 60));
    t.mark_calculated(stamp(&before));
    let in_leap = day.and_hms_nano_opt(23, 59, 59, 1_800_000_000).unwrap().and_utc();
    assert_eq!(t.is_due(stamp(&in_leap)), in_leap - before >= interval);
    assert!(t.is_due(stamp(&in_leap)));
}

#[test]
fn leaving_a_leap_second_as_chrono_does() {
    let day = chrono::NaiveDate::from_ymd_opt(2016, 12, 31).unwrap();
    let leap = day.and_hms_nano_opt(23, 59, 59, 1_500_000_000).unwrap().and_utc();
    let s = WindowSchedule::new(&window("micro", 60, 60));
    let expected = leap - chrono::Duration::seconds(60);
    assert_eq!(s.window_start(stamp(&leap)), stamp(&expected));
    assert_eq!(s.window_start(stamp(&leap)).nanos, 500_000_000);
    for n in [-3600i64, -1, 0, 1, 86400] {
        assert_eq!(retention_cutoff(stamp(&leap), n), stamp(&(leap - chrono::Duration::seconds(n))), "{}", n);
    }
}
