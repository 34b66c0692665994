use volatility_estimator::engine::domain::Source;
use volatility_estimator::error::Error;
use volatility_estimator::runtime::LatestTimes;
use volatility_estimator::time::Timestamp;

fn ts(secs: i64) -> Timestamp {
    Timestamp { secs, nanos: 0 }
}

#[test]
fn the_estimate_time_is_the_later_venue() {
    let mut latest = LatestTimes::new();
    assert_eq!(latest.observe(Source::Kraken, ts(120)), Some(ts(120)));
    assert_eq!(latest.observe(Source::Uniswap, ts(60)), Some(ts(120)));
    assert_eq!(latest.observe(Source::Uniswap, ts(180)), Some(ts(180)));
    assert_eq!(latest.kraken, Some(ts(120)));
    assert_eq!(latest.uniswap, Some(ts(180)));
}

#[test]
fn a_single_venue_sets_the_time() {
    let mut latest = LatestTimes::new();
    assert_eq!(latest.observe(Source::Uniswap, ts(5)), Some(ts(5)));
}

#[test]
fn venue_names() {
    assert_eq!(Source::Kraken.as_str(), "kraken");
    assert_eq!(Source::Uniswap.as_str(), "uniswap");
}

#[test]
fn error_helpers_build_their_variants() {
    assert!(matches!(Error::data_source("a".to_string()), Error::DataSource(m) if m == "a"));
    assert!(matches!(Error::storage("b".to_string()), Error::Storage(m) if m == "b"));
    assert!(matches!(Error::calculation("c".to_string()), Error::Calculation(m) if m == "c"));
}

#[test]
fn after_any_updates_the_time_is_the_later_of_the_last_of_each() {
    let updates = [
        (Source::Kraken, Timestamp { secs: 50, nanos: 0 }),
        (Source::Uniswap, Timestamp { secs: 70, nanos: 0 }),
        (Source::Kraken, Timestamp { secs: 60, nanos: 0 }),
        (Source::Uniswap, Timestamp { secs: 40, nanos: 0 }),
    ];
    let mut latest = LatestTimes::new();
    let mut last = None;
    for (source, t) in updates.iter() {
        last = latest.observe(*source, *t);
    }
    assert_eq!(latest.kraken, Some(Timestamp { secs: 60, nanos: 0 }));
    assert_eq!(latest.uniswap, Some(Timestamp { secs: 40, nanos: 0 }));
    assert_eq!(last, Some(Timestamp { secs: 60, nanos: 0 }));
}
