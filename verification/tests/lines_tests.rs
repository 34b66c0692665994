use volatility_estimator::data_sources::dex::uniswap::{address_to_string, parse_pool_address};
use volatility_estimator::decimal::{display, Amount};
use volatility_estimator::engine::domain::{Source, Trade};
use volatility_estimator::engine::processors::vwap::VWAPData;
use volatility_estimator::infrastructure::storage::csv::{trade_line, volatility_line, vwap_line};
use volatility_estimator::text::count_text;
use volatility_estimator::time::{rfc3339, Timestamp};

fn amt(m: i128, s: u32) -> Amount {
    Amount::new(m, s).unwrap()
}

#[test]
fn rfc3339_of_instants() {
    assert_eq!(rfc3339(Timestamp { secs: 0, nanos: 0 }).unwrap(), "1970-01-01T00:00:00+00:00");
    assert_eq!(rfc3339(Timestamp { secs: 1_700_000_000, nanos: 500_000_000 }).unwrap(), "2023-11-14T22:13:20.500+00:00");
    assert!(rfc3339(Timestamp { secs: i64::MAX, nanos: 0 }).is_none());
}

#[test]
fn decimal_and_count_text() {
    assert_eq!(display(amt(10050, 2)), "100.50");
    assert_eq!(display(amt(-15, 1)), "-1.5");
    assert_eq!(count_text(0), "0");
    assert_eq!(count_text(1024), "1024");
}

#[test]
fn trade_rows() {
    let t = Trade::new(Timestamp { secs: 60, nanos: 0 }, amt(10050, 2), amt(15, 1), Source::Kraken);
    assert_eq!(trade_line(&t).unwrap(), "1970-01-01T00:01:00+00:00,kraken,100.50,1.5\n");
    let far = Trade::new(Timestamp { secs: i64::MIN, nanos: 0 }, amt(1, 0), amt(1, 0), Source::Uniswap);
    assert!(trade_line(&far).is_none());
}

#[test]
fn vwap_rows() {
    let v = VWAPData {
        start_time: Timestamp { secs: 120, nanos: 0 },
        source: Source::Uniswap,
        vwap: amt(1015, 1),
        volume: amt(4, 0),
        trade_count: 2,
    };
    assert_eq!(vwap_line(&v).unwrap(), "1970-01-01T00:02:00+00:00,uniswap,101.5,4,2\n");
}

#[test]
fn volatility_rows() {
    let line = volatility_line(
        Timestamp { secs: 180, nanos: 0 },
        amt(25, 2),
        Timestamp { secs: 0, nanos: 0 },
        Timestamp { secs: 180, nanos: 0 },
        3,
    )
    .unwrap();
    assert_eq!(
        line,
        "1970-01-01T00:03:00+00:00,0.25,1970-01-01T00:00:00+00:00,1970-01-01T00:03:00+00:00,3\n"
    );
}

#[test]
fn pool_addresses() {
    let a = parse_pool_address("88e6A0c2dDD26FEEb64F039a2c41296FcB3f5640").unwrap();
    assert_eq!(a[0], 0x88);
    assert_eq!(a[19], 0x40);
    assert_eq!(address_to_string(&a), "0x88e6a0c2ddd26feeb64f039a2c41296fcb3f5640");
    assert_eq!(parse_pool_address("0x88e6A0c2dDD26FEEb64F039a2c41296FcB3f5640"), Some(a));
    assert!(parse_pool_address("0x88e6").is_none());
    assert!(parse_pool_address("88e6").is_none());
    assert!(parse_pool_address("zz e6A0c2dDD26FEEb64F039a2c41296FcB3f5640").is_none());
}
