use rust_decimal::Decimal;
use volatility_estimator::decimal::{Amount, MAX_MANTISSA};
use volatility_estimator::engine::domain::{Price, Source, Trade};
use volatility_estimator::services::market_data::price_trade;
use volatility_estimator::engine::processors::vwap::VWAPCalculator;
use volatility_estimator::time::Timestamp;

fn amt(m: i128, s: u32) -> Amount {
    Amount::new(m, s).unwrap()
}

fn dec(a: Amount) -> Decimal {
    Decimal::from_i128_with_scale(a.mantissa, a.scale)
}

fn trade(secs: i64, price: i128, qty: i128, source: Source) -> Trade {
    Trade::new(Timestamp { secs, nanos: 0 }, amt(price, 0), amt(qty, 0), source)
}

const T0: i64 = 1_700_000_040; // a minute boundary

#[test]
fn trades_in_one_minute_complete_nothing() {
    let mut calc = VWAPCalculator::starting_at(Source::Kraken, Timestamp { secs: T0, nanos: 0 });
    let r = calc.process_trades(&[trade(T0 + 1, 100, 1, Source::Kraken), trade(T0 + 59, 102, 1, Source::Kraken)]);
    assert!(r.is_none());
    assert!(calc.get_historical_bars().is_empty());
}

#[test]
fn a_later_minute_completes_the_bar() {
    let mut calc = VWAPCalculator::starting_at(Source::Kraken, Timestamp { secs: T0 + 5, nanos: 7 });
    calc.process_trades(&[trade(T0 + 1, 100, 1, Source::Kraken), trade(T0 + 30, 102, 3, Source::Kraken)]);
    let done = calc.process_trades(&[trade(T0 + 61, 90, 1, Source::Kraken)]).unwrap();
    assert_eq!(done.start_time, Timestamp { secs: T0, nanos: 0 });
    assert_eq!(done.source, Source::Kraken);
    assert_eq!(done.trade_count, 2);
    assert_eq!(dec(done.volume), Decimal::from(4));
    // (100 * 1 + 102 * 3) / 4 = 101.5
    assert_eq!(dec(done.vwap), Decimal::from_i128_with_scale(1015, 1));
    let bars = calc.get_historical_bars();
    assert_eq!(bars.len(), 1);
    assert_eq!(dec(bars[&T0]), Decimal::from_i128_with_scale(1015, 1));
}

#[test]
fn the_last_completed_bar_of_a_batch_is_returned() {
    let mut calc = VWAPCalculator::starting_at(Source::Uniswap, Timestamp { secs: T0, nanos: 0 });
    let done = calc
        .process_trades(&[
            trade(T0 + 1, 10, 1, Source::Uniswap),
            trade(T0 + 61, 20, 1, Source::Uniswap),
            trade(T0 + 121, 30, 1, Source::Uniswap),
        ])
        .unwrap();
    assert_eq!(done.start_time.secs, T0 + 60);
    assert_eq!(dec(done.vwap), Decimal::from(20));
    assert_eq!(calc.get_historical_bars().len(), 2);
}

#[test]
fn other_venues_are_ignored() {
    let mut calc = VWAPCalculator::starting_at(Source::Kraken, Timestamp { secs: T0, nanos: 0 });
    let r = calc.process_trades(&[trade(T0 + 1, 10, 1, Source::Uniswap), trade(T0 + 500, 10, 1, Source::Uniswap)]);
    assert!(r.is_none());
    assert!(calc.get_historical_bars().is_empty());
}

#[test]
fn empty_bars_are_not_recorded() {
    let mut calc = VWAPCalculator::starting_at(Source::Kraken, Timestamp { secs: T0, nanos: 0 });
    // the first bar has no trade when the next minute arrives
    let r = calc.process_trades(&[trade(T0 + 70, 10, 1, Source::Kraken)]);
    assert!(r.is_none());
    assert!(calc.get_historical_bars().is_empty());
}

#[test]
fn empty_batch_returns_none() {
    let mut calc = VWAPCalculator::new(Source::Kraken);
    assert!(calc.process_trades(&[]).is_none());
}

#[test]
fn overflowing_batch_is_refused_by_try() {
    let mut calc = VWAPCalculator::starting_at(Source::Kraken, Timestamp { secs: T0, nanos: 0 });
    let big = Trade::new(Timestamp { secs: T0 + 1, nanos: 0 }, amt(1, 0), amt(MAX_MANTISSA, 0), Source::Kraken);
    assert!(calc.fits(&[big]));
    assert!(!calc.fits(&[big, big]));
    assert!(calc.try_process_trades(&[big, big]).is_none());
    assert!(matches!(calc.try_process_trades(&[big]), Some(None)));
    assert!(!calc.fits(&[big]));
}

#[test]
fn interleaved_trades_of_other_venues_change_nothing() {
    let mixed = [
        trade(T0 + 1, 100, 2, Source::Kraken),
        trade(T0 + 2, 999, 5, Source::Uniswap),
        trade(T0 + 30, 104, 2, Source::Kraken),
        trade(T0 + 61, 1, 1, Source::Uniswap),
        trade(T0 + 65, 110, 1, Source::Kraken),
    ];
    let own: Vec<Trade> = mixed.iter().copied().filter(|t| t.source == Source::Kraken).collect();
    let mut a = VWAPCalculator::starting_at(Source::Kraken, Timestamp { secs: T0, nanos: 0 });
    let mut b = VWAPCalculator::starting_at(Source::Kraken, Timestamp { secs: T0, nanos: 0 });
    let ra = a.process_trades(&mixed).unwrap();
    let rb = b.process_trades(&own).unwrap();
    assert_eq!(ra.start_time, rb.start_time);
    assert_eq!(dec(ra.vwap), dec(rb.vwap));
    assert_eq!(ra.trade_count, 2);
    assert_eq!(dec(ra.vwap), Decimal::from(102));
    assert_eq!(ra.start_time.secs % 60, 0);
    assert_eq!(a.get_historical_bars().len(), b.get_historical_bars().len());
}

#[test]
fn a_price_stands_for_a_trade_without_quantity() {
    let t = price_trade(Price::new(Timestamp { secs: T0, nanos: 5 }, amt(10050, 2), Source::Kraken));
    assert_eq!(t.timestamp, Timestamp { secs: T0, nanos: 5 });
    assert_eq!(dec(t.price), Decimal::new(10050, 2));
    assert_eq!(dec(t.quantity), Decimal::ZERO);
    assert_eq!(t.source, Source::Kraken);
}
