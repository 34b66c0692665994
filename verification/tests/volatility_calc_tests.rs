use rust_decimal::Decimal;
use rust_decimal::MathematicalOps;
use volatility_estimator::decimal::Amount;
use volatility_estimator::engine::domain::{Price, Source, VolatilityEstimate};
use volatility_estimator::engine::processors::estimator::VolatilityCalculator;
use volatility_estimator::error::Error;
use volatility_estimator::time::Timestamp;

fn price(secs: i64, value: i128) -> Price {
    Price::new(Timestamp { secs, nanos: 0 }, Amount::new(value, 0).unwrap(), Source::Kraken)
}

fn calc(factor: i128) -> VolatilityCalculator {
    VolatilityCalculator::new(Ok(Amount::new(factor, 0).unwrap()))
}

fn dec(a: Amount) -> Decimal {
    Decimal::from_i128_with_scale(a.mantissa, a.scale)
}

fn root(a: Amount) -> Option<Amount> {
    dec(a).sqrt().map(|d| Amount::new(d.mantissa(), d.scale()).unwrap())
}

fn estimate(c: &VolatilityCalculator, prices: &[Price]) -> Result<VolatilityEstimate, Error> {
    match c.prepare_volatility(prices) {
        Err(e) => Err(e),
        Ok(p) => p.complete(root(p.variance), root(p.factor)).unwrap(),
    }
}

fn message(r: Result<VolatilityEstimate, Error>) -> String {
    match r {
        Err(Error::Calculation(m)) => m,
        _ => panic!("expected a calculation error"),
    }
}

#[test]
fn needs_two_prices() {
    assert_eq!(message(estimate(&calc(1), &[price(0, 100)])), "Insufficient price points");
    assert_eq!(message(estimate(&calc(1), &[])), "Insufficient price points");
}

#[test]
fn zero_prices_give_no_returns() {
    let r = estimate(&calc(1), &[price(0, 0), price(60, 0), price(120, 0)]);
    assert_eq!(message(r), "No valid returns calculated");
}

#[test]
fn steady_growth_has_no_volatility() {
    let prices = [price(0, 100), price(60, 200), price(120, 400)];
    let e = estimate(&calc(365), &prices).unwrap();
    assert_eq!(Decimal::from_i128_with_scale(e.value.mantissa, e.value.scale), Decimal::ZERO);
    assert_eq!(e.num_observations, 2);
    assert_eq!(e.window_start, Timestamp { secs: 0, nanos: 0 });
    assert_eq!(e.window_end, Timestamp { secs: 120, nanos: 0 });
}

#[test]
fn volatility_is_the_scaled_deviation_of_log_returns() {
    // returns ln 2 and -ln 2: mean 0, variance 2 (ln 2)^2, deviation sqrt(2) ln 2
    let prices = [price(0, 100), price(60, 200), price(120, 100)];
    let e = estimate(&calc(1), &prices).unwrap();
    let v = Decimal::from_i128_with_scale(e.value.mantissa, e.value.scale);
    let expected = Decimal::from_i128_with_scale(980258143468547, 15); // sqrt(2) * ln 2
    assert!((v - expected).abs() < Decimal::from_i128_with_scale(1, 9));
    assert_eq!(e.num_observations, 2);
}

#[test]
fn a_single_return_divides_by_zero() {
    let c = calc(1);
    assert!(c.try_prepare_volatility(&[price(0, 100), price(60, 110)]).is_none());
}

#[test]
fn an_invalid_factor_is_reported() {
    let c = VolatilityCalculator::new(Err("bad".to_string()));
    let prices = [price(0, 100), price(60, 200), price(120, 100)];
    assert_eq!(message(estimate(&c, &prices)), "Invalid annualization factor: bad");
}

#[test]
fn a_negative_factor_has_no_square_root() {
    let prices = [price(0, 100), price(60, 200), price(120, 100)];
    assert_eq!(message(estimate(&calc(-1), &prices)), "Failed to calculate square root");
}

#[test]
fn try_agrees_where_defined() {
    let prices = [price(0, 100), price(60, 200), price(120, 400)];
    assert!(calc(1).try_prepare_volatility(&prices).unwrap().is_ok());
}

#[test]
fn non_positive_quotients_give_no_returns() {
    let r = estimate(&calc(1), &[price(0, 0), price(60, 5)]);
    assert_eq!(message(r), "No valid returns calculated");
    let r = estimate(&calc(1), &[price(0, 5), price(60, -5), price(120, 0)]);
    assert_eq!(message(r), "No valid returns calculated");
}

#[test]
fn estimates_have_two_returns_and_no_negative_value() {
    let prices = [price(0, 100), price(60, 90), price(120, 120), price(180, 80)];
    let e = estimate(&calc(525600), &prices).unwrap();
    assert!(e.num_observations >= 2);
    assert_eq!(e.num_observations, 3);
    assert!(e.value.mantissa >= 0);
    assert!(Decimal::from_i128_with_scale(e.value.mantissa, e.value.scale) > Decimal::ZERO);
}

#[test]
fn completing_takes_the_product_of_the_roots() {
    let prices = [price(0, 100), price(60, 200), price(120, 100)];
    let p = calc(4).prepare_volatility(&prices).unwrap();
    assert_eq!(p.num_observations, 2);
    assert_eq!(dec(p.factor), Decimal::from(4));
    let e = p.complete(Some(Amount::new(3, 0).unwrap()), Some(Amount::new(2, 0).unwrap())).unwrap().unwrap();
    assert_eq!(dec(e.value), Decimal::from(6));
    assert_eq!(e.window_start, Timestamp { secs: 0, nanos: 0 });
    assert_eq!(e.window_end, Timestamp { secs: 120, nanos: 0 });
    assert_eq!(message(p.complete(None, Some(Amount::new(2, 0).unwrap())).unwrap()), "Failed to calculate square root");
    assert_eq!(message(p.complete(Some(Amount::new(2, 0).unwrap()), None).unwrap()), "Failed to calculate square root");
    let big = Amount::new(volatility_estimator::decimal::MAX_MANTISSA, 0).unwrap();
    assert!(p.complete(Some(big), Some(big)).is_none());
}
