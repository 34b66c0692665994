use volatility_estimator::config::settings::{validate_schedule, KrakenConfig, StorageConfig};
use volatility_estimator::config::{is_valid_websocket_url, ReturnType};

#[test]
fn websocket_urls_must_be_secure() {
    assert!(is_valid_websocket_url("wss://mainnet.infura.io/ws/v3/KEY"));
    assert!(is_valid_websocket_url("wss://"));
    assert!(!is_valid_websocket_url("ws://mainnet.infura.io"));
    assert!(!is_valid_websocket_url("https://x"));
    assert!(!is_valid_websocket_url("wss:"));
    assert!(!is_valid_websocket_url(""));
}

#[test]
fn schedule_errors_in_order() {
    assert_eq!(validate_schedule(0, 60), Err("Rolling window must be positive".to_string()));
    assert_eq!(validate_schedule(-5, -5), Err("Rolling window must be positive".to_string()));
    assert_eq!(validate_schedule(3600, 0), Err("Sampling interval must be positive".to_string()));
    assert_eq!(
        validate_schedule(60, 60),
        Err("Sampling interval must be less than rolling window".to_string())
    );
    assert_eq!(validate_schedule(21600, 60), Ok(()));
}

#[test]
fn defaults() {
    assert_eq!(KrakenConfig::default().currency_pair, "ETH/USD");
    let s = StorageConfig::default();
    assert_eq!(s.max_file_size, 104857600);
    assert!(s.compress_old_files);
    assert_eq!(s.csv_directory, "data");
}

#[test]
fn return_types_compare() {
    assert_eq!(ReturnType::LogReturns, ReturnType::LogReturns);
    assert_ne!(ReturnType::LogReturns, ReturnType::SimpleReturns);
}
