use std::sync::Arc;
use volatility_estimator::config::settings::StorageConfig;
use volatility_estimator::infrastructure::storage::csv::is_expired_csv;
use volatility_estimator::infrastructure::storage::{CSVStorage, StorageFile};
use volatility_estimator::services::maintenance::MaintenanceService;
use volatility_estimator::time::Timestamp;

fn config(dir: &str, max: u64) -> StorageConfig {
    StorageConfig { csv_directory: dir.to_string(), max_file_size: max, compress_old_files: false }
}

#[test]
fn files_live_in_the_directory() {
    let s = CSVStorage::with_config(config("/tmp/vol", 1024));
    assert_eq!(s.trade_path(), std::path::Path::new("/tmp/vol").join("trades.csv").to_str().unwrap());
    assert_eq!(s.vwap_path(), std::path::Path::new("/tmp/vol").join("vwap.csv").to_str().unwrap());
    assert_eq!(s.volatility_path(), std::path::Path::new("/tmp/vol").join("volatility.csv").to_str().unwrap());
    assert_eq!(s.trade_header(), "timestamp,source,price,quantity\n");
    assert_eq!(s.vwap_header(), "timestamp,source,vwap,volume,trade_count\n");
    assert_eq!(s.volatility_header(), "timestamp,value,window_start,window_end,num_observations\n");
    assert!(!s.compresses_rotated());
}

#[test]
fn rotation_at_the_size_limit() {
    let s = CSVStorage::with_config(config("d", 1024));
    assert!(!s.needs_rotation(&StorageFile::new("d/trades.csv".into(), 1023)));
    assert!(s.needs_rotation(&StorageFile::new("d/trades.csv".into(), 1024)));
    assert!(s.needs_rotation(&StorageFile::new("d/trades.csv".into(), 5000)));
}

#[test]
fn only_old_csv_files_expire() {
    let cutoff = Timestamp { secs: 1000, nanos: 0 };
    assert!(is_expired_csv(true, Timestamp { secs: 999, nanos: 999 }, cutoff));
    assert!(!is_expired_csv(true, cutoff, cutoff));
    assert!(!is_expired_csv(false, Timestamp { secs: 1, nanos: 0 }, cutoff));
}

#[test]
fn maintenance_keeps_its_storage() {
    let storage = Arc::new(CSVStorage::with_config(config("d", 10)));
    let m = MaintenanceService::new(storage.clone());
    assert!(Arc::ptr_eq(m.storage_ref(), &storage));
}
