use vstd::prelude::*;

verus! {

/// Where the venues' feeds are read from.
#[derive(Clone, Debug)]
pub struct DataSourcesConfig {
    pub uniswap: UniswapConfig,
    pub kraken: KrakenConfig,
}

/// The Uniswap pool, the node's websocket and the contract's ABI.
#[derive(Clone, Debug)]
pub struct UniswapConfig {
    pub pool_address: String,
    pub websocket_url: String,
    pub abi_path: std::path::PathBuf,
}

/// The Kraken pair.
#[derive(Clone, Debug)]
pub struct KrakenConfig {
    pub currency_pair: String,
}

/// Where and how the CSV files are kept.
#[derive(Clone, Debug)]
pub struct StorageConfig {
    pub csv_directory: String,
    pub max_file_size: u64,
    pub compress_old_files: bool,
}

impl Default for KrakenConfig {
    fn default() -> (r: Self)
        ensures
            r.currency_pair@ == seq!['E', 'T', 'H', '/', 'U', 'S', 'D'],
    {
        proof {
            reveal_strlit("ETH/USD");
        }
        Self { currency_pair: String::from_str("ETH/USD") }
    }
}

impl Default for StorageConfig {
    fn default() -> (r: Self)
        ensures
            r.csv_directory@ == seq!['d', 'a', 't', 'a'],
            r.max_file_size == 104857600,
            r.compress_old_files,
    {
        proof {
            reveal_strlit("data");
        }
        Self { csv_directory: String::from_str("data"), max_file_size: 104857600, compress_old_files: true }
    }
}

/// Why a rolling window and a sampling interval, in seconds, cannot be used
/// together: each must be positive and the interval shorter than the window.
pub open spec fn schedule_error(rolling_window: i64, sampling_interval: i64) -> Option<Seq<char>> {
    if rolling_window <= 0 {
        Some("Rolling window must be positive"@)
    } else if sampling_interval <= 0 {
        Some("Sampling interval must be positive"@)
    } else if sampling_interval >= rolling_window {
        Some("Sampling interval must be less than rolling window"@)
    } else {
        None
    }
}

/// A rolling window and a sampling interval are accepted exactly when both
/// are positive and the interval is strictly shorter than the window. A
/// non-positive window is reported first, then a non-positive interval,
/// then an interval no shorter than the window.
pub proof fn lemma_schedule_validation(rolling_window: i64, sampling_interval: i64)
    ensures
        schedule_error(rolling_window, sampling_interval) is None <==> (0 < sampling_interval
            < rolling_window),
        rolling_window <= 0 ==> schedule_error(rolling_window, sampling_interval) == Some(
            "Rolling window must be positive"@,
        ),
        rolling_window > 0 && sampling_interval <= 0 ==> schedule_error(
            rolling_window,
            sampling_interval,
        ) == Some("Sampling interval must be positive"@),
        0 < rolling_window <= sampling_interval ==> schedule_error(rolling_window, sampling_interval)
            == Some("Sampling interval must be less than rolling window"@),
{
}

/// Checks the durations of a volatility configuration, in seconds, in the
/// order the whole configuration is checked after its weights.
pub fn validate_schedule(rolling_window: i64, sampling_interval: i64) -> (r: Result<(), String>)
    ensures
        match schedule_error(rolling_window, sampling_interval) {
            None => r is Ok,
            Some(msg) => r matches Err(e) && e@ == msg,
        },
{
    if rolling_window <= 0 {
        return Err(String::from_str("Rolling window must be positive"));
    }
    if sampling_interval <= 0 {
        return Err(String::from_str("Sampling interval must be positive"));
    }
    if sampling_interval >= rolling_window {
        return Err(String::from_str("Sampling interval must be less than rolling window"));
    }
    Ok(())
}

} // verus!
