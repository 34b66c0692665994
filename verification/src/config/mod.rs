pub mod settings;

use vstd::prelude::*;

verus! {

/// Where the venues' feeds are read from.
#[derive(Clone, Debug)]
pub struct DataSourcesConfig {
    pub uniswap: UniswapConfig,
    pub kraken: KrakenConfig,
}

/// The Uniswap pool: its address, the websocket of the node, the contract's
/// ABI and the decimals of the pool's two tokens.
#[derive(Clone, Debug)]
pub struct UniswapConfig {
    pub pool_address: String,
    pub websocket_url: String,
    pub abi_path: std::path::PathBuf,
    pub decimal_token0: i8,
    pub decimal_token1: i8,
}

/// The Kraken pair and the websocket buffer.
#[derive(Clone, Debug)]
pub struct KrakenConfig {
    pub trading_pair: String,
    pub ws_buffer_size: usize,
}

/// Where the outputs are written.
#[derive(Clone, Debug)]
pub struct OutputConfig {
    pub data_dir: std::path::PathBuf,
    pub trade_files: TradeFilesConfig,
    pub vwap_files: VWAPFilesConfig,
    pub volatility_file: String,
}

/// The trade files of each venue.
#[derive(Clone, Debug)]
pub struct TradeFilesConfig {
    pub kraken: String,
    pub uniswap: String,
}

/// The VWAP files of each venue.
#[derive(Clone, Debug)]
pub struct VWAPFilesConfig {
    pub kraken: String,
    pub uniswap: String,
}

/// How returns are taken from prices.
#[derive(Clone, Copy, Debug, PartialEq, Eq, Structural)]
pub enum ReturnType {
    LogReturns,
    SimpleReturns,
    AbsoluteReturns,
}

/// The prefix a node's websocket URL must have.
pub open spec fn secure_websocket_prefix() -> Seq<char> {
    seq!['w', 's', 's', ':', '/', '/']
}

/// Whether a websocket URL starts with "wss://", as loading the
/// configuration demands.
pub fn is_valid_websocket_url(url: &str) -> (r: bool)
    ensures
        r == (url@.len() >= 6 && url@.subrange(0, 6) == secure_websocket_prefix()),
{
    proof {
        reveal_strlit("wss://");
    }
    let prefix = "wss://";
    let len = url.unicode_len();
    if len < 6 {
        return false;
    }
    let mut i: usize = 0;
    while i < 6
        invariant
            0 <= i <= 6,
            url@.len() >= 6,
            prefix@ == secure_websocket_prefix(),
            forall|j: int| 0 <= j < i ==> url@[j] == prefix@[j],
        decreases 6 - i,
    {
        if url.get_char(i) != prefix.get_char(i) {
            assert(url@.subrange(0, 6)[i as int] != secure_websocket_prefix()[i as int]);
            return false;
        }
        i += 1;
    }
    assert(url@.subrange(0, 6) =~= secure_websocket_prefix());
    true
}

} // verus!
