use vstd::prelude::*;
use crate::config::settings::StorageConfig;
use crate::paths::{joined_path, path_join};
use crate::decimal::{decimal_display, display};
use crate::engine::domain::source::source_name;
use crate::engine::domain::Trade;
use crate::engine::processors::vwap::VWAPData;
use crate::text::{count_text, decimal_text};
use crate::time::{is_after, rfc3339, rfc3339_text, Timestamp};

verus! {

/// The CSV files of trades, VWAP bars and volatility estimates, kept in the
/// configured directory.
#[derive(Debug)]
pub struct CSVStorage {
    config: StorageConfig,
    trade_path: String,
    vwap_path: String,
    volatility_path: String,
}

/// A file being appended to, and its size before the append.
#[derive(Clone, Debug)]
pub struct StorageFile {
    path: std::path::PathBuf,
    current_size: u64,
}

impl StorageFile {
    pub fn new(path: std::path::PathBuf, current_size: u64) -> (r: Self)
        ensures
            r.current_size() == current_size,
            r.stored_path() == path,
    {
        Self { path, current_size }
    }

    /// The path of the file.
    pub closed spec fn stored_path(&self) -> std::path::PathBuf {
        self.path
    }

    pub closed spec fn current_size(&self) -> u64 {
        self.current_size
    }

    /// The path the file was made with.
    pub fn path(&self) -> (r: &std::path::PathBuf)
        ensures
            *r == self.stored_path(),
    {
        &self.path
    }

    pub fn size(&self) -> (r: u64)
        ensures
            r == self.current_size(),
    {
        self.current_size
    }
}

/// The header of the trade file.
pub open spec fn trade_header() -> Seq<char> {
    "timestamp,source,price,quantity\n"@
}

/// The header of the VWAP file.
pub open spec fn vwap_header() -> Seq<char> {
    "timestamp,source,vwap,volume,trade_count\n"@
}

/// The header of the volatility file.
pub open spec fn volatility_header() -> Seq<char> {
    "timestamp,value,window_start,window_end,num_observations\n"@
}

impl CSVStorage {
    /// The storage of a configuration: the files "trades.csv", "vwap.csv"
    /// and "volatility.csv" in its directory.
    pub fn with_config(config: StorageConfig) -> (r: Self)
        ensures
            r.config() == config,
            r.trade_file() == joined_path(config.csv_directory@, "trades.csv"@),
            r.vwap_file() == joined_path(config.csv_directory@, "vwap.csv"@),
            r.volatility_file() == joined_path(config.csv_directory@, "volatility.csv"@),
    {
        let trade_path = path_join(config.csv_directory.as_str(), "trades.csv");
        let vwap_path = path_join(config.csv_directory.as_str(), "vwap.csv");
        let volatility_path = path_join(config.csv_directory.as_str(), "volatility.csv");
        Self { trade_path, vwap_path, volatility_path, config }
    }

    pub closed spec fn config(&self) -> StorageConfig {
        self.config
    }

    pub fn storage_config(&self) -> (r: &StorageConfig)
        ensures
            *r == self.config(),
    {
        &self.config
    }

    /// The path of the trade file, fixed when the storage is made.
    pub closed spec fn trade_file(&self) -> Seq<char> {
        self.trade_path@
    }

    /// The path of the VWAP file, fixed when the storage is made.
    pub closed spec fn vwap_file(&self) -> Seq<char> {
        self.vwap_path@
    }

    /// The path of the volatility file, fixed when the storage is made.
    pub closed spec fn volatility_file(&self) -> Seq<char> {
        self.volatility_path@
    }

    /// The path of the trade file.
    pub fn trade_path(&self) -> (r: &str)
        ensures
            r@ == self.trade_file(),
    {
        self.trade_path.as_str()
    }

    /// The path of the VWAP file.
    pub fn vwap_path(&self) -> (r: &str)
        ensures
            r@ == self.vwap_file(),
    {
        self.vwap_path.as_str()
    }

    /// The path of the volatility file.
    pub fn volatility_path(&self) -> (r: &str)
        ensures
            r@ == self.volatility_file(),
    {
        self.volatility_path.as_str()
    }

    /// The header of the trade file.
    pub fn trade_header(&self) -> (r: &'static str)
        ensures
            r@ == trade_header(),
    {
        "timestamp,source,price,quantity\n"
    }

    /// The header of the VWAP file.
    pub fn vwap_header(&self) -> (r: &'static str)
        ensures
            r@ == vwap_header(),
    {
        "timestamp,source,vwap,volume,trade_count\n"
    }

    /// The header of the volatility file.
    pub fn volatility_header(&self) -> (r: &'static str)
        ensures
            r@ == volatility_header(),
    {
        "timestamp,value,window_start,window_end,num_observations\n"
    }

    /// Whether a file is rotated before it is appended to: its size has
    /// reached the configured maximum.
    pub fn needs_rotation(&self, file: &StorageFile) -> (r: bool)
        ensures
            r == (file.current_size() >= self.config().max_file_size),
    {
        file.current_size >= self.config.max_file_size
    }

    /// Whether a rotated file is compressed.
    pub fn compresses_rotated(&self) -> (r: bool)
        ensures
            r == self.config().compress_old_files,
    {
        self.config.compress_old_files
    }
}

/// A CSV row: the fields joined by commas, ended by a newline.
pub open spec fn csv_row(fields: Seq<Seq<char>>) -> Seq<char>
    decreases fields.len(),
{
    if fields.len() == 0 {
        seq!['\n']
    } else if fields.len() == 1 {
        fields[0] + seq!['\n']
    } else {
        fields[0] + seq![','] + csv_row(fields.drop_first())
    }
}

/// Appends `text` and then a comma to a row being written.
fn push_field(row: &mut String, text: &str)
    ensures
        final(row)@ == old(row)@ + text@ + seq![','],
{
    proof {
        reveal_strlit(",");
    }
    row.append(text);
    row.append(",");
}

/// The row of a trade in the trade file: its time, venue, price and quantity.
/// `None` where chrono has no such instant.
pub fn trade_line(trade: &Trade) -> (r: Option<String>)
    requires
        trade.wf(),
    ensures
        match rfc3339_text(trade.timestamp.secs, trade.timestamp.nanos) {
            None => r is None,
            Some(ts) => r matches Some(s) && s@ == csv_row(
                seq![
                    ts,
                    source_name(trade.source),
                    decimal_display(trade.price.parts()),
                    decimal_display(trade.quantity.parts()),
                ],
            ),
        },
{
    let ts = match rfc3339(trade.timestamp) {
        Some(t) => t,
        None => return None,
    };
    let mut row = String::new();
    push_field(&mut row, ts.as_str());
    push_field(&mut row, trade.source.as_str());
    push_field(&mut row, display(trade.price).as_str());
    proof {
        reveal_strlit("\n");
    }
    row.append(display(trade.quantity).as_str());
    row.append("\n");
    let ghost fields = seq![
        ts@,
        source_name(trade.source),
        decimal_display(trade.price.parts()),
        decimal_display(trade.quantity.parts()),
    ];
    assert(fields.drop_first().drop_first().drop_first() =~= seq![fields[3]]);
    assert(fields.drop_first().drop_first() =~= seq![fields[2], fields[3]]);
    assert(fields.drop_first() =~= seq![fields[1], fields[2], fields[3]]);
    proof {
        reveal_with_fuel(csv_row, 6);
    }
    assert(row@ =~= csv_row(fields));
    Some(row)
}

/// The row of a completed bar in the VWAP file: its start, venue, VWAP,
/// volume and number of trades. `None` where chrono has no such instant.
pub fn vwap_line(vwap: &VWAPData) -> (r: Option<String>)
    requires
        vwap.vwap.wf(),
        vwap.volume.wf(),
    ensures
        match rfc3339_text(vwap.start_time.secs, vwap.start_time.nanos) {
            None => r is None,
            Some(ts) => r matches Some(s) && s@ == csv_row(
                seq![
                    ts,
                    source_name(vwap.source),
                    decimal_display(vwap.vwap.parts()),
                    decimal_display(vwap.volume.parts()),
                    decimal_text(vwap.trade_count as nat),
                ],
            ),
        },
{
    let ts = match rfc3339(vwap.start_time) {
        Some(t) => t,
        None => return None,
    };
    let mut row = String::new();
    push_field(&mut row, ts.as_str());
    push_field(&mut row, vwap.source.as_str());
    push_field(&mut row, display(vwap.vwap).as_str());
    push_field(&mut row, display(vwap.volume).as_str());
    proof {
        reveal_strlit("\n");
    }
    row.append(count_text(vwap.trade_count as usize).as_str());
    row.append("\n");
    let ghost fields = seq![
        ts@,
        source_name(vwap.source),
        decimal_display(vwap.vwap.parts()),
        decimal_display(vwap.volume.parts()),
        decimal_text(vwap.trade_count as nat),
    ];
    assert(fields.drop_first().drop_first().drop_first().drop_first() =~= seq![fields[4]]);
    assert(fields.drop_first().drop_first().drop_first() =~= seq![fields[3], fields[4]]);
    assert(fields.drop_first().drop_first() =~= seq![fields[2], fields[3], fields[4]]);
    assert(fields.drop_first() =~= seq![fields[1], fields[2], fields[3], fields[4]]);
    proof {
        reveal_with_fuel(csv_row, 6);
    }
    assert(row@ =~= csv_row(fields));
    Some(row)
}

/// The row of an estimate in the volatility file: its time, value, window
/// start and end, and number of observations. `None` where chrono has no
/// such instant.
pub fn volatility_line(
    timestamp: Timestamp,
    value: crate::decimal::Amount,
    window_start: Timestamp,
    window_end: Timestamp,
    num_observations: usize,
) -> (r: Option<String>)
    requires
        value.wf(),
    ensures
        match (
            rfc3339_text(timestamp.secs, timestamp.nanos),
            rfc3339_text(window_start.secs, window_start.nanos),
            rfc3339_text(window_end.secs, window_end.nanos),
        ) {
            (Some(t), Some(ws), Some(we)) => r matches Some(s) && s@ == csv_row(
                seq![
                    t,
                    decimal_display(value.parts()),
                    ws,
                    we,
                    decimal_text(num_observations as nat),
                ],
            ),
            _ => r is None,
        },
{
    let t = match rfc3339(timestamp) {
        Some(t) => t,
        None => return None,
    };
    let ws = match rfc3339(window_start) {
        Some(t) => t,
        None => return None,
    };
    let we = match rfc3339(window_end) {
        Some(t) => t,
        None => return None,
    };
    let mut row = String::new();
    push_field(&mut row, t.as_str());
    push_field(&mut row, display(value).as_str());
    push_field(&mut row, ws.as_str());
    push_field(&mut row, we.as_str());
    proof {
        reveal_strlit("\n");
    }
    row.append(count_text(num_observations).as_str());
    row.append("\n");
    let ghost fields = seq![
        t@,
        decimal_display(value.parts()),
        ws@,
        we@,
        decimal_text(num_observations as nat),
    ];
    assert(fields.drop_first().drop_first().drop_first().drop_first() =~= seq![fields[4]]);
    assert(fields.drop_first().drop_first().drop_first() =~= seq![fields[3], fields[4]]);
    assert(fields.drop_first().drop_first() =~= seq![fields[2], fields[3], fields[4]]);
    assert(fields.drop_first() =~= seq![fields[1], fields[2], fields[3], fields[4]]);
    proof {
        reveal_with_fuel(csv_row, 6);
    }
    assert(row@ =~= csv_row(fields));
    Some(row)
}

/// Whether the cleanup removes a file: it is a CSV file last modified
/// before the cutoff.
pub fn is_expired_csv(is_csv: bool, modified: Timestamp, cutoff: Timestamp) -> (r: bool)
    ensures
        r == (is_csv && is_after(cutoff, modified)),
{
    is_csv && (cutoff.secs > modified.secs || (cutoff.secs == modified.secs && cutoff.nanos
        > modified.nanos))
}

} // verus!
