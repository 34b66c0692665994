use vstd::prelude::*;
use crate::engine::domain::Source;
use crate::decimal::Amount;
use crate::time::Timestamp;

verus! {

/// A completed one-minute bar: its start, volume-weighted average price,
/// total volume and number of trades.
#[derive(Clone, Copy, Debug)]
pub struct VWAPData {
    pub start_time: Timestamp,
    pub source: Source,
    pub vwap: Amount,
    pub volume: Amount,
    pub trade_count: u32,
}

} // verus!
