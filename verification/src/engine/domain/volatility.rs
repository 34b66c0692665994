use vstd::prelude::*;
use crate::decimal::Amount;
use crate::time::Timestamp;

verus! {

/// A volatility estimate over a window of prices.
#[derive(Clone, Copy, Debug)]
pub struct VolatilityEstimate {
    pub timestamp: Timestamp,
    pub value: Amount,
    pub window_start: Timestamp,
    pub window_end: Timestamp,
    pub num_observations: usize,
}

} // verus!
