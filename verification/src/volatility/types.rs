use vstd::prelude::*;

verus! {

/// How returns are taken from prices.
#[derive(Clone, Copy, Debug, PartialEq, Eq, Structural)]
pub enum ReturnType {
    LogReturns,
    SimpleReturns,
    AbsoluteReturns,
}

/// A named volatility window: its length and how often it is sampled, in seconds.
#[derive(Clone, Debug)]
pub struct VolatilityWindow {
    pub name: String,
    pub length_seconds: i64,
    pub sampling_interval: i64,
}

} // verus!
