use vstd::prelude::*;
use super::source::Source;
use crate::decimal::Amount;
use crate::time::Timestamp;

verus! {

/// A price observed at a venue.
#[derive(Clone, Copy, Debug)]
pub struct Price {
    pub timestamp: Timestamp,
    pub value: Amount,
    pub source: Source,
}

impl Price {
    pub fn new(timestamp: Timestamp, value: Amount, source: Source) -> (r: Self)
        ensures
            r == (Price { timestamp, value, source }),
    {
        Self { timestamp, value, source }
    }
}

} // verus!
