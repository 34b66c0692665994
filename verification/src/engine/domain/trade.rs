use vstd::prelude::*;
use super::source::Source;
use crate::decimal::Amount;
use crate::time::Timestamp;

verus! {

/// A trade at a venue: its price and the quantity traded.
#[derive(Clone, Copy, Debug)]
pub struct Trade {
    pub timestamp: Timestamp,
    pub price: Amount,
    pub quantity: Amount,
    pub source: Source,
}

impl Trade {
    pub fn new(timestamp: Timestamp, price: Amount, quantity: Amount, source: Source) -> (r: Self)
        ensures
            r == (Trade { timestamp, price, quantity, source }),
    {
        Self { timestamp, price, quantity, source }
    }

    /// Both amounts of the trade are decimals.
    pub open spec fn wf(self) -> bool {
        self.price.wf() && self.quantity.wf()
    }
}

} // verus!
