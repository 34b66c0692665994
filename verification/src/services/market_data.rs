use vstd::prelude::*;
use crate::decimal::{amount_of, Amount};
use crate::engine::domain::{Price, Trade};

verus! {

/// The trade that a price stands for in the market-data service: at the
/// price's instant and venue, at its value, with a quantity of zero, since
/// a price carries no volume.
pub fn price_trade(price: Price) -> (r: Trade)
    ensures
        r == (Trade {
            timestamp: price.timestamp,
            price: price.value,
            quantity: amount_of((0i128, 0u32)),
            source: price.source,
        }),
{
    Trade::new(price.timestamp, price.value, Amount::zero(), price.source)
}

} // verus!
