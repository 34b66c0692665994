use vstd::prelude::*;
use crate::engine::domain::Source;
use crate::time::{is_after, later, Timestamp};

verus! {

/// The times of the latest price from each venue, as the price loop keeps them.
#[derive(Clone, Copy, Debug)]
pub struct LatestTimes {
    pub kraken: Option<Timestamp>,
    pub uniswap: Option<Timestamp>,
}

/// The time the volatility estimates are taken at: the later of the latest
/// times of the two venues, or the one there is. `None` before any price.
pub open spec fn current_time_of(kraken: Option<Timestamp>, uniswap: Option<Timestamp>) -> Option<
    Timestamp,
> {
    match (kraken, uniswap) {
        (Some(t1), Some(t2)) => Some(if is_after(t1, t2) { t1 } else { t2 }),
        (Some(t), None) => Some(t),
        (None, Some(t)) => Some(t),
        (None, None) => None,
    }
}

/// The latest times after an update from the venue `u.0` at `u.1`.
pub open spec fn observed(l: LatestTimes, u: (Source, Timestamp)) -> LatestTimes {
    LatestTimes {
        kraken: if u.0 == Source::Kraken {
            Some(u.1)
        } else {
            l.kraken
        },
        uniswap: if u.0 == Source::Uniswap {
            Some(u.1)
        } else {
            l.uniswap
        },
    }
}

/// The latest times after a run of updates, in order.
pub open spec fn observed_all(l: LatestTimes, updates: Seq<(Source, Timestamp)>) -> LatestTimes
    decreases updates.len(),
{
    if updates.len() == 0 {
        l
    } else {
        observed(observed_all(l, updates.drop_last()), updates.last())
    }
}

/// The time of the last of the updates from `source`, if there is one.
pub open spec fn last_time_from(updates: Seq<(Source, Timestamp)>, source: Source) -> Option<Timestamp>
    decreases updates.len(),
{
    if updates.len() == 0 {
        None
    } else if updates.last().0 == source {
        Some(updates.last().1)
    } else {
        last_time_from(updates.drop_last(), source)
    }
}

/// After any run of updates from a fresh start, each venue's latest time is
/// that of its last update in the run, and once there has been an update the
/// estimates are taken at the later of those two times (or the one there is).
pub proof fn lemma_latest_after_updates(updates: Seq<(Source, Timestamp)>)
    ensures
        observed_all(LatestTimes { kraken: None, uniswap: None }, updates) == (LatestTimes {
            kraken: last_time_from(updates, Source::Kraken),
            uniswap: last_time_from(updates, Source::Uniswap),
        }),
        updates.len() > 0 ==> current_time_of(
            last_time_from(updates, Source::Kraken),
            last_time_from(updates, Source::Uniswap),
        ) is Some,
    decreases updates.len(),
{
    if updates.len() > 0 {
        lemma_latest_after_updates(updates.drop_last());
    }
}

impl LatestTimes {
    pub fn new() -> (r: Self)
        ensures
            r == (LatestTimes { kraken: None, uniswap: None }),
            r.kraken is None,
            r.uniswap is None,
    {
        Self { kraken: None, uniswap: None }
    }

    /// Takes a price update from `source` at `t` and gives the time the
    /// estimates are then taken at.
    pub fn observe(&mut self, source: Source, t: Timestamp) -> (r: Option<Timestamp>)
        ensures
            *final(self) == observed(*old(self), (source, t)),
            final(self).kraken == (if source == Source::Kraken { Some(t) } else { old(self).kraken }),
            final(self).uniswap == (if source == Source::Uniswap { Some(t) } else { old(self).uniswap }),
            r == current_time_of(final(self).kraken, final(self).uniswap),
            r is Some,
    {
        match source {
            Source::Kraken => {
                self.kraken = Some(t);
            },
            Source::Uniswap => {
                self.uniswap = Some(t);
            },
        }
        match (self.kraken, self.uniswap) {
            (Some(t1), Some(t2)) => Some(later(t1, t2)),
            (Some(t1), None) => Some(t1),
            (None, Some(t2)) => Some(t2),
            (None, None) => None,
        }
    }
}

} // verus!
