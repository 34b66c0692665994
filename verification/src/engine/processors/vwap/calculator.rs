use vstd::prelude::*;
use crate::engine::domain::{Source, Trade};
use crate::decimal::{
    amount_of, checked_add, checked_div, checked_mul, decimal_checked_add, decimal_checked_div,
    decimal_checked_mul, Amount,
};
use crate::time::{current_time, is_after, minute_of, minute_start, Timestamp};
use super::types::VWAPData;

verus! {

/// The bar being filled: the trades of one minute from one venue.
#[derive(Clone, Copy, Debug)]
pub struct MinuteBar {
    pub start_time: Timestamp,
    pub volume_sum: Amount,
    pub volume_price_sum: Amount,
    pub trade_count: u32,
    pub source: Source,
}

/// A bar starting at `start_time` that holds no trade.
pub open spec fn empty_bar(start_time: Timestamp, source: Source) -> MinuteBar {
    MinuteBar {
        start_time,
        volume_sum: amount_of((0i128, 0u32)),
        volume_price_sum: amount_of((0i128, 0u32)),
        trade_count: 0,
        source,
    }
}

/// The bar after a trade is added: the quantity joins the volume, the
/// quantity times the price joins the volume-weighted sum, and the count
/// grows by one. `None` where a decimal operation overflows or the count
/// would pass `u32::MAX`.
pub open spec fn bar_with_trade(bar: MinuteBar, t: Trade) -> Option<MinuteBar> {
    match decimal_checked_add(bar.volume_sum.parts(), t.quantity.parts()) {
        None => None,
        Some(volume) => match decimal_checked_mul(t.quantity.parts(), t.price.parts()) {
            None => None,
            Some(product) => match decimal_checked_add(bar.volume_price_sum.parts(), product) {
                None => None,
                Some(weighted) => if bar.trade_count < u32::MAX {
                    Some(
                        MinuteBar {
                            volume_sum: amount_of(volume),
                            volume_price_sum: amount_of(weighted),
                            trade_count: (bar.trade_count + 1) as u32,
                            ..bar
                        },
                    )
                } else {
                    None
                },
            },
        },
    }
}

/// The volume-weighted average price of a bar: `Some(None)` for a bar with
/// no volume, `Some(Some(q))` with the quotient of the weighted sum by the
/// volume, `None` where that quotient overflows.
pub open spec fn bar_vwap(bar: MinuteBar) -> Option<Option<(i128, u32)>> {
    if bar.volume_sum.mantissa == 0 {
        Some(None)
    } else {
        match decimal_checked_div(bar.volume_price_sum.parts(), bar.volume_sum.parts()) {
            None => None,
            Some(q) => Some(Some(q)),
        }
    }
}

/// One trade seen by a calculator for `source` whose bar is `bar`: the new
/// bar and the bar completed by the trade, if any. A trade from another
/// venue changes nothing. A trade in a later minute than the bar's first
/// completes the bar (when it has volume) and opens a fresh one at the
/// trade's minute; the trade is then added to the bar. `None` where the
/// arithmetic overflows.
pub open spec fn bar_step(bar: MinuteBar, source: Source, t: Trade) -> Option<
    (MinuteBar, Option<VWAPData>),
> {
    if t.source != source {
        Some((bar, None))
    } else {
        let start = Timestamp { secs: minute_start(t.timestamp.secs as int) as i64, nanos: 0 };
        let rolled: Option<(MinuteBar, Option<VWAPData>)> = if is_after(start, bar.start_time) {
            match bar_vwap(bar) {
                None => None,
                Some(None) => Some((empty_bar(start, source), None)),
                Some(Some(q)) => Some(
                    (
                        empty_bar(start, source),
                        Some(
                            VWAPData {
                                start_time: bar.start_time,
                                source,
                                vwap: amount_of(q),
                                volume: bar.volume_sum,
                                trade_count: bar.trade_count,
                            },
                        ),
                    ),
                ),
            }
        } else {
            Some((bar, None))
        };
        match rolled {
            None => None,
            Some((b, completed)) => match bar_with_trade(b, t) {
                None => None,
                Some(b2) => Some((b2, completed)),
            },
        }
    }
}

/// The history of completed bars after `completed`: its VWAP recorded under its start.
pub open spec fn record(history: Map<i64, Amount>, completed: Option<VWAPData>) -> Map<
    i64,
    Amount,
> {
    match completed {
        Some(d) => history.insert(d.start_time.secs, d.vwap),
        None => history,
    }
}

/// A batch of trades run through a calculator: the bar, the history and the
/// last bar completed in the batch. `None` where the arithmetic overflows.
pub open spec fn run(
    bar: MinuteBar,
    history: Map<i64, Amount>,
    source: Source,
    trades: Seq<Trade>,
) -> Option<(MinuteBar, Map<i64, Amount>, Option<VWAPData>)>
    decreases trades.len(),
{
    if trades.len() == 0 {
        Some((bar, history, None))
    } else {
        match run(bar, history, source, trades.drop_last()) {
            None => None,
            Some((b, h, c)) => match bar_step(b, source, trades.last()) {
                None => None,
                Some((b2, c2)) => Some((b2, record(h, c2), if c2 is Some { c2 } else { c })),
            },
        }
    }
}

/// The shape every calculator keeps: its bar is its venue's and starts on a
/// whole minute, and every recorded bar started on a whole minute before
/// the current one.
pub open spec fn model_wf(bar: MinuteBar, history: Map<i64, Amount>, source: Source) -> bool {
    &&& bar.source == source
    &&& bar.start_time.nanos == 0
    &&& bar.start_time.secs == minute_start(bar.start_time.secs as int)
    &&& forall|k: i64| #[trigger]
        history.contains_key(k) ==> k < bar.start_time.secs && k == minute_start(k as int)
}

/// What a batch that ran without overflow keeps, from the bar and history
/// it found to the bar `b2` and history `h2` it left, with `c` the last bar
/// it completed: the calculator's shape; its bar only moves forward; no
/// recorded bar is overwritten or dropped; and a completed bar has volume,
/// belongs to the calculator's venue, starts on a whole minute no earlier
/// than the bar the batch found and before the bar it leaves, and its VWAP
/// is recorded under its start.
pub open spec fn run_keeps(
    bar: MinuteBar,
    history: Map<i64, Amount>,
    source: Source,
    b2: MinuteBar,
    h2: Map<i64, Amount>,
    c: Option<VWAPData>,
) -> bool {
    &&& model_wf(b2, h2, source)
    &&& b2.start_time.secs >= bar.start_time.secs
    &&& forall|k: i64| #[trigger]
        history.contains_key(k) ==> h2.contains_key(k) && h2[k] == history[k]
    &&& c matches Some(d) ==> {
        &&& h2.contains_key(d.start_time.secs)
        &&& h2[d.start_time.secs] == d.vwap
        &&& d.start_time.nanos == 0
        &&& d.start_time.secs == minute_start(d.start_time.secs as int)
        &&& bar.start_time.secs <= d.start_time.secs < b2.start_time.secs
        &&& d.volume.mantissa != 0
        &&& d.source == source
    }
}

impl MinuteBar {
    fn new(start_time: Timestamp, source: Source) -> (r: Self)
        ensures
            r == empty_bar(start_time, source),
            r.volume_sum.wf(),
            r.volume_price_sum.wf(),
    {
        Self {
            start_time,
            volume_sum: Amount::zero(),
            volume_price_sum: Amount::zero(),
            trade_count: 0,
            source,
        }
    }

    /// The bar with `trade` added; `None` where the arithmetic overflows.
    fn add_trade(&self, trade: &Trade) -> (r: Option<MinuteBar>)
        requires
            self.volume_sum.wf(),
            self.volume_price_sum.wf(),
            trade.wf(),
        ensures
            r == bar_with_trade(*self, *trade),
            r matches Some(b) ==> b.volume_sum.wf() && b.volume_price_sum.wf(),
    {
        let volume = match checked_add(self.volume_sum, trade.quantity) {
            Some(v) => v,
            None => return None,
        };
        let product = match checked_mul(trade.quantity, trade.price) {
            Some(p) => p,
            None => return None,
        };
        let weighted = match checked_add(self.volume_price_sum, product) {
            Some(w) => w,
            None => return None,
        };
        if self.trade_count == u32::MAX {
            return None;
        }
        Some(
            MinuteBar {
                volume_sum: volume,
                volume_price_sum: weighted,
                trade_count: self.trade_count + 1,
                ..*self
            },
        )
    }

    /// The bar's VWAP (`None` inside for a bar without volume); `None` where
    /// the quotient overflows.
    fn calculate_vwap(&self) -> (r: Option<Option<Amount>>)
        requires
            self.volume_sum.wf(),
            self.volume_price_sum.wf(),
        ensures
            match (r, bar_vwap(*self)) {
                (Some(a), Some(p)) => opt_parts_eq(a, p),
                (None, None) => true,
                _ => false,
            },
            r matches Some(Some(a)) ==> a.wf(),
    {
        if self.volume_sum.is_zero() {
            Some(None)
        } else {
            match checked_div(self.volume_price_sum, self.volume_sum) {
                Some(q) => Some(Some(q)),
                None => None,
            }
        }
    }

    /// One trade seen by the bar of a calculator for `source` (see `bar_step`).
    fn advance(&self, source: Source, trade: &Trade) -> (r: Option<(MinuteBar, Option<VWAPData>)>)
        requires
            self.volume_sum.wf(),
            self.volume_price_sum.wf(),
            trade.wf(),
        ensures
            r == bar_step(*self, source, *trade),
            r matches Some((b, c)) ==> {
                &&& b.volume_sum.wf()
                &&& b.volume_price_sum.wf()
                &&& c matches Some(d) ==> d.vwap.wf()
            },
    {
        if trade.source != source {
            return Some((*self, None));
        }
        let bar_start = minute_of(trade.timestamp);
        let start = self.start_time;
        let mut bar = *self;
        let mut completed: Option<VWAPData> = None;
        // A trade of a later minute completes the bar and opens a new one.
        if bar_start.secs > start.secs || (bar_start.secs == start.secs && bar_start.nanos
            > start.nanos) {
            match self.calculate_vwap() {
                None => return None,
                Some(Some(vwap)) => {
                    completed = Some(
                        VWAPData {
                            start_time: self.start_time,
                            source,
                            vwap,
                            volume: self.volume_sum,
                            trade_count: self.trade_count,
                        },
                    );
                },
                Some(None) => {},
            }
            bar = MinuteBar::new(bar_start, source);
        }
        match bar.add_trade(trade) {
            Some(b) => Some((b, completed)),
            None => None,
        }
    }
}

/// An optional amount holds the given optional mantissa and scale.
pub open spec fn opt_parts_eq(a: Option<Amount>, p: Option<(i128, u32)>) -> bool {
    match (a, p) {
        (Some(x), Some(q)) => x == amount_of(q),
        (None, None) => true,
        _ => false,
    }
}

/// Aggregates the trades of one venue into one-minute bars and their
/// volume-weighted average prices.
#[derive(Debug)]
pub struct VWAPCalculator {
    current_bar: MinuteBar,
    historical_bars: std::collections::BTreeMap<i64, Amount>,
    source: Source,
}

impl VWAPCalculator {
    /// The bar being filled.
    pub closed spec fn bar(&self) -> MinuteBar {
        self.current_bar
    }

    /// The VWAP of every completed bar, by the bar's start in seconds.
    pub closed spec fn history(&self) -> Map<i64, Amount> {
        self.historical_bars@
    }

    /// The venue whose trades the calculator takes.
    pub closed spec fn source(&self) -> Source {
        self.source
    }

    /// The calculator's shape, and every decimal it holds is one.
    pub closed spec fn wf(&self) -> bool {
        &&& model_wf(self.current_bar, self.historical_bars@, self.source)
        &&& self.current_bar.volume_sum.wf()
        &&& self.current_bar.volume_price_sum.wf()
        &&& forall|k: i64| #[trigger]
            self.historical_bars@.contains_key(k) ==> self.historical_bars@[k].wf()
    }

    /// A calculator whose first bar opens at the minute of the current time.
    pub fn new(source: Source) -> (r: Self)
        ensures
            r.wf(),
            r.source() == source,
            r.history() == Map::<i64, Amount>::empty(),
            r.bar() == empty_bar(r.bar().start_time, source),
            r.bar().start_time.nanos == 0,
            r.bar().start_time.secs == minute_start(r.bar().start_time.secs as int),
    {
        Self::starting_at(source, current_time())
    }

    /// A calculator whose first bar opens at the minute of `now`.
    pub fn starting_at(source: Source, now: Timestamp) -> (r: Self)
        ensures
            r.wf(),
            r.source() == source,
            r.history() == Map::<i64, Amount>::empty(),
            r.bar() == empty_bar(
                Timestamp { secs: minute_start(now.secs as int) as i64, nanos: 0 },
                source,
            ),
    {
        let start_time = minute_of(now);
        Self { current_bar: MinuteBar::new(start_time, source), historical_bars: std::collections::BTreeMap::new(), source }
    }

    /// Runs a batch of trades through the calculator (see `run`) and returns
    /// the last bar the batch completed. The batch must not overflow.
    pub fn process_trades(&mut self, trades: &[Trade]) -> (r: Option<VWAPData>)
        requires
            old(self).wf(),
            forall|i: int| 0 <= i < trades@.len() ==> (#[trigger] trades@[i]).wf(),
            run(old(self).bar(), old(self).history(), old(self).source(), trades@) is Some,
        ensures
            final(self).wf(),
            final(self).source() == old(self).source(),
            run(old(self).bar(), old(self).history(), old(self).source(), trades@) == Some(
                (final(self).bar(), final(self).history(), r),
            ),
            run_keeps(
                old(self).bar(),
                old(self).history(),
                old(self).source(),
                final(self).bar(),
                final(self).history(),
                r,
            ),
    {
        let ghost bar0 = self.current_bar;
        let ghost hist0 = self.historical_bars@;
        proof {
            lemma_run_laws(bar0, hist0, self.source, trades@);
        }
        if trades.len() == 0 {
            return None;
        }
        let mut completed: Option<VWAPData> = None;
        let mut i: usize = 0;
        while i < trades.len()
            invariant
                0 <= i <= trades@.len(),
                self.wf(),
                self.source == old(self).source(),
                bar0 == old(self).bar(),
                hist0 == old(self).history(),
                forall|j: int| 0 <= j < trades@.len() ==> (#[trigger] trades@[j]).wf(),
                run(bar0, hist0, self.source, trades@) is Some,
                run(bar0, hist0, self.source, trades@.take(i as int)) == Some(
                    (self.current_bar, self.historical_bars@, completed),
                ),
            decreases trades@.len() - i,
        {
            let trade = &trades[i];
            proof {
                lemma_run_prefix(bar0, hist0, self.source, trades@, i + 1);
                assert(trades@.take(i + 1).drop_last() =~= trades@.take(i as int));
                assert(trades@.take(i + 1).last() == trades@[i as int]);
                lemma_step_keeps_shape(self.current_bar, self.historical_bars@, self.source, *trade);
            }
            match self.current_bar.advance(self.source, trade) {
                Some((bar, c)) => {
                    if let Some(d) = c {
                        self.historical_bars.insert(d.start_time.secs, d.vwap);
                        completed = c;
                    }
                    self.current_bar = bar;
                },
                None => {
                    // Not reached: the batch runs without overflow.
                    return completed;
                },
            }
            i += 1;
        }
        assert(trades@.take(trades@.len() as int) =~= trades@);
        completed
    }

    /// Whether a batch of trades runs through the calculator without overflow.
    pub fn fits(&self, trades: &[Trade]) -> (r: bool)
        requires
            self.wf(),
            forall|i: int| 0 <= i < trades@.len() ==> (#[trigger] trades@[i]).wf(),
        ensures
            r == run(self.bar(), self.history(), self.source(), trades@) is Some,
    {
        let mut bar = self.current_bar;
        let ghost mut history = self.historical_bars@;
        let ghost mut completed: Option<VWAPData> = None;
        let mut i: usize = 0;
        while i < trades.len()
            invariant
                0 <= i <= trades@.len(),
                self.wf(),
                bar.volume_sum.wf(),
                bar.volume_price_sum.wf(),
                forall|j: int| 0 <= j < trades@.len() ==> (#[trigger] trades@[j]).wf(),
                run(self.bar(), self.history(), self.source(), trades@.take(i as int)) == Some(
                    (bar, history, completed),
                ),
            decreases trades@.len() - i,
        {
            proof {
                assert(trades@.take(i + 1).drop_last() =~= trades@.take(i as int));
                assert(trades@.take(i + 1).last() == trades@[i as int]);
            }
            match bar.advance(self.source, &trades[i]) {
                Some((b, c)) => {
                    proof {
                        history = record(history, c);
                        if c is Some {
                            completed = c;
                        }
                    }
                    bar = b;
                },
                None => {
                    proof {
                        lemma_run_failure_persists(
                            self.bar(),
                            self.history(),
                            self.source(),
                            trades@,
                            i + 1,
                        );
                    }
                    return false;
                },
            }
            i += 1;
        }
        assert(trades@.take(trades@.len() as int) =~= trades@);
        true
    }

    /// `process_trades` where the batch runs without overflow: `Some` with
    /// its result; otherwise `None`, and the calculator is left as it was.
    pub fn try_process_trades(&mut self, trades: &[Trade]) -> (r: Option<Option<VWAPData>>)
        requires
            old(self).wf(),
            forall|i: int| 0 <= i < trades@.len() ==> (#[trigger] trades@[i]).wf(),
        ensures
            final(self).wf(),
            final(self).source() == old(self).source(),
            match run(old(self).bar(), old(self).history(), old(self).source(), trades@) {
                Some((b, h, c)) => r == Some(c) && final(self).bar() == b && final(self).history()
                    == h && run_keeps(old(self).bar(), old(self).history(), old(self).source(), b, h, c),
                None => r is None && final(self).bar() == old(self).bar()
                    && final(self).history() == old(self).history(),
            },
    {
        if self.fits(trades) {
            Some(self.process_trades(trades))
        } else {
            None
        }
    }

    /// The VWAP of every completed bar, by the bar's start in seconds.
    pub fn get_historical_bars(&self) -> (r: &std::collections::BTreeMap<i64, Amount>)
        ensures
            r@ == self.history(),
    {
        &self.historical_bars
    }
}

/// A well-formed calculator has the shape of `model_wf`: its bar is its
/// venue's and starts on a whole minute, after every recorded bar, each of
/// which starts on a whole minute.
pub proof fn lemma_calculator_shape(c: &VWAPCalculator)
    requires
        c.wf(),
    ensures
        model_wf(c.bar(), c.history(), c.source()),
{
}

/// Trades of other venues change nothing wherever they stand in a batch:
/// the batch gives what its trades of the calculator's venue, in order, give.
pub proof fn lemma_other_venues_filtered(
    bar: MinuteBar,
    history: Map<i64, Amount>,
    source: Source,
    trades: Seq<Trade>,
)
    ensures
        run(bar, history, source, trades) == run(
            bar,
            history,
            source,
            trades.filter(|t: Trade| t.source == source),
        ),
    decreases trades.len(),
{
    reveal(Seq::filter);
    let pred = |t: Trade| t.source == source;
    if trades.len() > 0 {
        lemma_other_venues_filtered(bar, history, source, trades.drop_last());
        let f = trades.filter(pred);
        assert(f == if pred(trades.last()) {
            trades.drop_last().filter(pred).push(trades.last())
        } else {
            trades.drop_last().filter(pred)
        });
        if pred(trades.last()) {
            assert(f.drop_last() =~= trades.drop_last().filter(pred));
            assert(f.last() == trades.last());
        }
    }
}

/// A batch that runs without overflow runs so in every prefix.
proof fn lemma_run_prefix(
    bar: MinuteBar,
    history: Map<i64, Amount>,
    source: Source,
    trades: Seq<Trade>,
    k: int,
)
    requires
        0 <= k <= trades.len(),
        run(bar, history, source, trades) is Some,
    ensures
        run(bar, history, source, trades.take(k)) is Some,
    decreases trades.len(),
{
    if k < trades.len() {
        lemma_run_prefix(bar, history, source, trades.drop_last(), k);
        assert(trades.drop_last().take(k) =~= trades.take(k));
    } else {
        assert(trades.take(k) =~= trades);
    }
}

/// Once a prefix of a batch overflows, the batch does.
proof fn lemma_run_failure_persists(
    bar: MinuteBar,
    history: Map<i64, Amount>,
    source: Source,
    trades: Seq<Trade>,
    k: int,
)
    requires
        0 <= k <= trades.len(),
        run(bar, history, source, trades.take(k)) is None,
    ensures
        run(bar, history, source, trades) is None,
{
    if run(bar, history, source, trades) is Some {
        lemma_run_prefix(bar, history, source, trades, k);
    }
}

/// What every batch that runs without overflow keeps (see `run_keeps`).
pub proof fn lemma_run_laws(
    bar: MinuteBar,
    history: Map<i64, Amount>,
    source: Source,
    trades: Seq<Trade>,
)
    requires
        model_wf(bar, history, source),
        run(bar, history, source, trades) is Some,
    ensures
        run(bar, history, source, trades) matches Some((b2, h2, c)) && run_keeps(
            bar,
            history,
            source,
            b2,
            h2,
            c,
        ),
    decreases trades.len(),
{
    if trades.len() > 0 {
        lemma_run_laws(bar, history, source, trades.drop_last());
        let (b, h, c) = run(bar, history, source, trades.drop_last()).unwrap();
        lemma_step_keeps_shape(b, h, source, trades.last());
    }
}

/// Splitting a batch in two changes nothing: running the first part and
/// then the second leaves the same bar and history as running the whole
/// batch, and the bar reported as completed is the second part's, or the
/// first part's where the second completes none.
pub proof fn lemma_run_split(
    bar: MinuteBar,
    history: Map<i64, Amount>,
    source: Source,
    first: Seq<Trade>,
    second: Seq<Trade>,
)
    ensures
        run(bar, history, source, first + second) == match run(bar, history, source, first) {
            None => None,
            Some((b1, h1, c1)) => match run(b1, h1, source, second) {
                None => None,
                Some((b2, h2, c2)) => Some((b2, h2, if c2 is Some { c2 } else { c1 })),
            },
        },
    decreases second.len(),
{
    if second.len() == 0 {
        assert(first + second =~= first);
    } else {
        lemma_run_split(bar, history, source, first, second.drop_last());
        assert((first + second).drop_last() =~= first + second.drop_last());
        assert((first + second).last() == second.last());
    }
}

/// A bar with the trades added in order; `None` where the arithmetic overflows.
pub open spec fn accumulate(bar: MinuteBar, trades: Seq<Trade>) -> Option<MinuteBar>
    decreases trades.len(),
{
    if trades.len() == 0 {
        Some(bar)
    } else {
        match accumulate(bar, trades.drop_last()) {
            None => None,
            Some(b) => bar_with_trade(b, trades.last()),
        }
    }
}

/// Whether a trade falls in a minute no later than the bar's start.
pub open spec fn within_bar(bar: MinuteBar, t: Trade) -> bool {
    !is_after(Timestamp { secs: minute_start(t.timestamp.secs as int) as i64, nanos: 0 }, bar.start_time)
}

/// Trades of the calculator's venue that fall in the bar's minute (or
/// earlier) complete no bar: they are only added to the bar, which keeps
/// its start. So the VWAP a bar is completed with is the quotient of the
/// sums its trades accumulated (see `bar_vwap`).
pub proof fn lemma_same_minute_accumulates(
    bar: MinuteBar,
    history: Map<i64, Amount>,
    source: Source,
    trades: Seq<Trade>,
)
    requires
        forall|i: int| 0 <= i < trades.len() ==> (#[trigger] trades[i]).source == source
            && within_bar(bar, trades[i]),
    ensures
        run(bar, history, source, trades) == match accumulate(bar, trades) {
            None => None,
            Some(b) => Some((b, history, None::<VWAPData>)),
        },
        accumulate(bar, trades) matches Some(b) ==> b.start_time == bar.start_time && b.source
            == bar.source,
    decreases trades.len(),
{
    if trades.len() > 0 {
        let init = trades.drop_last();
        assert forall|i: int| 0 <= i < init.len() implies (#[trigger] init[i]).source == source
            && within_bar(bar, init[i]) by {
            assert(init[i] == trades[i]);
        }
        lemma_same_minute_accumulates(bar, history, source, init);
        assert(trades.last() == trades[trades.len() - 1]);
    }
}

/// Where a trade lands. A trade of another venue changes nothing. A trade
/// of the calculator's venue whose minute (its seconds rounded down to the
/// start of their minute) comes after the bar's start closes the bar: the
/// bar is completed with its start, volume, count and the quotient of its
/// volume-weighted sum by its volume, unless it has no volume, and the new
/// bar starts at the start of the trade's minute holding that trade alone.
/// Any other trade of the venue joins the bar, which keeps its start and
/// completes nothing. Either way the trade's quantity joins the volume, its
/// quantity times its price joins the weighted sum, and the count grows by one.
pub proof fn lemma_trade_lands_in_its_minute(bar: MinuteBar, source: Source, t: Trade)
    ensures
        t.source != source ==> bar_step(bar, source, t) == Some((bar, None::<VWAPData>)),
        t.source == source ==> (bar_step(bar, source, t) matches Some((b2, c)) ==> {
            let minute = Timestamp { secs: minute_start(t.timestamp.secs as int) as i64, nanos: 0 };
            let opens = is_after(minute, bar.start_time);
            let base = if opens {
                empty_bar(minute, source)
            } else {
                bar
            };
            &&& b2.start_time == (if opens {
                minute
            } else {
                bar.start_time
            })
            &&& b2.source == base.source
            &&& b2.trade_count == base.trade_count + 1
            &&& Some(b2.volume_sum.parts()) == decimal_checked_add(
                base.volume_sum.parts(),
                t.quantity.parts(),
            )
            &&& decimal_checked_mul(t.quantity.parts(), t.price.parts()) matches Some(p)
                && Some(b2.volume_price_sum.parts()) == decimal_checked_add(
                base.volume_price_sum.parts(),
                p,
            )
            &&& c == (if opens && bar.volume_sum.mantissa != 0 {
                Some(
                    VWAPData {
                        start_time: bar.start_time,
                        source,
                        vwap: amount_of(
                            decimal_checked_div(
                                bar.volume_price_sum.parts(),
                                bar.volume_sum.parts(),
                            ).unwrap(),
                        ),
                        volume: bar.volume_sum,
                        trade_count: bar.trade_count,
                    },
                )
            } else {
                None
            })
        }),
{
}

/// Trades from other venues leave a calculator as it was, and complete no bar.
pub proof fn lemma_foreign_trades_ignored(
    bar: MinuteBar,
    history: Map<i64, Amount>,
    source: Source,
    trades: Seq<Trade>,
)
    requires
        forall|i: int| 0 <= i < trades.len() ==> (#[trigger] trades[i]).source != source,
    ensures
        run(bar, history, source, trades) == Some((bar, history, None::<VWAPData>)),
    decreases trades.len(),
{
    if trades.len() > 0 {
        assert(trades.last() == trades[trades.len() - 1]);
        lemma_foreign_trades_ignored(bar, history, source, trades.drop_last());
    }
}

/// One step keeps the calculator's shape: the bar only moves forward, a
/// completed bar is recorded under a start before the new bar's, and no
/// recorded bar is overwritten.
proof fn lemma_step_keeps_shape(
    bar: MinuteBar,
    history: Map<i64, Amount>,
    source: Source,
    t: Trade,
)
    requires
        model_wf(bar, history, source),
    ensures
        bar_step(bar, source, t) matches Some((b2, c)) ==> {
            &&& model_wf(b2, record(history, c), source)
            &&& b2.start_time.secs >= bar.start_time.secs
            &&& forall|k: i64| #[trigger]
                history.contains_key(k) ==> record(history, c).contains_key(k) && record(
                    history,
                    c,
                )[k] == history[k]
            &&& c matches Some(d) ==> {
                &&& d.start_time.secs < b2.start_time.secs
                &&& d.volume.mantissa != 0
                &&& d.source == source
                &&& d.start_time == bar.start_time
            }
        },
{
    crate::time::lemma_minute_start(t.timestamp.secs as int);
}

} // verus!
