use vstd::prelude::*;
use crate::decimal::{
    amount_of, checked_add, checked_div, checked_ln, checked_mul, checked_sub, decimal_checked_add,
    decimal_checked_div, decimal_checked_ln, decimal_checked_mul, decimal_checked_sub, Amount,
};
use crate::engine::domain::{Price, VolatilityEstimate};
use crate::error::Error;
use crate::time::{current_time, Timestamp};

verus! {

/// The log returns of consecutive prices: for each pair whose earlier price
/// is not zero and whose quotient (the later price divided by the earlier
/// one) is above zero, the natural logarithm of that quotient, where it
/// exists. `None` where a quotient overflows.
pub open spec fn log_returns(prices: Seq<Price>) -> Option<Seq<(i128, u32)>>
    decreases prices.len(),
{
    if prices.len() < 2 {
        Some(seq![])
    } else {
        match log_returns(prices.drop_last()) {
            None => None,
            Some(rs) => {
                let prev = prices[prices.len() - 2];
                let curr = prices.last();
                if prev.value.mantissa == 0 {
                    Some(rs)
                } else {
                    match decimal_checked_div(curr.value.parts(), prev.value.parts()) {
                        None => None,
                        Some(q) => if q.0 <= 0 {
                            Some(rs)
                        } else {
                            match decimal_checked_ln(q) {
                                None => Some(rs),
                                Some(l) => Some(rs.push(l)),
                            }
                        },
                    }
                }
            },
        }
    }
}

/// The sum of decimals added from zero in order; `None` where an addition overflows.
pub open spec fn decimal_total(xs: Seq<(i128, u32)>) -> Option<(i128, u32)>
    decreases xs.len(),
{
    if xs.len() == 0 {
        Some((0i128, 0u32))
    } else {
        match decimal_total(xs.drop_last()) {
            None => None,
            Some(s) => decimal_checked_add(s, xs.last()),
        }
    }
}

/// The squared deviation of each decimal from `mean`; `None` where a
/// subtraction or a product overflows.
pub open spec fn squared_deviations(xs: Seq<(i128, u32)>, mean: (i128, u32)) -> Option<
    Seq<(i128, u32)>,
>
    decreases xs.len(),
{
    if xs.len() == 0 {
        Some(seq![])
    } else {
        match squared_deviations(xs.drop_last(), mean) {
            None => None,
            Some(sq) => match decimal_checked_sub(xs.last(), mean) {
                None => None,
                Some(d) => match decimal_checked_mul(d, d) {
                    None => None,
                    Some(p) => Some(sq.push(p)),
                },
            },
        }
    }
}

/// The sample variance of the returns: the mean is their sum over their
/// number, the variance the sum of squared deviations over one less than
/// their number. `None` where the arithmetic overflows or divides by zero.
pub open spec fn sample_variance(rs: Seq<(i128, u32)>) -> Option<(i128, u32)> {
    if rs.len() < 2 {
        None
    } else {
    match decimal_total(rs) {
        None => None,
        Some(s) => match decimal_checked_div(s, (rs.len() as i128, 0u32)) {
            None => None,
            Some(mean) => match squared_deviations(rs, mean) {
                None => None,
                Some(sq) => match decimal_total(sq) {
                    None => None,
                    Some(t) => decimal_checked_div(t, ((rs.len() - 1) as i128, 0u32)),
                },
            },
        },
    }
    }
}

/// What estimating the volatility of `prices` gives up to its square
/// roots: an error message, or the variance of the returns, the
/// annualization factor and the number of returns. `None` where the
/// arithmetic overflows or divides by zero.
pub open spec fn variance_outcome(
    factor: Result<(i128, u32), Seq<char>>,
    prices: Seq<Price>,
) -> Option<Result<((i128, u32), (i128, u32), nat), Seq<char>>> {
    if prices.len() < 2 {
        Some(Err("Insufficient price points"@))
    } else {
        match log_returns(prices) {
            None => None,
            Some(rs) => if rs.len() == 0 {
                Some(Err("No valid returns calculated"@))
            } else {
                match sample_variance(rs) {
                    None => None,
                    Some(variance) => match factor {
                        Err(msg) => Some(Err("Invalid annualization factor: "@ + msg)),
                        Ok(f) => Some(Ok((variance, f, rs.len()))),
                    },
                }
            },
        }
    }
}

/// The value of an estimate from the square roots of its variance and of
/// its annualization factor: their product, or the error message where
/// either has no root. `None` where the product overflows.
pub open spec fn value_outcome(var_sqrt: Option<(i128, u32)>, factor_sqrt: Option<(i128, u32)>) -> Option<
    Result<(i128, u32), Seq<char>>,
> {
    match (var_sqrt, factor_sqrt) {
        (Some(a), Some(b)) => match decimal_checked_mul(a, b) {
            None => None,
            Some(v) => Some(Ok(v)),
        },
        _ => Some(Err("Failed to calculate square root"@)),
    }
}

/// An estimate's value is the product of the root of its variance and the
/// root of its factor where both exist; without either root it is the
/// square-root error, whatever the other is.
pub proof fn lemma_value_is_product_of_roots(a: Option<(i128, u32)>, b: Option<(i128, u32)>)
    ensures
        (a is Some && b is Some) ==> match decimal_checked_mul(a.unwrap(), b.unwrap()) {
            Some(v) => value_outcome(a, b) == Some(Ok::<(i128, u32), Seq<char>>(v)),
            None => value_outcome(a, b) is None,
        },
        (a is None || b is None) ==> value_outcome(a, b) == Some(
            Err::<(i128, u32), Seq<char>>("Failed to calculate square root"@),
        ),
{
}

/// An estimate waiting for its square roots: the variance of the returns,
/// the annualization factor, the number of returns and the window.
#[derive(Clone, Copy, Debug)]
pub struct PendingEstimate {
    pub variance: Amount,
    pub factor: Amount,
    pub num_observations: usize,
    pub window_start: Timestamp,
    pub window_end: Timestamp,
}

impl PendingEstimate {
    /// Completes the estimate with the square roots of its variance and of
    /// its factor (`None` for a number that has none): its value is their
    /// product, at the current time; a calculation error where either root
    /// is missing; `None` where the product overflows. The value is not
    /// below zero where neither root is.
    pub fn complete(&self, var_sqrt: Option<Amount>, factor_sqrt: Option<Amount>) -> (r: Option<
        Result<VolatilityEstimate, Error>,
    >)
        requires
            var_sqrt matches Some(a) ==> a.wf(),
            factor_sqrt matches Some(b) ==> b.wf(),
        ensures
            match value_outcome(opt_parts_of(var_sqrt), opt_parts_of(factor_sqrt)) {
                None => r is None,
                Some(Err(msg)) => r matches Some(Err(Error::Calculation(m))) && m@ == msg,
                Some(Ok(v)) => r matches Some(Ok(e)) && {
                    &&& e.value.parts() == v
                    &&& e.num_observations == self.num_observations
                    &&& e.window_start == self.window_start
                    &&& e.window_end == self.window_end
                },
            },
            (var_sqrt matches Some(a) && a.mantissa >= 0) && (factor_sqrt matches Some(b)
                && b.mantissa >= 0) ==> (r matches Some(Ok(e)) ==> e.value.mantissa >= 0),
    {
        let value = match (var_sqrt, factor_sqrt) {
            (Some(a), Some(b)) => match checked_mul(a, b) {
                Some(v) => v,
                None => return None,
            },
            _ => {
                return Some(Err(Error::calculation(String::from_str("Failed to calculate square root"))));
            },
        };
        Some(
            Ok(
                VolatilityEstimate {
                    timestamp: current_time(),
                    value,
                    window_start: self.window_start,
                    window_end: self.window_end,
                    num_observations: self.num_observations,
                },
            ),
        )
    }
}

/// Estimates annualized volatility from prices with decimal arithmetic.
pub struct VolatilityCalculator {
    annualization_factor: Result<Amount, String>,
}

/// Whether every price holds a decimal.
pub open spec fn prices_wf(prices: Seq<Price>) -> bool {
    forall|i: int| 0 <= i < prices.len() ==> (#[trigger] prices[i]).value.wf()
}

impl VolatilityCalculator {
    /// A calculator with the annualization factor as a decimal, or the reason
    /// the configured factor is not one.
    pub fn new(annualization_factor: Result<Amount, String>) -> (r: Self)
        requires
            annualization_factor matches Ok(f) ==> f.wf(),
        ensures
            r.wf(),
            r.factor() == factor_of(annualization_factor),
    {
        Self { annualization_factor }
    }

    pub closed spec fn factor(&self) -> Result<(i128, u32), Seq<char>> {
        factor_of(self.annualization_factor)
    }

    pub closed spec fn wf(&self) -> bool {
        self.annualization_factor matches Ok(f) ==> f.wf()
    }

    /// The log returns of the prices (see `log_returns`); `None` where a
    /// quotient overflows.
    fn returns_of(prices: &[Price]) -> (r: Option<Vec<Amount>>)
        requires
            prices_wf(prices@),
        ensures
            match (r, log_returns(prices@)) {
                (Some(v), Some(rs)) => amounts_hold(v@, rs),
                (None, None) => true,
                _ => false,
            },
    {
        let mut out: Vec<Amount> = Vec::new();
        if prices.len() < 2 {
            return Some(out);
        }
        let mut i: usize = 1;
        while i < prices.len()
            invariant
                1 <= i <= prices@.len(),
                prices_wf(prices@),
                log_returns(prices@.take(i as int)) matches Some(rs) && amounts_hold(out@, rs),
            decreases prices@.len() - i,
        {
            proof {
                assert(prices@.take(i + 1).drop_last() =~= prices@.take(i as int));
                assert(prices@.take(i + 1)[i - 1] == prices@[i - 1]);
                assert(prices@.take(i + 1).last() == prices@[i as int]);
            }
            let prev = prices[i - 1].value;
            let curr = prices[i].value;
            if !prev.is_zero() {
                match checked_div(curr, prev) {
                    None => {
                        proof {
                            lemma_log_returns_failure_persists(prices@, i + 1);
                        }
                        return None;
                    },
                    Some(q) => match checked_ln(q) {
                        Some(l) => {
                            out.push(l);
                        },
                        None => {},
                    },
                }
            }
            i += 1;
        }
        assert(prices@.take(prices@.len() as int) =~= prices@);
        Some(out)
    }

    /// The sum of the amounts, from zero in order; `None` where it overflows.
    fn total(xs: &Vec<Amount>) -> (r: Option<Amount>)
        requires
            forall|i: int| 0 <= i < xs@.len() ==> (#[trigger] xs@[i]).wf(),
        ensures
            opt_parts_of(r) == decimal_total(parts_of(xs@)),
            r matches Some(a) ==> a.wf(),
    {
        let mut sum = Amount::zero();
        let mut i: usize = 0;
        while i < xs.len()
            invariant
                0 <= i <= xs@.len(),
                forall|k: int| 0 <= k < xs@.len() ==> (#[trigger] xs@[k]).wf(),
                sum.wf(),
                decimal_total(parts_of(xs@.take(i as int))) == Some(sum.parts()),
            decreases xs@.len() - i,
        {
            proof {
                assert(parts_of(xs@.take(i + 1)).drop_last() =~= parts_of(xs@.take(i as int)));
                assert(parts_of(xs@.take(i + 1)).last() == xs@[i as int].parts());
            }
            match checked_add(sum, xs[i]) {
                Some(s) => {
                    sum = s;
                },
                None => {
                    proof {
                        assert(parts_of(xs@).take(i + 1) =~= parts_of(xs@.take(i + 1)));
                        lemma_total_failure_persists(parts_of(xs@), i + 1);
                    }
                    return None;
                },
            }
            i += 1;
        }
        assert(xs@.take(xs@.len() as int) =~= xs@);
        Some(sum)
    }

    /// The squared deviations of the amounts from `mean`; `None` where it overflows.
    fn deviations(xs: &Vec<Amount>, mean: Amount) -> (r: Option<Vec<Amount>>)
        requires
            forall|i: int| 0 <= i < xs@.len() ==> (#[trigger] xs@[i]).wf(),
            mean.wf(),
        ensures
            match (r, squared_deviations(parts_of(xs@), mean.parts())) {
                (Some(v), Some(sq)) => amounts_hold(v@, sq),
                (None, None) => true,
                _ => false,
            },
    {
        let mut out: Vec<Amount> = Vec::new();
        let mut i: usize = 0;
        while i < xs.len()
            invariant
                0 <= i <= xs@.len(),
                forall|k: int| 0 <= k < xs@.len() ==> (#[trigger] xs@[k]).wf(),
                mean.wf(),
                squared_deviations(parts_of(xs@.take(i as int)), mean.parts()) matches Some(sq)
                    && amounts_hold(out@, sq),
            decreases xs@.len() - i,
        {
            proof {
                assert(parts_of(xs@.take(i + 1)).drop_last() =~= parts_of(xs@.take(i as int)));
                assert(parts_of(xs@.take(i + 1)).last() == xs@[i as int].parts());
            }
            let d = match checked_sub(xs[i], mean) {
                Some(d) => d,
                None => {
                    proof {
                        assert(parts_of(xs@).take(i + 1) =~= parts_of(xs@.take(i + 1)));
                        lemma_deviations_failure_persists(parts_of(xs@), mean.parts(), i + 1);
                    }
                    return None;
                },
            };
            match checked_mul(d, d) {
                Some(p) => {
                    out.push(p);
                },
                None => {
                    proof {
                        assert(parts_of(xs@).take(i + 1) =~= parts_of(xs@.take(i + 1)));
                        lemma_deviations_failure_persists(parts_of(xs@), mean.parts(), i + 1);
                    }
                    return None;
                },
            }
            i += 1;
        }
        assert(xs@.take(xs@.len() as int) =~= xs@);
        Some(out)
    }

    /// Estimates the volatility of `prices` up to its square roots (see
    /// `variance_outcome`); the outer `None` where the arithmetic overflows
    /// or divides by zero.
    fn checked_pending(&self, prices: &[Price]) -> (r: Option<Result<PendingEstimate, Error>>)
        requires
            self.wf(),
            prices_wf(prices@),
        ensures
            match (r, variance_outcome(self.factor(), prices@)) {
                (Some(res), Some(outcome)) => pending_matches(res, outcome, prices@),
                (None, None) => true,
                _ => false,
            },
    {
        if prices.len() < 2 {
            return Some(Err(Error::calculation(String::from_str("Insufficient price points"))));
        }
        let log_rets = match Self::returns_of(prices) {
            Some(rs) => rs,
            None => return None,
        };
        let ghost rs = log_returns(prices@).unwrap();
        proof {
            assert(parts_of(log_rets@) =~= rs);
        }
        if log_rets.len() == 0 {
            return Some(Err(Error::calculation(String::from_str("No valid returns calculated"))));
        }
        let sum = match Self::total(&log_rets) {
            Some(s) => s,
            None => return None,
        };
        let mean = match checked_div(sum, Amount::from_count(log_rets.len())) {
            Some(m) => m,
            None => return None,
        };
        let squares = match Self::deviations(&log_rets, mean) {
            Some(sq) => sq,
            None => return None,
        };
        let ghost sq = squared_deviations(rs, mean.parts()).unwrap();
        proof {
            assert(parts_of(squares@) =~= sq);
        }
        let squares_sum = match Self::total(&squares) {
            Some(t) => t,
            None => return None,
        };
        let variance = match checked_div(squares_sum, Amount::from_count(log_rets.len() - 1)) {
            Some(v) => v,
            None => return None,
        };
        let factor = match &self.annualization_factor {
            Ok(f) => *f,
            Err(e) => {
                let mut msg = String::from_str("Invalid annualization factor: ");
                msg.append(e.as_str());
                return Some(Err(Error::calculation(msg)));
            },
        };
        Some(
            Ok(
                PendingEstimate {
                    variance,
                    factor,
                    num_observations: log_rets.len(),
                    window_start: prices[0].timestamp,
                    window_end: prices[prices.len() - 1].timestamp,
                },
            ),
        )
    }

    /// Estimates the annualized volatility of `prices` up to its square
    /// roots: the sample variance of their log returns and the
    /// annualization factor, whose roots `PendingEstimate::complete` takes.
    /// The arithmetic must not overflow nor divide by zero.
    pub fn prepare_volatility(&self, prices: &[Price]) -> (r: Result<PendingEstimate, Error>)
        requires
            self.wf(),
            prices_wf(prices@),
            variance_outcome(self.factor(), prices@) is Some,
        ensures
            pending_matches(r, variance_outcome(self.factor(), prices@).unwrap(), prices@),
    {
        match self.checked_pending(prices) {
            Some(res) => res,
            // Not reached: the outcome is defined, so the checked computation gives one.
            None => Err(Error::calculation(String::new())),
        }
    }

    /// `prepare_volatility` where its arithmetic neither overflows nor
    /// divides by zero: `Some` with its result; otherwise `None`.
    pub fn try_prepare_volatility(&self, prices: &[Price]) -> (r: Option<Result<PendingEstimate, Error>>)
        requires
            self.wf(),
            prices_wf(prices@),
        ensures
            match variance_outcome(self.factor(), prices@) {
                Some(outcome) => r matches Some(res) && pending_matches(res, outcome, prices@),
                None => r is None,
            },
    {
        self.checked_pending(prices)
    }
}

/// A pending estimate, or an error, as the outcome says: a calculation
/// error with its message, or the variance, the factor and the number of
/// returns over the window from the first price to the last, each amount a
/// decimal and at least two returns.
pub open spec fn pending_matches(
    r: Result<PendingEstimate, Error>,
    outcome: Result<((i128, u32), (i128, u32), nat), Seq<char>>,
    prices: Seq<Price>,
) -> bool {
    match outcome {
        Err(msg) => r matches Err(Error::Calculation(m)) && m@ == msg,
        Ok((v, f, n)) => r matches Ok(p) && {
            &&& p.variance.parts() == v
            &&& p.factor.parts() == f
            &&& p.variance.wf()
            &&& p.factor.wf()
            &&& p.num_observations == n
            &&& n >= 2
            &&& p.window_start == prices[0].timestamp
            &&& p.window_end == prices[prices.len() - 1].timestamp
        },
    }
}

/// The mantissa and scale of the factor, or the reason there is none.
pub open spec fn factor_of(f: Result<Amount, String>) -> Result<(i128, u32), Seq<char>> {
    match f {
        Ok(a) => Ok(a.parts()),
        Err(e) => Err(e@),
    }
}

/// The mantissas and scales of amounts.
pub open spec fn parts_of(xs: Seq<Amount>) -> Seq<(i128, u32)> {
    xs.map_values(|a: Amount| a.parts())
}

/// The mantissa and scale of an optional amount.
pub open spec fn opt_parts_of(a: Option<Amount>) -> Option<(i128, u32)> {
    match a {
        Some(x) => Some(x.parts()),
        None => None,
    }
}

/// The amounts are decimals holding the given mantissas and scales.
pub open spec fn amounts_hold(xs: Seq<Amount>, ps: Seq<(i128, u32)>) -> bool {
    &&& xs.len() == ps.len()
    &&& forall|i: int| 0 <= i < xs.len() ==> (#[trigger] xs[i]).parts() == ps[i] && xs[i].wf()
}

proof fn lemma_log_returns_failure_persists(prices: Seq<Price>, k: int)
    requires
        0 <= k <= prices.len(),
        log_returns(prices.take(k)) is None,
    ensures
        log_returns(prices) is None,
    decreases prices.len(),
{
    if k < prices.len() {
        assert(prices.drop_last().take(k) =~= prices.take(k));
        lemma_log_returns_failure_persists(prices.drop_last(), k);
    } else {
        assert(prices.take(k) =~= prices);
    }
}

proof fn lemma_total_failure_persists(xs: Seq<(i128, u32)>, k: int)
    requires
        0 <= k <= xs.len(),
        decimal_total(xs.take(k)) is None,
    ensures
        decimal_total(xs) is None,
    decreases xs.len(),
{
    if k < xs.len() {
        assert(xs.drop_last().take(k) =~= xs.take(k));
        lemma_total_failure_persists(xs.drop_last(), k);
    } else {
        assert(xs.take(k) =~= xs);
    }
}

proof fn lemma_deviations_failure_persists(xs: Seq<(i128, u32)>, mean: (i128, u32), k: int)
    requires
        0 <= k <= xs.len(),
        squared_deviations(xs.take(k), mean) is None,
    ensures
        squared_deviations(xs, mean) is None,
    decreases xs.len(),
{
    if k < xs.len() {
        assert(xs.drop_last().take(k) =~= xs.take(k));
        lemma_deviations_failure_persists(xs.drop_last(), mean, k);
    } else {
        assert(xs.take(k) =~= xs);
    }
}

/// The log return of the pair of prices ending at position `i`, if it
/// gives one: its earlier price is not zero, the later price divided by the
/// earlier one is above zero, and that quotient has a logarithm.
pub open spec fn pair_log(prices: Seq<Price>, i: int) -> Option<(i128, u32)> {
    if i < 1 || i >= prices.len() || prices[i - 1].value.mantissa == 0 {
        None
    } else {
        match decimal_checked_div(prices[i].value.parts(), prices[i - 1].value.parts()) {
            Some(q) => if q.0 > 0 {
                decimal_checked_ln(q)
            } else {
                None
            },
            None => None,
        }
    }
}

/// The positions `0..n`.
pub open spec fn positions(n: nat) -> Seq<int> {
    Seq::new(n, |i: int| i)
}

/// The log returns that the pairs of prices give, in order (see `pair_log`).
pub open spec fn pair_logs(prices: Seq<Price>) -> Seq<(i128, u32)> {
    positions(prices.len()).filter_map(|i: int| pair_log(prices, i))
}

/// Two functions that agree on every element give the same `filter_map`.
proof fn lemma_filter_map_agree(s: Seq<int>, f: spec_fn(int) -> Option<(i128, u32)>, g: spec_fn(int) -> Option<(i128, u32)>)
    requires
        forall|k: int| 0 <= k < s.len() ==> f(#[trigger] s[k]) == g(s[k]),
    ensures
        s.filter_map(f) == s.filter_map(g),
    decreases s.len(),
{
    if s.len() > 0 {
        let rest = s.drop_last();
        assert forall|k: int| 0 <= k < rest.len() implies f(#[trigger] rest[k]) == g(rest[k]) by {
            assert(rest[k] == s[k]);
        }
        lemma_filter_map_agree(rest, f, g);
        assert(f(s.last()) == g(s[s.len() - 1]));
    }
}

/// The log returns of prices are, in order, one logarithm for each pair of
/// consecutive prices whose earlier price is not zero and whose quotient is
/// above zero and has a logarithm, a zero logarithm included, and nothing
/// for any other pair; there are returns exactly when no pair with a
/// non-zero earlier price has a quotient that overflows.
pub proof fn lemma_log_returns_are_pair_logs(prices: Seq<Price>)
    ensures
        log_returns(prices) is Some <==> (forall|i: int|
            1 <= i < prices.len() && prices[i - 1].value.mantissa != 0 ==> (#[trigger] decimal_checked_div(
                prices[i].value.parts(),
                prices[i - 1].value.parts(),
            )) is Some),
        log_returns(prices) is Some ==> log_returns(prices).unwrap() == pair_logs(prices),
    decreases prices.len(),
{
    let idx = positions(prices.len());
    let f = |i: int| pair_log(prices, i);
    assert(pair_logs(prices) == idx.filter_map(f));
    if prices.len() < 2 {
        if prices.len() == 1 {
            assert(idx.drop_last() =~= Seq::<int>::empty());
            assert(idx.last() == 0);
            assert(f(idx.last()) is None);
            assert(idx.drop_last().filter_map(f) =~= Seq::<(i128, u32)>::empty());
        } else {
            assert(idx =~= Seq::<int>::empty());
        }
        assert(idx.filter_map(f) =~= Seq::<(i128, u32)>::empty());
    } else {
        let init = prices.drop_last();
        let n = prices.len() - 1;
        lemma_log_returns_are_pair_logs(init);
        let idx0 = positions(init.len());
        let g = |i: int| pair_log(init, i);
        assert(pair_logs(init) == idx0.filter_map(g));
        assert(idx.drop_last() =~= idx0);
        assert(idx.last() == n);
        assert forall|k: int| 0 <= k < idx0.len() implies f(#[trigger] idx0[k]) == g(idx0[k]) by {
            if k >= 1 {
                assert(init[k] == prices[k]);
                assert(init[k - 1] == prices[k - 1]);
            }
        }
        lemma_filter_map_agree(idx0, f, g);
        assert(prices[n - 1] == prices[prices.len() - 2]);
        if log_returns(prices) is Some {
            let rs0 = log_returns(init).unwrap();
            assert(idx0.filter_map(g) == rs0);
            assert(idx.filter_map(f) == match f(idx.last()) {
                Some(l) => idx.drop_last().filter_map(f) + seq![l],
                None => idx.drop_last().filter_map(f),
            });
            assert(f(idx.last()) == pair_log(prices, n));
            match pair_log(prices, n) {
                Some(l) => {
                    assert(log_returns(prices) == Some(rs0.push(l)));
                    assert(rs0 + seq![l] =~= rs0.push(l));
                },
                None => {
                    assert(log_returns(prices) == Some(rs0));
                },
            }
            assert(log_returns(prices).unwrap() == idx.filter_map(f));
            assert forall|i: int|
                1 <= i < prices.len() && prices[i - 1].value.mantissa != 0 implies (#[trigger] decimal_checked_div(
                prices[i].value.parts(),
                prices[i - 1].value.parts(),
            )) is Some by {
                if i < n {
                    assert(init[i] == prices[i]);
                    assert(init[i - 1] == prices[i - 1]);
                }
            }
        } else {
            if log_returns(init) is None {
                let i = choose|i: int|
                    1 <= i < init.len() && init[i - 1].value.mantissa != 0 && (#[trigger] decimal_checked_div(
                    init[i].value.parts(),
                    init[i - 1].value.parts(),
                )) is None;
                assert(init[i] == prices[i]);
                assert(init[i - 1] == prices[i - 1]);
            }
        }
    }
}

/// The square of `x` less `mean`, where the subtraction and the product fit.
pub open spec fn deviation_square(x: (i128, u32), mean: (i128, u32)) -> Option<(i128, u32)> {
    match decimal_checked_sub(x, mean) {
        Some(d) => decimal_checked_mul(d, d),
        None => None,
    }
}

/// The square of each return less `mean`, position by position.
pub open spec fn deviation_squares(xs: Seq<(i128, u32)>, mean: (i128, u32)) -> Seq<(i128, u32)> {
    Seq::new(xs.len(), |i: int| deviation_square(xs[i], mean).unwrap())
}

/// A sum starts from zero and adds the items one after the other, in order.
pub proof fn lemma_total_in_order(xs: Seq<(i128, u32)>, x: (i128, u32))
    ensures
        decimal_total(Seq::empty()) == Some((0i128, 0u32)),
        decimal_total(xs.push(x)) == match decimal_total(xs) {
            Some(s) => decimal_checked_add(s, x),
            None => None,
        },
{
    assert(xs.push(x).drop_last() =~= xs);
}

proof fn lemma_squared_deviations_by_position(xs: Seq<(i128, u32)>, mean: (i128, u32))
    requires
        squared_deviations(xs, mean) is Some,
    ensures
        forall|i: int| 0 <= i < xs.len() ==> (#[trigger] deviation_square(xs[i], mean)) is Some,
        squared_deviations(xs, mean) == Some(deviation_squares(xs, mean)),
    decreases xs.len(),
{
    if xs.len() > 0 {
        let init = xs.drop_last();
        lemma_squared_deviations_by_position(init, mean);
        assert forall|i: int| 0 <= i < xs.len() implies (#[trigger] deviation_square(xs[i], mean)) is Some by {
            if i < init.len() {
                assert(init[i] == xs[i]);
                assert(deviation_square(init[i], mean) is Some);
            }
        }
        assert(deviation_squares(init, mean).push(deviation_square(xs.last(), mean).unwrap())
            =~= deviation_squares(xs, mean));
    } else {
        assert(deviation_squares(xs, mean) =~= Seq::<(i128, u32)>::empty());
    }
}

/// The variance a pending estimate holds is that of its returns: with the
/// mean their sum (taken in order from zero) divided by their number, it is
/// the sum of the squares of each return less the mean divided by one less
/// than their number, which is at least two; the factor is the configured one.
pub proof fn lemma_pending_variance(factor: Result<(i128, u32), Seq<char>>, prices: Seq<Price>)
    requires
        variance_outcome(factor, prices) matches Some(Ok(_)),
    ensures
        variance_outcome(factor, prices) matches Some(Ok((v, f, n))) && log_returns(prices) matches Some(
            rs,
        ) && {
            let s = decimal_total(rs).unwrap();
            let mean = decimal_checked_div(s, (n as i128, 0u32)).unwrap();
            let squares = deviation_squares(rs, mean);
            &&& n == rs.len()
            &&& n >= 2
            &&& factor == Ok::<(i128, u32), Seq<char>>(f)
            &&& decimal_total(rs) is Some
            &&& decimal_checked_div(s, (n as i128, 0u32)) is Some
            &&& forall|i: int| 0 <= i < n ==> (#[trigger] deviation_square(rs[i], mean)) is Some
            &&& decimal_total(squares) is Some
            &&& Some(v) == decimal_checked_div(decimal_total(squares).unwrap(), ((n - 1) as i128, 0u32))
        },
{
    let rs = log_returns(prices).unwrap();
    let s = decimal_total(rs).unwrap();
    let mean = decimal_checked_div(s, (rs.len() as i128, 0u32)).unwrap();
    lemma_squared_deviations_by_position(rs, mean);
}

/// There is at most one log return per pair of consecutive prices.
pub proof fn lemma_returns_per_pair(prices: Seq<Price>)
    requires
        prices.len() >= 1,
        log_returns(prices) is Some,
    ensures
        log_returns(prices).unwrap().len() <= prices.len() - 1,
    decreases prices.len(),
{
    if prices.len() >= 2 {
        lemma_returns_per_pair(prices.drop_last());
    }
}

} // verus!
