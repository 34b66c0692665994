use vstd::prelude::*;
use super::types::VolatilityWindow;
use crate::time::{is_after, Timestamp};

verus! {

/// The largest number of seconds a chrono `Duration` (`TimeDelta`) takes
/// from `Duration::seconds`: `i64::MAX / 1000`.
pub const MAX_DURATION_SECONDS: i64 = 9223372036854775i64;

/// How long prices are kept when no window is configured: six hours.
pub const DEFAULT_RETENTION_SECONDS: i64 = 21600i64;

/// Nanoseconds in a second.
pub const NANOS_PER_SECOND: i64 = 1_000_000_000i64;

/// The longest window length, if there is a window.
pub open spec fn longest_window(windows: Seq<VolatilityWindow>) -> Option<i64>
    decreases windows.len(),
{
    if windows.len() == 0 {
        None
    } else {
        match longest_window(windows.drop_last()) {
            None => Some(windows.last().length_seconds),
            Some(m) => Some(if windows.last().length_seconds > m { windows.last().length_seconds } else { m }),
        }
    }
}

/// How long prices are kept: the longest window's length, six hours without a window.
pub open spec fn retention_of(windows: Seq<VolatilityWindow>) -> i64 {
    match longest_window(windows) {
        Some(m) => m,
        None => DEFAULT_RETENTION_SECONDS,
    }
}

/// Prices are kept for at least as long as every window reaches back, and
/// the retention is one of the windows' lengths when there is a window.
pub proof fn lemma_retention_covers_windows(windows: Seq<VolatilityWindow>)
    ensures
        forall|i: int| 0 <= i < windows.len() ==> (#[trigger] windows[i]).length_seconds
            <= retention_of(windows),
        windows.len() > 0 ==> exists|i: int| 0 <= i < windows.len()
            && (#[trigger] windows[i]).length_seconds == retention_of(windows),
    decreases windows.len(),
{
    if windows.len() > 0 {
        let init = windows.drop_last();
        lemma_retention_covers_windows(init);
        assert forall|i: int| 0 <= i < windows.len() implies (#[trigger] windows[i]).length_seconds
            <= retention_of(windows) by {
            if i < windows.len() - 1 {
                assert(windows[i] == init[i]);
            }
        }
        if init.len() > 0 {
            let j = choose|j: int| 0 <= j < init.len() && (#[trigger] init[j]).length_seconds
                == retention_of(init);
            assert(windows[j] == init[j]);
            assert(windows[windows.len() - 1] == windows.last());
        } else {
            assert(windows[windows.len() - 1] == windows.last());
        }
    }
}

/// How long prices are kept, in seconds: the longest configured window, or
/// six hours when there is none.
pub fn retention_seconds(windows: &[VolatilityWindow]) -> (r: i64)
    ensures
        r == retention_of(windows@),
{
    let mut best: Option<i64> = None;
    let mut i: usize = 0;
    while i < windows.len()
        invariant
            0 <= i <= windows@.len(),
            best == longest_window(windows@.take(i as int)),
        decreases windows@.len() - i,
    {
        proof {
            assert(windows@.take(i + 1).drop_last() =~= windows@.take(i as int));
        }
        let len = windows[i].length_seconds;
        best = match best {
            None => Some(len),
            Some(m) => Some(if len > m { len } else { m }),
        };
        i += 1;
    }
    assert(windows@.take(windows@.len() as int) =~= windows@);
    match best {
        Some(m) => m,
        None => DEFAULT_RETENTION_SECONDS,
    }
}

/// The seconds and nanoseconds of the instant `n` whole seconds before `t`,
/// as chrono subtracts a `TimeDelta` of seconds: an instant inside a leap
/// second (nanoseconds of a whole second or more) first leaves it, to the
/// same nanoseconds of the leap second itself when moving back and of the
/// second after it when moving forward; subtracting nothing changes nothing.
pub open spec fn seconds_before(t: Timestamp, n: int) -> (int, int) {
    if t.nanos >= NANOS_PER_SECOND && n != 0 {
        (t.secs + (if n > 0 {
            1int
        } else {
            0int
        }) - n, t.nanos - NANOS_PER_SECOND)
    } else {
        (t.secs - n, t.nanos as int)
    }
}

/// Whether the instant `n` seconds before `t` has seconds that fit in an `i64`.
pub open spec fn seconds_before_fits(t: Timestamp, n: int) -> bool {
    i64::MIN <= seconds_before(t, n).0 <= i64::MAX
}

/// The instant `n` whole seconds before `t` (see `seconds_before`).
fn instant_before(t: Timestamp, n: i64) -> (r: Timestamp)
    requires
        seconds_before_fits(t, n as int),
    ensures
        (r.secs as int, r.nanos as int) == seconds_before(t, n as int),
{
    if t.nanos as i64 >= NANOS_PER_SECOND && n != 0 {
        let secs: i64 = if n > 0 {
            t.secs - (n - 1)
        } else {
            t.secs - n
        };
        Timestamp { secs, nanos: t.nanos - 1_000_000_000u32 }
    } else {
        Timestamp { secs: t.secs - n, nanos: t.nanos }
    }
}

/// The instant before which prices are dropped: `retention` seconds before
/// `now`, as chrono subtracts them (see `seconds_before`).
pub fn retention_cutoff(now: Timestamp, retention: i64) -> (r: Timestamp)
    requires
        seconds_before_fits(now, retention as int),
    ensures
        (r.secs as int, r.nanos as int) == seconds_before(now, retention as int),
{
    instant_before(now, retention)
}

/// Whether a price at `t` is kept against `cutoff`: it is not before it.
pub fn is_retained(t: Timestamp, cutoff: Timestamp) -> (r: bool)
    ensures
        r == !is_after(cutoff, t),
{
    !(cutoff.secs > t.secs || (cutoff.secs == t.secs && cutoff.nanos > t.nanos))
}

/// Seconds in a day.
pub const SECONDS_PER_DAY: i64 = 86400i64;

/// The second of its UTC day that an instant falls in.
pub open spec fn second_of_day(secs: int) -> int {
    secs % (SECONDS_PER_DAY as int)
}

/// The second counted on top of the seconds between two instants where a
/// leap second lies between them: where the later second of day is `b`'s
/// and `a` is in a leap second (nanoseconds of a whole second or more),
/// one more; where the later second of day is `a`'s and `b` is in a leap
/// second, one less.
pub open spec fn leap_adjustment(a: Timestamp, b: Timestamp) -> int {
    let da = second_of_day(a.secs as int);
    let db = second_of_day(b.secs as int);
    if db > da && a.nanos >= NANOS_PER_SECOND {
        1
    } else if db < da && b.nanos >= NANOS_PER_SECOND {
        -1
    } else {
        0
    }
}

/// Nanoseconds from `a` to `b` as chrono's `signed_duration_since` counts
/// them: the seconds between them, with a leap second counted where one
/// lies between them, and the nanoseconds past those seconds.
pub open spec fn nanos_between(a: Timestamp, b: Timestamp) -> int {
    (b.secs - a.secs + leap_adjustment(a, b)) * NANOS_PER_SECOND + (b.nanos - a.nanos)
}

/// The second of its UTC day that an instant with these seconds falls in.
fn second_of_day_of(secs: i64) -> (r: i64)
    ensures
        r == second_of_day(secs as int),
{
    let q: i64 = secs / SECONDS_PER_DAY;
    let m: i64 = secs - q * SECONDS_PER_DAY;
    proof {
        assert(m == (secs as int) - q * 86400);
        if secs >= 0 {
            assert(q == (secs as int) / 86400);
        }
    }
    if m < 0 {
        m + SECONDS_PER_DAY
    } else {
        m
    }
}

/// When a volatility window is computed: its length and sampling interval in
/// seconds, and when it was last computed.
#[derive(Clone, Copy, Debug)]
pub struct WindowSchedule {
    pub length_seconds: i64,
    pub sampling_interval: i64,
    pub last_calculation: Option<Timestamp>,
}

impl WindowSchedule {
    /// The schedule of a configured window, never computed yet. Each length
    /// must make a chrono `Duration`.
    pub fn new(window: &VolatilityWindow) -> (r: Self)
        requires
            -MAX_DURATION_SECONDS <= window.length_seconds <= MAX_DURATION_SECONDS,
            -MAX_DURATION_SECONDS <= window.sampling_interval <= MAX_DURATION_SECONDS,
        ensures
            r.length_seconds == window.length_seconds,
            r.sampling_interval == window.sampling_interval,
            r.last_calculation is None,
    {
        Self {
            length_seconds: window.length_seconds,
            sampling_interval: window.sampling_interval,
            last_calculation: None,
        }
    }

    /// Whether the window is due at `now`: it was never computed, or a whole
    /// sampling interval has passed since it was.
    pub open spec fn spec_is_due(self, now: Timestamp) -> bool {
        match self.last_calculation {
            None => true,
            Some(last) => nanos_between(last, now) >= self.sampling_interval * NANOS_PER_SECOND,
        }
    }

    pub fn is_due(&self, now: Timestamp) -> (r: bool)
        requires
            -MAX_DURATION_SECONDS <= self.sampling_interval <= MAX_DURATION_SECONDS,
        ensures
            r == self.spec_is_due(now),
    {
        match self.last_calculation {
            None => true,
            Some(last) => {
                let day_last = second_of_day_of(last.secs);
                let day_now = second_of_day_of(now.secs);
                let leap: i128 = if day_now > day_last && last.nanos as i64 >= NANOS_PER_SECOND {
                    1
                } else if day_now < day_last && now.nanos as i64 >= NANOS_PER_SECOND {
                    -1
                } else {
                    0
                };
                let secs: i128 = now.secs as i128 - last.secs as i128 + leap;
                let elapsed: i128 = secs * 1_000_000_000i128 + (now.nanos as i128
                    - last.nanos as i128);
                elapsed >= self.sampling_interval as i128 * 1_000_000_000i128
            },
        }
    }

    /// The first instant of the window ending at `now`: the window's length
    /// before `now`, as chrono subtracts it (see `seconds_before`).
    pub fn window_start(&self, now: Timestamp) -> (r: Timestamp)
        requires
            seconds_before_fits(now, self.length_seconds as int),
        ensures
            (r.secs as int, r.nanos as int) == seconds_before(now, self.length_seconds as int),
    {
        instant_before(now, self.length_seconds)
    }

    /// How many one-minute prices lie between two samples: the sampling
    /// interval's seconds, taken as a `usize`, divided by 60.
    pub fn sampling_step(&self) -> (r: usize)
        ensures
            r == (self.sampling_interval as usize) / 60,
    {
        (self.sampling_interval as usize) / 60
    }

    /// Records that the window was computed at `now`.
    pub fn mark_calculated(&mut self, now: Timestamp)
        ensures
            *final(self) == (WindowSchedule { last_calculation: Some(now), ..*old(self) }),
    {
        self.last_calculation = Some(now);
    }
}

/// Once a window is computed at `t1`, it is due at `t2` exactly when a
/// whole sampling interval has passed from `t1` to `t2`: estimates of one
/// window are at least a sampling interval apart.
pub proof fn lemma_due_once_per_interval(s: WindowSchedule, t1: Timestamp, t2: Timestamp)
    ensures
        (WindowSchedule { last_calculation: Some(t1), ..s }).spec_is_due(t2) <==> nanos_between(
            t1,
            t2,
        ) >= s.sampling_interval * NANOS_PER_SECOND,
        nanos_between(t1, t2) < s.sampling_interval * NANOS_PER_SECOND ==> !(WindowSchedule {
            last_calculation: Some(t1),
            ..s
        }).spec_is_due(t2),
{
}

/// Instants in strictly increasing order.
pub open spec fn strictly_increasing(keys: Seq<Timestamp>) -> bool {
    forall|i: int, j: int| 0 <= i < j < keys.len() ==> is_after(keys[j], keys[i])
}

/// Whether an instant lies in the window from `start` to `end`, both included.
pub open spec fn in_window(t: Timestamp, start: Timestamp, end: Timestamp) -> bool {
    !is_after(start, t) && !is_after(t, end)
}

/// The positions `lo..hi` are those of the instants (in increasing order)
/// that lie in the window.
pub open spec fn window_range(keys: Seq<Timestamp>, start: Timestamp, end: Timestamp, lo: int, hi: int) -> bool {
    &&& 0 <= lo <= hi <= keys.len()
    &&& forall|i: int| 0 <= i < lo ==> is_after(start, #[trigger] keys[i])
    &&& forall|i: int| lo <= i < hi ==> in_window(#[trigger] keys[i], start, end)
    &&& forall|i: int| hi <= i < keys.len() ==> !in_window(#[trigger] keys[i], start, end)
}

/// `r` holds `lo`, `lo + step`, `lo + 2 * step`, ... for as long as they are below `hi`.
pub open spec fn strided(lo: int, hi: int, step: int, r: Seq<usize>) -> bool {
    &&& forall|j: int| 0 <= j < r.len() ==> #[trigger] r[j] == lo + j * step
    &&& forall|j: int| 0 <= j < r.len() ==> #[trigger] r[j] < hi
    &&& (r.len() == 0) == (lo >= hi)
    &&& r.len() > 0 ==> r[r.len() - 1] + step >= hi
}

/// The positions of the prices a window samples: among the instants (in
/// increasing order) that lie from `start` to `end`, the first and then
/// every `step`-th.
pub fn select_window(keys: &[Timestamp], start: Timestamp, end: Timestamp, step: usize) -> (r: Vec<usize>)
    requires
        step > 0,
        strictly_increasing(keys@),
    ensures
        exists|lo: int, hi: int| window_range(keys@, start, end, lo, hi) && strided(lo, hi, step as int, r@),
{
    let n = keys.len();
    let mut lo: usize = 0;
    while lo < n && (start.secs > keys[lo].secs || (start.secs == keys[lo].secs && start.nanos > keys[lo].nanos))
        invariant
            0 <= lo <= n,
            n == keys@.len(),
            forall|i: int| 0 <= i < lo ==> is_after(start, #[trigger] keys@[i]),
        decreases n - lo,
    {
        lo += 1;
    }
    let mut hi: usize = lo;
    while hi < n && !(keys[hi].secs > end.secs || (keys[hi].secs == end.secs && keys[hi].nanos > end.nanos))
        invariant
            lo <= hi <= n,
            n == keys@.len(),
            strictly_increasing(keys@),
            lo < n ==> !is_after(start, keys@[lo as int]),
            forall|k: int| lo <= k < hi ==> in_window(#[trigger] keys@[k], start, end),
        decreases n - hi,
    {
        proof {
            if hi > lo {
                assert(is_after(keys@[hi as int], keys@[lo as int]));
            }
        }
        hi += 1;
    }
    proof {
        assert forall|i: int| hi <= i < keys@.len() implies !in_window(#[trigger] keys@[i], start, end) by {
            if i > hi {
                assert(is_after(keys@[i], keys@[hi as int]));
            }
        }
    }
    let mut r: Vec<usize> = Vec::new();
    let mut p: usize = lo;
    while p < hi
        invariant
            lo <= p,
            hi <= n,
            step > 0,
            p < hi ==> r@.len() * step + lo == p,
            p >= hi ==> strided(lo as int, hi as int, step as int, r@),
            forall|j: int| 0 <= j < r@.len() ==> #[trigger] r@[j] == lo + j * step,
            forall|j: int| 0 <= j < r@.len() ==> #[trigger] r@[j] < hi,
        decreases hi - p,
    {
        r.push(p);
        if step >= hi - p {
            p = hi;
        } else {
            p = p + step;
            assert(r@.len() * step + lo == p) by (nonlinear_arith)
                requires
                    (r@.len() - 1) * step + lo + step == p,
            ;
        }
    }
    assert(window_range(keys@, start, end, lo as int, hi as int));
    r
}

} // verus!
