use vstd::prelude::*;

verus! {

/// An instant as chrono's `DateTime<Utc>` holds it: whole seconds since the
/// Unix epoch (`DateTime::timestamp`) and the nanoseconds past that second
/// (`DateTime::timestamp_subsec_nanos`).
#[derive(Clone, Copy, Debug, PartialEq, Eq, Structural)]
pub struct Timestamp {
    pub secs: i64,
    pub nanos: u32,
}

/// Truncating division, as Rust's `/` does on signed integers.
pub open spec fn trunc_div(a: int, b: int) -> int {
    if a >= 0 {
        a / b
    } else {
        -((-a) / b)
    }
}

/// The start of the minute a timestamp falls in, counted as Rust counts it:
/// the seconds are divided by 60 with truncation toward zero, then multiplied back.
pub open spec fn minute_start(secs: int) -> int {
    trunc_div(secs, 60) * 60
}

/// Whether the first instant comes after the second, as `DateTime` orders them.
pub open spec fn is_after(a: Timestamp, b: Timestamp) -> bool {
    a.secs > b.secs || (a.secs == b.secs && a.nanos > b.nanos)
}

/// The seconds of a timestamp rounded to the start of its minute.
pub fn normalize_to_minute(secs: i64) -> (r: i64)
    ensures
        r == minute_start(secs as int),
{
    (secs / 60) * 60
}

/// The instant at the start of the minute of `t`: whole minutes of seconds,
/// no nanoseconds.
pub fn minute_of(t: Timestamp) -> (r: Timestamp)
    ensures
        r.secs == minute_start(t.secs as int),
        r.nanos == 0,
{
    Timestamp { secs: normalize_to_minute(t.secs), nanos: 0 }
}

/// The later of two instants, the second where they are equal.
pub fn later(a: Timestamp, b: Timestamp) -> (r: Timestamp)
    ensures
        r == (if is_after(a, b) { a } else { b }),
{
    if a.secs > b.secs || (a.secs == b.secs && a.nanos > b.nanos) {
        a
    } else {
        b
    }
}

/// The RFC 3339 text of the instant with these seconds and nanoseconds, as
/// chrono's `DateTime::<Utc>::to_rfc3339` writes it; `None` where chrono
/// has no such instant.
pub uninterp spec fn rfc3339_text(secs: i64, nanos: u32) -> Option<Seq<char>>;

/// The RFC 3339 text of an instant, from chrono's `DateTime::from_timestamp`
/// and `DateTime::to_rfc3339`; `None` where chrono has no such instant. The
/// text is named by `rfc3339_text`, not spelled out.
#[verifier::external_body]
pub fn rfc3339(t: Timestamp) -> (r: Option<String>)
    ensures
        match (r, rfc3339_text(t.secs, t.nanos)) {
            (Some(s), Some(text)) => s@ == text,
            (None, None) => true,
            _ => false,
        },
{
    match chrono::DateTime::from_timestamp(t.secs, t.nanos) {
        Some(d) => Some(d.to_rfc3339()),
        None => None,
    }
}

/// The instant that RFC 3339 text denotes, in UTC, as chrono's
/// `DateTime::parse_from_rfc3339` reads it; `None` where chrono refuses the text.
pub uninterp spec fn rfc3339_instant(text: Seq<char>) -> Option<Timestamp>;

/// The instant of RFC 3339 text, from chrono's `DateTime::parse_from_rfc3339`
/// taken to UTC; `None` where chrono refuses the text. The instant is named
/// by `rfc3339_instant`, not spelled out.
#[verifier::external_body]
pub fn parse_rfc3339(text: &str) -> (r: Option<Timestamp>)
    ensures
        r == rfc3339_instant(text@),
{
    match chrono::DateTime::parse_from_rfc3339(text) {
        Ok(d) => Some(Timestamp { secs: d.timestamp(), nanos: d.timestamp_subsec_nanos() }),
        Err(_) => None,
    }
}

/// The time of a trade reported as RFC 3339 text: the instant it denotes,
/// or the current time where the text is not RFC 3339.
pub fn trade_time(text: &str) -> (r: Timestamp)
    ensures
        rfc3339_instant(text@) matches Some(t) ==> r == t,
{
    match parse_rfc3339(text) {
        Some(t) => t,
        None => current_time(),
    }
}

/// The current time, from chrono's `Utc::now`. Nothing is stated of it: it
/// rests on the clock.
#[verifier::external_body]
pub fn current_time() -> (r: Timestamp)
{
    let now = chrono::Utc::now();
    Timestamp { secs: now.timestamp(), nanos: now.timestamp_subsec_nanos() }
}

/// The start of a minute is a whole number of minutes, lies between zero and
/// the instant, and less than a minute from it.
pub proof fn lemma_minute_start(secs: int)
    ensures
        minute_start(secs) % 60 == 0,
        secs >= 0 ==> 0 <= minute_start(secs) <= secs < minute_start(secs) + 60,
        secs < 0 ==> minute_start(secs) - 60 < secs <= minute_start(secs) <= 0,
        minute_start(minute_start(secs)) == minute_start(secs),
{
}

} // verus!
