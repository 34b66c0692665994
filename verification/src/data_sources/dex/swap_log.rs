use vstd::prelude::*;
use web3::ethabi::param_type::Reader;
use web3::ethabi::{Event, EventParam, RawLog, Token};
use web3::types::H256;

verus! {

/// A parameter of a contract event: its name, its Solidity type as ethabi
/// writes it (`address`, `int256`, ...), and whether it is indexed.
#[derive(Clone, Debug)]
pub struct EventParamAbi {
    pub name: String,
    pub kind: String,
    pub indexed: bool,
}

impl View for EventParamAbi {
    type V = (Seq<char>, Seq<char>, bool);

    open spec fn view(&self) -> Self::V {
        (self.name@, self.kind@, self.indexed)
    }
}

/// A contract event as its ABI describes it: its name, its parameters in
/// order, and whether it is anonymous.
#[derive(Clone, Debug)]
pub struct SwapEventAbi {
    pub name: String,
    pub params: Vec<EventParamAbi>,
    pub anonymous: bool,
}

impl View for SwapEventAbi {
    type V = (Seq<char>, Seq<(Seq<char>, Seq<char>, bool)>, bool);

    open spec fn view(&self) -> Self::V {
        (self.name@, self.params@.map_values(|p: EventParamAbi| p@), self.anonymous)
    }
}

/// One value decoded from a log: an address, a signed or an unsigned
/// 256-bit word (big-endian; a signed one in two's complement), or a value
/// of another kind.
#[derive(Clone, Copy, Debug, PartialEq, Eq)]
pub enum LogValue {
    Address([u8; 20]),
    Int([u8; 32]),
    Uint([u8; 32]),
    Other,
}

/// Whether every character from position `from` on is a decimal digit.
pub open spec fn digits_from(k: Seq<char>, from: int) -> bool {
    forall|i: int| from <= i < k.len() ==> '0' <= #[trigger] k[i] <= '9'
}

/// Whether ethabi reads the type text as an address, a bool, or a signed or
/// unsigned integer: `address`, `bool`, or `int` or `uint` followed by
/// decimal digits only (none for the 256-bit default). Such values take one
/// 32-byte word each.
pub open spec fn elementary_kind(k: Seq<char>) -> bool {
    ||| k == "address"@
    ||| k == "bool"@
    ||| (k.len() >= 3 && k[0] == 'i' && k[1] == 'n' && k[2] == 't' && digits_from(k, 3))
    ||| (k.len() >= 4 && k[0] == 'u' && k[1] == 'i' && k[2] == 'n' && k[3] == 't' && digits_from(
        k,
        4,
    ))
}

/// Whether every parameter of the event has an elementary type.
pub open spec fn elementary_event(e: (Seq<char>, Seq<(Seq<char>, Seq<char>, bool)>, bool)) -> bool {
    forall|i: int| 0 <= i < e.1.len() ==> elementary_kind(#[trigger] e.1[i].1)
}

/// Whether the characters of `s` from position `from` on are decimal digits.
fn all_digits_from(s: &str, from: usize) -> (r: bool)
    requires
        from <= s@.len(),
    ensures
        r == digits_from(s@, from as int),
{
    let n = s.unicode_len();
    let mut i = from;
    while i < n
        invariant
            from <= i <= n,
            n == s@.len(),
            digits_from(s@.subrange(0, i as int), from as int),
        decreases n - i,
    {
        let c = s.get_char(i);
        if !('0' <= c && c <= '9') {
            assert(!('0' <= s@[i as int] <= '9'));
            return false;
        }
        i += 1;
        assert forall|j: int| from <= j < i implies '0' <= #[trigger] s@.subrange(0, i as int)[j]
            <= '9' by {
            if j < i - 1 {
                assert(s@.subrange(0, i as int)[j] == s@.subrange(0, i - 1)[j]);
            }
        }
    }
    assert(s@.subrange(0, n as int) =~= s@);
    true
}

/// Whether the type text is elementary (see `elementary_kind`).
pub fn is_elementary_kind(kind: &String) -> (r: bool)
    ensures
        r == elementary_kind(kind@),
{
    if *kind == String::from_str("address") || *kind == String::from_str("bool") {
        return true;
    }
    let s = kind.as_str();
    let n = s.unicode_len();
    if n >= 3 && s.get_char(0) == 'i' && s.get_char(1) == 'n' && s.get_char(2) == 't' {
        all_digits_from(s, 3)
    } else if n >= 4 && s.get_char(0) == 'u' && s.get_char(1) == 'i' && s.get_char(2) == 'n'
        && s.get_char(3) == 't' {
        all_digits_from(s, 4)
    } else {
        false
    }
}

/// Whether every parameter of the event has an elementary type.
pub fn has_elementary_params(event: &SwapEventAbi) -> (r: bool)
    ensures
        r == elementary_event(event@),
{
    let mut i: usize = 0;
    while i < event.params.len()
        invariant
            0 <= i <= event.params@.len(),
            forall|j: int| 0 <= j < i ==> elementary_kind(#[trigger] event@.1[j].1),
        decreases event.params@.len() - i,
    {
        if !is_elementary_kind(&event.params[i].kind) {
            assert(event@.1[i as int].1 == event.params@[i as int].kind@);
            return false;
        }
        i += 1;
    }
    true
}

/// The values that ethabi's `Event::parse_log` decodes from a log's topics
/// and data for an event, in the order of the event's parameters; `None`
/// where a parameter's type does not read or the log does not decode.
pub uninterp spec fn swap_log_values(
    event: (Seq<char>, Seq<(Seq<char>, Seq<char>, bool)>, bool),
    topics: Seq<Seq<u8>>,
    data: Seq<u8>,
) -> Option<Seq<LogValue>>;

/// The bytes of each topic.
pub open spec fn topics_view(topics: Seq<[u8; 32]>) -> Seq<Seq<u8>> {
    topics.map_values(|t: [u8; 32]| t@)
}

/// The values of an optional vector.
pub open spec fn opt_values(r: Option<Vec<LogValue>>) -> Option<Seq<LogValue>> {
    match r {
        Some(v) => Some(v@),
        None => None,
    }
}

/// ethabi's `Event::parse_log`, on the event made of `event` (each
/// parameter's type read by `param_type::Reader::read`) and the raw log of
/// `topics` and `data`: the decoded values in the order of the event's
/// parameters, each address, signed and unsigned word as such and any other
/// value as `Other`; `None` where ethabi refuses the log. There is one
/// value for each parameter. The values are named by `swap_log_values`, not
/// spelled out. Every parameter type is elementary: ethabi reads other type
/// texts in ways that can panic or not return (array and tuple texts, fixed
/// byte widths), and these are left out.
#[verifier::external_body]
fn decode_swap_log(event: SwapEventAbi, topics: &Vec<[u8; 32]>, data: Vec<u8>) -> (r: Option<Vec<LogValue>>)
    requires
        elementary_event(event@),
    ensures
        opt_values(r) == swap_log_values(event@, topics_view(topics@), data@),
        r matches Some(v) ==> v@.len() == event.params@.len(),
{
    let mut inputs = Vec::new();
    for p in event.params {
        inputs.push(EventParam { name: p.name, kind: Reader::read(&p.kind).ok()?, indexed: p.indexed });
    }
    let abi = Event { name: event.name, inputs, anonymous: event.anonymous };
    let log = abi.parse_log(RawLog { topics: topics.iter().map(H256::from).collect(), data }).ok()?;
    Some(log.params.into_iter().map(|p| match p.value {
        Token::Address(a) => LogValue::Address(a.0),
        Token::Int(x) => LogValue::Int(x.into()),
        Token::Uint(x) => LogValue::Uint(x.into()),
        _ => LogValue::Other,
    }).collect())
}

/// The fields of a swap: who sent and who received it, the two signed
/// amounts, the square root of the price as a Q64.96 number, the pool's
/// liquidity and its signed tick, each word big-endian.
#[derive(Clone, Copy, Debug, PartialEq, Eq)]
pub struct SwapLog {
    pub sender: [u8; 20],
    pub recipient: [u8; 20],
    pub amount0: [u8; 32],
    pub amount1: [u8; 32],
    pub sqrt_price_x96: [u8; 32],
    pub liquidity: [u8; 32],
    pub tick: [u8; 32],
}

/// The swap that decoded values hold: two addresses, two signed words, two
/// unsigned words and a signed word, in this order, as the first seven
/// values; `None` where they are not such.
pub open spec fn swap_of_values(vs: Seq<LogValue>) -> Option<SwapLog> {
    if vs.len() < 7 {
        None
    } else {
        match (vs[0], vs[1], vs[2], vs[3]) {
            (
                LogValue::Address(sender),
                LogValue::Address(recipient),
                LogValue::Int(amount0),
                LogValue::Int(amount1),
            ) => match (vs[4], vs[5], vs[6]) {
                (LogValue::Uint(sqrt_price_x96), LogValue::Uint(liquidity), LogValue::Int(tick)) => Some(
                    SwapLog { sender, recipient, amount0, amount1, sqrt_price_x96, liquidity, tick },
                ),
                _ => None,
            },
            _ => None,
        }
    }
}

/// Why a raw log gives no swap.
#[derive(Clone, Copy, Debug, PartialEq, Eq)]
pub enum SwapLogError {
    /// The log does not decode as the event.
    InvalidLog,
    /// The decoded values are not those of a swap.
    UnexpectedValues,
}

/// The swap that decoded values hold (see `swap_of_values`).
pub fn swap_from_values(values: &Vec<LogValue>) -> (r: Option<SwapLog>)
    ensures
        r == swap_of_values(values@),
{
    if values.len() < 7 {
        return None;
    }
    match (values[0], values[1], values[2], values[3]) {
        (
            LogValue::Address(sender),
            LogValue::Address(recipient),
            LogValue::Int(amount0),
            LogValue::Int(amount1),
        ) => match (values[4], values[5], values[6]) {
            (LogValue::Uint(sqrt_price_x96), LogValue::Uint(liquidity), LogValue::Int(tick)) => Some(
                SwapLog { sender, recipient, amount0, amount1, sqrt_price_x96, liquidity, tick },
            ),
            _ => None,
        },
        _ => None,
    }
}

/// Decodes a raw log of the swap event, whose parameters have elementary
/// types: the swap its values hold; an `InvalidLog` error where ethabi
/// refuses the log for the event, and an `UnexpectedValues` error where the
/// values are not those of a swap.
pub fn parse_swap_log(event: SwapEventAbi, topics: &Vec<[u8; 32]>, data: Vec<u8>) -> (r: Result<
    SwapLog,
    SwapLogError,
>)
    requires
        elementary_event(event@),
    ensures
        match swap_log_values(event@, topics_view(topics@), data@) {
            None => r == Err::<SwapLog, SwapLogError>(SwapLogError::InvalidLog),
            Some(vs) => match swap_of_values(vs) {
                Some(s) => r == Ok::<SwapLog, SwapLogError>(s),
                None => r == Err::<SwapLog, SwapLogError>(SwapLogError::UnexpectedValues),
            },
        },
{
    match decode_swap_log(event, topics, data) {
        None => Err(SwapLogError::InvalidLog),
        Some(values) => match swap_from_values(&values) {
            Some(s) => Ok(s),
            None => Err(SwapLogError::UnexpectedValues),
        },
    }
}

} // verus!
