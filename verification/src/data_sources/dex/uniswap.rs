use vstd::prelude::*;
use web3::types::U256;
use crate::text::{decimal_text, digits_value, lemma_decimal_text_value, lemma_leading_zeros_value, zeros};

verus! {

/// `256^n`.
pub open spec fn pow256(n: nat) -> nat
    decreases n,
{
    if n == 0 {
        1
    } else {
        256 * pow256((n - 1) as nat)
    }
}

/// The number that a big-endian byte string stands for.
pub open spec fn be_value(s: Seq<u8>) -> nat
    decreases s.len(),
{
    if s.len() == 0 {
        0
    } else {
        (s[0] as nat) * pow256((s.len() - 1) as nat) + be_value(s.drop_first())
    }
}

/// `2^256`: one more than the largest 256-bit word.
pub open spec fn word_modulus() -> nat {
    pow256(32)
}

/// `2^255`: the smallest word whose top bit is set.
pub open spec fn word_half() -> nat {
    128 * pow256(31)
}

/// The magnitude of a 256-bit two's-complement word: the word itself when
/// its top bit is clear, else the word subtracted from `2^256`.
pub open spec fn twos_complement_magnitude(v: nat) -> nat {
    if v >= word_half() {
        (word_modulus() - v) as nat
    } else {
        v
    }
}

/// The part of a fixed-point rendering before the point.
pub open spec fn integer_part(digits: Seq<char>, decimals: nat) -> Seq<char> {
    if digits.len() > decimals {
        digits.subrange(0, digits.len() - decimals)
    } else {
        seq!['0']
    }
}

/// The part of a fixed-point rendering after the point.
pub open spec fn fraction_part(digits: Seq<char>, decimals: nat) -> Seq<char> {
    if digits.len() > decimals {
        if decimals > 0 {
            digits.subrange(digits.len() - decimals, digits.len() as int)
        } else {
            seq!['0']
        }
    } else {
        zeros((decimals - digits.len()) as nat) + digits
    }
}

/// The digits of an integer amount rendered with `decimals` digits taken as
/// the fraction: the integer part ("0" when there is none), a point, and the
/// fraction left-padded with zeros ("0" when `decimals` is zero).
pub open spec fn fixed_point_text(digits: Seq<char>, decimals: nat) -> Seq<char> {
    integer_part(digits, decimals) + seq!['.'] + fraction_part(digits, decimals)
}

/// The text that `u256_to_string` gives for a word.
pub open spec fn amount_text(word: Seq<u8>, decimals: nat) -> Seq<char> {
    fixed_point_text(decimal_text(twos_complement_magnitude(be_value(word))), decimals)
}

/// The lower-case hexadecimal digit of a nibble.
pub open spec fn hex_digit(n: nat) -> char {
    if n < 10 {
        (48 + n) as char
    } else {
        (87 + n) as char
    }
}

/// Lower-case hexadecimal, two digits per byte, high nibble first.
pub open spec fn hex_lower(bytes: Seq<u8>) -> Seq<char>
    decreases bytes.len(),
{
    if bytes.len() == 0 {
        seq![]
    } else {
        seq![hex_digit((bytes[0] / 16) as nat), hex_digit((bytes[0] % 16) as nat)] + hex_lower(
            bytes.drop_first(),
        )
    }
}

/// Read as digits with the point left out, the text of an amount with a
/// positive number of decimals is the amount's magnitude, and exactly
/// `decimals` digits follow the point; with no decimals the text is the
/// magnitude followed by ".0".
pub proof fn lemma_amount_text_value(word: Seq<u8>, decimals: nat)
    ensures
        ({
            let digits = decimal_text(twos_complement_magnitude(be_value(word)));
            &&& amount_text(word, decimals) == integer_part(digits, decimals) + seq!['.']
                + fraction_part(digits, decimals)
            &&& decimals > 0 ==> fraction_part(digits, decimals).len() == decimals
            &&& decimals > 0 ==> digits_value(
                integer_part(digits, decimals) + fraction_part(digits, decimals),
            ) == twos_complement_magnitude(be_value(word))
            &&& decimals == 0 ==> amount_text(word, decimals) == digits + seq!['.', '0']
        }),
{
    let m = twos_complement_magnitude(be_value(word));
    let digits = decimal_text(m);
    lemma_decimal_text_value(m);
    if digits.len() > decimals {
        assert(integer_part(digits, decimals) + fraction_part(digits, decimals) =~= digits
            || decimals == 0);
    } else {
        assert(integer_part(digits, decimals) + fraction_part(digits, decimals) =~= zeros(
            (decimals - digits.len() + 1) as nat,
        ) + digits);
        lemma_leading_zeros_value((decimals - digits.len() + 1) as nat, digits);
    }
    if decimals == 0 {
        assert(integer_part(digits, decimals) =~= digits);
        assert(amount_text(word, decimals) =~= digits + seq!['.', '0']);
    }
}

pub proof fn lemma_be_value_bound(s: Seq<u8>)
    ensures
        be_value(s) < pow256(s.len()),
    decreases s.len(),
{
    if s.len() > 0 {
        let p = pow256((s.len() - 1) as nat);
        lemma_be_value_bound(s.drop_first());
        assert((s[0] as nat) * p + p <= 256 * p) by (nonlinear_arith)
            requires
                s[0] <= 255,
        ;
        assert((s[0] as nat) * p + p == ((s[0] as nat) + 1) * p) by (nonlinear_arith);
    }
}

/// A word's top bit is set exactly when its first byte is at least 128.
proof fn lemma_top_bit(s: Seq<u8>)
    requires
        s.len() == 32,
    ensures
        (be_value(s) >= word_half()) == (s[0] >= 128),
{
    let p = pow256(31);
    lemma_be_value_bound(s.drop_first());
    assert(be_value(s) == (s[0] as nat) * p + be_value(s.drop_first()));
    if s[0] >= 128 {
        assert((s[0] as nat) * p >= 128 * p) by (nonlinear_arith)
            requires
                s[0] >= 128,
        ;
    } else {
        assert((s[0] as nat) * p + p <= 128 * p) by (nonlinear_arith)
            requires
                s[0] <= 127,
        ;
    }
}

/// Complementing every byte complements the number.
proof fn lemma_be_value_complement(s: Seq<u8>, t: Seq<u8>)
    requires
        s.len() == t.len(),
        forall|i: int| 0 <= i < s.len() ==> t[i] == 255 - s[i],
    ensures
        be_value(s) + be_value(t) + 1 == pow256(s.len()),
    decreases s.len(),
{
    if s.len() > 0 {
        let p = pow256((s.len() - 1) as nat);
        lemma_be_value_complement(s.drop_first(), t.drop_first());
        assert((s[0] as nat) * p + (t[0] as nat) * p == 255 * p) by (nonlinear_arith)
            requires
                (s[0] as nat) + (t[0] as nat) == 255,
        ;
    }
}

/// Whether the top bit of a 256-bit word is set.
pub fn u256_is_negative(amount: &[u8; 32]) -> (r: bool)
    ensures
        r == (be_value(amount@) >= word_half()),
{
    proof {
        lemma_top_bit(amount@);
    }
    amount[0] >= 128
}

/// `word + 1`, from `U256::from_big_endian`, `U256` addition and
/// `U256::to_big_endian`. It is stated exactly; the word must not be the largest.
#[verifier::external_body]
fn u256_increment(word: &[u8; 32]) -> (r: [u8; 32])
    requires
        be_value(word@) + 1 < word_modulus(),
    ensures
        be_value(r@) == be_value(word@) + 1,
{
    let mut out = [0u8; 32];
    (U256::from_big_endian(word) + U256::one()).to_big_endian(&mut out);
    out
}

/// The decimal numeral of a word, from `U256::from_big_endian` and `U256`'s
/// `Display`, stated exactly: no sign, no leading zeros, "0" for zero.
#[verifier::external_body]
fn u256_decimal(word: &[u8; 32]) -> (r: String)
    ensures
        r@ == decimal_text(be_value(word@)),
{
    U256::from_big_endian(word).to_string()
}

/// The magnitude of a two's-complement word: negative words are complemented
/// byte by byte and incremented.
fn magnitude(amount: &[u8; 32]) -> (r: [u8; 32])
    ensures
        be_value(r@) == twos_complement_magnitude(be_value(amount@)),
{
    if !u256_is_negative(amount) {
        return *amount;
    }
    let mut out: [u8; 32] = *amount;
    let mut i: usize = 0;
    while i < 32
        invariant
            0 <= i <= 32,
            out@.len() == 32,
            forall|j: int| 0 <= j < i ==> out@[j] == 255 - amount@[j],
            forall|j: int| i <= j < 32 ==> out@[j] == amount@[j],
        decreases 32 - i,
    {
        let b = out[i];
        let nb = !b;
        assert(nb == 255 - b) by (bit_vector)
            requires
                nb == !b,
        ;
        out[i] = nb;
        i += 1;
    }
    proof {
        lemma_be_value_complement(amount@, out@);
        lemma_top_bit(amount@);
    }
    u256_increment(&out)
}

/// Renders a 256-bit two's-complement amount with `decimals` fraction digits.
/// The sign is dropped: a negative amount is rendered by its magnitude.
pub fn u256_to_string(amount: &[u8; 32], decimals: usize) -> (r: String)
    ensures
        r@ == amount_text(amount@, decimals as nat),
{
    let word = magnitude(amount);
    let digits = u256_decimal(&word);
    let len = digits.as_str().unicode_len();
    let ghost d = digits@;
    proof {
        reveal_strlit("0");
        reveal_strlit(".");
    }
    let mut result = String::new();
    if len > decimals {
        result.append(digits.as_str().substring_char(0, len - decimals));
    } else {
        result.append("0");
    }
    result.append(".");
    assert(result@ == integer_part(d, decimals as nat) + seq!['.']);
    if len > decimals {
        if decimals > 0 {
            result.append(digits.as_str().substring_char(len - decimals, len));
        } else {
            result.append("0");
        }
    } else {
        let ghost prefix = result@;
        let pad = decimals - len;
        let mut k: usize = 0;
        while k < pad
            invariant
                0 <= k <= pad,
                result@ == prefix + zeros(k as nat),
            decreases pad - k,
        {
            proof {
                reveal_strlit("0");
            }
            result.append("0");
            k += 1;
            assert(zeros(k as nat) =~= zeros((k - 1) as nat).push('0'));
            assert(result@ =~= prefix + zeros(k as nat));
        }
        result.append(digits.as_str());
        assert(result@ =~= prefix + (zeros(pad as nat) + d));
    }
    assert(result@ =~= fixed_point_text(d, decimals as nat));
    result
}

/// Lower-case hexadecimal from `hex::encode`, stated exactly: two digits per
/// byte, high nibble first.
#[verifier::external_body]
fn hex_encode(bytes: &[u8; 20]) -> (r: String)
    ensures
        r@ == hex_lower(bytes@),
{
    hex::encode(bytes)
}

/// The value of a hexadecimal digit of either case.
pub open spec fn hex_value(c: char) -> Option<nat> {
    let x = c as int;
    if 48 <= x <= 57 {
        Some((x - 48) as nat)
    } else if 97 <= x <= 102 {
        Some((x - 87) as nat)
    } else if 65 <= x <= 70 {
        Some((x - 55) as nat)
    } else {
        None
    }
}

/// Text that `hex::decode` accepts: an even number of hexadecimal digits.
pub open spec fn is_hex_text(s: Seq<char>) -> bool {
    s.len() % 2 == 0 && forall|i: int| 0 <= i < s.len() ==> (#[trigger] hex_value(s[i])) is Some
}

/// The bytes of hexadecimal text: each pair of digits, high nibble first.
pub open spec fn hex_decoded(s: Seq<char>) -> Seq<u8> {
    Seq::new(
        s.len() / 2,
        |i: int| (hex_value(s[2 * i]).unwrap() * 16 + hex_value(s[2 * i + 1]).unwrap()) as u8,
    )
}

/// Decoding lower-case hexadecimal gives the bytes back.
pub proof fn lemma_hex_roundtrip(bytes: Seq<u8>)
    ensures
        is_hex_text(hex_lower(bytes)),
        hex_decoded(hex_lower(bytes)) == bytes,
    decreases bytes.len(),
{
    lemma_hex_lower_len(bytes);
    if bytes.len() > 0 {
        let rest = bytes.drop_first();
        lemma_hex_roundtrip(rest);
        let h = hex_lower(bytes);
        let hr = hex_lower(rest);
        let b = bytes[0];
        let hi = (b / 16) as nat;
        let lo = (b % 16) as nat;
        assert(hex_value(hex_digit(hi)) == Some(hi));
        assert(hex_value(hex_digit(lo)) == Some(lo));
        assert(h == seq![hex_digit(hi), hex_digit(lo)] + hr);
        assert forall|i: int| 0 <= i < h.len() implies (#[trigger] hex_value(h[i])) is Some by {
            if i >= 2 {
                assert(h[i] == hr[i - 2]);
            }
        }
        assert forall|i: int| 0 <= i < bytes.len() implies #[trigger] hex_decoded(h)[i] == bytes[i] by {
            if i > 0 {
                assert(h[2 * i] == hr[2 * (i - 1)]);
                assert(h[2 * i + 1] == hr[2 * (i - 1) + 1]);
                assert(hex_decoded(hr)[i - 1] == rest[i - 1]);
            } else {
                assert(hi * 16 + lo == b);
            }
        }
        assert(hex_decoded(h) =~= bytes);
    } else {
        assert(hex_decoded(hex_lower(bytes)) =~= bytes);
    }
}

/// The bytes of hexadecimal text, from `hex::decode`, stated exactly: it
/// takes an even number of digits of either case, and `None` where it refuses the text.
#[verifier::external_body]
fn hex_decode(s: &str) -> (r: Option<Vec<u8>>)
    ensures
        r is Some <==> is_hex_text(s@),
        r matches Some(v) ==> v@ == hex_decoded(s@),
{
    match hex::decode(s) {
        Ok(v) => Some(v),
        Err(_) => None,
    }
}

/// The text with a leading "0x" taken off, where it has one.
pub open spec fn without_hex_prefix(t: Seq<char>) -> Seq<char> {
    if t.len() >= 2 && t[0] == '0' && t[1] == 'x' {
        t.subrange(2, t.len() as int)
    } else {
        t
    }
}

/// The 20 bytes of a pool address written as 40 hexadecimal digits, with
/// or without a leading "0x" (the form the pool address is configured in),
/// decoded as `hex::decode` and `H160::from_slice` take the digits; `None`
/// for any other text.
pub fn parse_pool_address(text: &str) -> (r: Option<[u8; 20]>)
    ensures
        r is Some <==> (is_hex_text(without_hex_prefix(text@)) && without_hex_prefix(text@).len()
            == 40),
        r matches Some(a) ==> a@ == hex_decoded(without_hex_prefix(text@)),
{
    let len = text.unicode_len();
    let s = if len >= 2 && text.get_char(0) == '0' && text.get_char(1) == 'x' {
        text.substring_char(2, len)
    } else {
        text
    };
    assert(s@ == without_hex_prefix(text@));
    let bytes = match hex_decode(s) {
        Some(v) => v,
        None => return None,
    };
    if bytes.len() != 20 {
        return None;
    }
    let mut out = [0u8; 20];
    let mut i: usize = 0;
    while i < 20
        invariant
            0 <= i <= 20,
            bytes@.len() == 20,
            out@.len() == 20,
            forall|j: int| 0 <= j < i ==> out@[j] == bytes@[j],
        decreases 20 - i,
    {
        out[i] = bytes[i];
        i += 1;
    }
    assert(out@ =~= bytes@);
    Some(out)
}

/// Hexadecimal takes two digits per byte.
pub proof fn lemma_hex_lower_len(bytes: Seq<u8>)
    ensures
        hex_lower(bytes).len() == 2 * bytes.len(),
    decreases bytes.len(),
{
    if bytes.len() > 0 {
        lemma_hex_lower_len(bytes.drop_first());
    }
}

/// An address as "0x" followed by its bytes in lower-case hexadecimal.
pub fn address_to_string(address: &[u8; 20]) -> (r: String)
    ensures
        r@ == seq!['0', 'x'] + hex_lower(address@),
{
    proof {
        reveal_strlit("0x");
    }
    let mut a = String::from_str("0x");
    a.append(hex_encode(address).as_str());
    a
}

/// The side of a swap: "sell" when the second amount is negative, else "buy".
/// Exactly one of the two amounts of a swap is negative.
pub fn swap_side(amount0: &[u8; 32], amount1: &[u8; 32]) -> (r: String)
    requires
        (be_value(amount0@) >= word_half()) != (be_value(amount1@) >= word_half()),
    ensures
        r@ == (if be_value(amount1@) >= word_half() {
            seq!['s', 'e', 'l', 'l']
        } else {
            seq!['b', 'u', 'y']
        }),
{
    proof {
        reveal_strlit("sell");
        reveal_strlit("buy");
    }
    if u256_is_negative(amount1) {
        String::from_str("sell")
    } else {
        String::from_str("buy")
    }
}

} // verus!
