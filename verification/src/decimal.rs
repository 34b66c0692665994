use vstd::prelude::*;
use rust_decimal::Decimal;
use rust_decimal::MathematicalOps;
use crate::text::{decimal_text, zeros};

verus! {

/// The largest mantissa a `rust_decimal::Decimal` holds: `2^96 - 1`.
pub const MAX_MANTISSA: i128 = 79228162514264337593543950335i128;

/// The largest scale a `rust_decimal::Decimal` holds.
pub const MAX_SCALE: u32 = 28u32;

/// A decimal number as `rust_decimal::Decimal` holds it: the value is
/// `mantissa / 10^scale`, the mantissa fits in 96 bits and the scale is at most 28.
#[derive(Clone, Copy, Debug)]
pub struct Amount {
    pub mantissa: i128,
    pub scale: u32,
}

/// Whether a mantissa and a scale make a decimal.
pub open spec fn valid_parts(p: (i128, u32)) -> bool {
    -MAX_MANTISSA <= p.0 <= MAX_MANTISSA && p.1 <= MAX_SCALE
}

/// The amount with the given mantissa and scale.
pub open spec fn amount_of(p: (i128, u32)) -> Amount {
    Amount { mantissa: p.0, scale: p.1 }
}

/// The mantissa and scale of an optional amount.
pub open spec fn opt_parts(a: Option<Amount>) -> Option<(i128, u32)> {
    match a {
        Some(x) => Some(x.parts()),
        None => None,
    }
}

/// The mantissa and scale of `Decimal::checked_add` applied to the two decimals.
pub uninterp spec fn decimal_checked_add(a: (i128, u32), b: (i128, u32)) -> Option<(i128, u32)>;

/// The mantissa and scale of `Decimal::checked_mul` applied to the two decimals.
pub uninterp spec fn decimal_checked_mul(a: (i128, u32), b: (i128, u32)) -> Option<(i128, u32)>;

/// The mantissa and scale of `Decimal::checked_div` applied to the two decimals.
pub uninterp spec fn decimal_checked_div(a: (i128, u32), b: (i128, u32)) -> Option<(i128, u32)>;

/// The mantissa and scale of `Decimal::checked_sub` applied to the two decimals.
pub uninterp spec fn decimal_checked_sub(a: (i128, u32), b: (i128, u32)) -> Option<(i128, u32)>;

/// The mantissa and scale of `MathematicalOps::checked_ln` applied to the decimal.
pub uninterp spec fn decimal_checked_ln(a: (i128, u32)) -> Option<(i128, u32)>;

/// The digits of a mantissa's magnitude, none for zero, with leading zeros
/// up to `scale` digits.
pub open spec fn padded_digits(m: i128, scale: nat) -> Seq<char> {
    let digits = if m == 0 {
        Seq::<char>::empty()
    } else {
        decimal_text((if m < 0 { -(m as int) } else { m as int }) as nat)
    };
    if digits.len() < scale {
        zeros((scale - digits.len()) as nat) + digits
    } else {
        digits
    }
}

/// The text `Decimal`'s `Display` writes for the decimal: a minus sign for
/// a negative one, then the mantissa's digits with a point before the last
/// `scale` of them (leading zeros fill up to `scale` digits, and a `0` stands
/// before a leading point); `0` for zero with no scale.
pub open spec fn decimal_display(a: (i128, u32)) -> Seq<char> {
    let padded = padded_digits(a.0, a.1 as nat);
    let whole = padded.take(padded.len() - a.1);
    let body = if a.1 == 0 {
        if padded.len() == 0 {
            seq!['0']
        } else {
            padded
        }
    } else {
        (if whole.len() == 0 {
            seq!['0']
        } else {
            whole
        }) + seq!['.'] + padded.skip(padded.len() - a.1)
    };
    if a.0 < 0 {
        seq!['-'] + body
    } else {
        body
    }
}

impl Amount {
    pub open spec fn parts(self) -> (i128, u32) {
        (self.mantissa, self.scale)
    }

    pub open spec fn wf(self) -> bool {
        valid_parts(self.parts())
    }

    /// Whether the mantissa and scale make a decimal.
    pub fn is_valid(&self) -> (r: bool)
        ensures
            r == self.wf(),
    {
        self.scale <= MAX_SCALE && -MAX_MANTISSA <= self.mantissa && self.mantissa <= MAX_MANTISSA
    }

    /// Zero, as `Decimal::ZERO` holds it.
    pub fn zero() -> (r: Amount)
        ensures
            r.parts() == (0i128, 0u32),
            r.wf(),
    {
        Amount { mantissa: 0, scale: 0 }
    }

    /// The decimal with the given mantissa and scale, where they make one,
    /// as `Decimal::try_from_i128_with_scale` decides.
    pub fn new(mantissa: i128, scale: u32) -> (r: Option<Amount>)
        ensures
            r is Some <==> valid_parts((mantissa, scale)),
            r matches Some(a) ==> a.parts() == (mantissa, scale),
    {
        if scale > MAX_SCALE || mantissa > MAX_MANTISSA || mantissa < -MAX_MANTISSA {
            None
        } else {
            Some(Amount { mantissa, scale })
        }
    }

    /// The decimal holding a count, as `Decimal::from(usize)` makes it.
    pub fn from_count(n: usize) -> (r: Amount)
        ensures
            r.parts() == (n as i128, 0u32),
            r.wf(),
    {
        assert(n <= usize::MAX);
        assert(usize::MAX <= 0xffff_ffff_ffff_ffffu64);
        Amount { mantissa: n as i128, scale: 0 }
    }

    /// Whether the amount is zero, as `Decimal::is_zero` decides: the mantissa is zero.
    pub fn is_zero(&self) -> (r: bool)
        ensures
            r == (self.mantissa == 0),
    {
        self.mantissa == 0
    }
}

/// The text of a decimal, from `Decimal`'s `Display` with no width or
/// precision given: the text `decimal_display` spells out.
#[verifier::external_body]
pub fn display(a: Amount) -> (r: String)
    requires
        a.wf(),
    ensures
        r@ == decimal_display(a.parts()),
{
    Decimal::from_i128_with_scale(a.mantissa, a.scale).to_string()
}

/// `Decimal::checked_add`: the sum, or `None` where it overflows. The result
/// is named by `decimal_checked_add`, not spelled out (rust_decimal rescales
/// and rounds); only that it is a decimal is stated.
#[verifier::external_body]
pub fn checked_add(a: Amount, b: Amount) -> (r: Option<Amount>)
    requires
        a.wf(),
        b.wf(),
    ensures
        opt_parts(r) == decimal_checked_add(a.parts(), b.parts()),
        r matches Some(x) ==> x.wf(),
{
    let x = Decimal::from_i128_with_scale(a.mantissa, a.scale);
    let y = Decimal::from_i128_with_scale(b.mantissa, b.scale);
    match x.checked_add(y) {
        Some(d) => Some(Amount { mantissa: d.mantissa(), scale: d.scale() }),
        None => None,
    }
}

/// `Decimal::checked_mul`: the product, or `None` where it overflows. The
/// result is named by `decimal_checked_mul`; that it is a decimal, and not
/// below zero where neither factor is, are stated.
#[verifier::external_body]
pub fn checked_mul(a: Amount, b: Amount) -> (r: Option<Amount>)
    requires
        a.wf(),
        b.wf(),
    ensures
        opt_parts(r) == decimal_checked_mul(a.parts(), b.parts()),
        r matches Some(x) ==> x.wf(),
        a.mantissa >= 0 && b.mantissa >= 0 ==> (r matches Some(x) ==> x.mantissa >= 0),
{
    let x = Decimal::from_i128_with_scale(a.mantissa, a.scale);
    let y = Decimal::from_i128_with_scale(b.mantissa, b.scale);
    match x.checked_mul(y) {
        Some(d) => Some(Amount { mantissa: d.mantissa(), scale: d.scale() }),
        None => None,
    }
}

/// `Decimal::checked_div`: the quotient, or `None` where the divisor is zero
/// or the quotient overflows. The result is named by `decimal_checked_div`;
/// that a zero divisor gives `None` and that a result is a decimal are stated.
#[verifier::external_body]
pub fn checked_div(a: Amount, b: Amount) -> (r: Option<Amount>)
    requires
        a.wf(),
        b.wf(),
    ensures
        opt_parts(r) == decimal_checked_div(a.parts(), b.parts()),
        r matches Some(x) ==> x.wf(),
        b.mantissa == 0 ==> r is None,
{
    let x = Decimal::from_i128_with_scale(a.mantissa, a.scale);
    let y = Decimal::from_i128_with_scale(b.mantissa, b.scale);
    match x.checked_div(y) {
        Some(d) => Some(Amount { mantissa: d.mantissa(), scale: d.scale() }),
        None => None,
    }
}

/// `Decimal::checked_sub`: the difference, or `None` where it overflows. The
/// result is named by `decimal_checked_sub`; only that it is a decimal is stated.
#[verifier::external_body]
pub fn checked_sub(a: Amount, b: Amount) -> (r: Option<Amount>)
    requires
        a.wf(),
        b.wf(),
    ensures
        opt_parts(r) == decimal_checked_sub(a.parts(), b.parts()),
        r matches Some(x) ==> x.wf(),
{
    let x = Decimal::from_i128_with_scale(a.mantissa, a.scale);
    let y = Decimal::from_i128_with_scale(b.mantissa, b.scale);
    match x.checked_sub(y) {
        Some(d) => Some(Amount { mantissa: d.mantissa(), scale: d.scale() }),
        None => None,
    }
}

/// `MathematicalOps::checked_ln`: the natural logarithm, `None` for zero
/// and negative numbers. The result is named by `decimal_checked_ln`; that
/// zero and negative numbers give `None` is stated.
#[verifier::external_body]
pub fn checked_ln(a: Amount) -> (r: Option<Amount>)
    requires
        a.wf(),
    ensures
        opt_parts(r) == decimal_checked_ln(a.parts()),
        r matches Some(x) ==> x.wf(),
        a.mantissa <= 0 ==> r is None,
{
    match Decimal::from_i128_with_scale(a.mantissa, a.scale).checked_ln() {
        Some(d) => Some(Amount { mantissa: d.mantissa(), scale: d.scale() }),
        None => None,
    }
}

} // verus!
