//! Exact decimal numbers.
//!
//! A [`Number`] is the plain representation of a decimal: a sign, a 96-bit
//! magnitude in three words and a scale. The arithmetic itself is done by
//! `rust_decimal`; the functions at the end of this file hand a number over to
//! it and take the answer back. What they claim of `rust_decimal` is not proved
//! here.

use rust_decimal::Decimal;
use rust_decimal::MathematicalOps;
use std::str::FromStr;
use vstd::prelude::*;

verus! {

/// The largest number of digits that can follow the decimal point.
pub const MAX_SCALE: u32 = 28;

/// The decimal `±m / 10^scale`, where `m = hi·2^64 + mid·2^32 + lo`.
///
/// Two numbers are equal when their representations are: `1.0` and `1` differ,
/// and so do `0` and `-0`.
#[derive(Debug, Clone, Copy, PartialEq, Eq, Structural)]
pub struct Number {
    pub negative: bool,
    pub scale: u32,
    pub hi: u32,
    pub mid: u32,
    pub lo: u32,
}

/// The number that `rust_decimal` reads from a decimal numeral, if it can
/// represent one.
pub uninterp spec fn numeral_value(text: Seq<char>) -> Option<Number>;

/// The text that `rust_decimal` prints for a number.
pub uninterp spec fn decimal_text(n: Number) -> Seq<char>;

/// `a + b` as `rust_decimal` computes it, if the result is in range.
pub uninterp spec fn decimal_sum(a: Number, b: Number) -> Option<Number>;

/// `a - b` as `rust_decimal` computes it, if the result is in range.
pub uninterp spec fn decimal_difference(a: Number, b: Number) -> Option<Number>;

/// `a * b` as `rust_decimal` computes it, if the result is in range.
pub uninterp spec fn decimal_product(a: Number, b: Number) -> Option<Number>;

/// `a / b` as `rust_decimal` computes it, if there is a result in range.
pub uninterp spec fn decimal_quotient(a: Number, b: Number) -> Option<Number>;

/// `a` raised to `b` as `rust_decimal` computes it, if it arrives at a result.
pub uninterp spec fn decimal_power(a: Number, b: Number) -> Option<Number>;

impl Number {
    /// Well-formedness: the scale is in range.
    pub open spec fn wf(self) -> bool {
        self.scale <= MAX_SCALE
    }

    /// The magnitude `m` of the number.
    pub open spec fn magnitude(self) -> nat {
        (self.hi as nat) * 0x1_0000_0000_0000_0000 + (self.mid as nat) * 0x1_0000_0000
            + self.lo as nat
    }

    /// Whether the number is zero, of either sign and any scale.
    pub open spec fn zero(self) -> bool {
        self.magnitude() == 0
    }

    /// The number with its sign flipped and nothing else changed.
    pub open spec fn negated(self) -> Number {
        Number {
            negative: !self.negative,
            scale: self.scale,
            hi: self.hi,
            mid: self.mid,
            lo: self.lo,
        }
    }

    /// Builds a number from its parts, or `None` when the scale is out of range.
    pub fn from_parts(lo: u32, mid: u32, hi: u32, negative: bool, scale: u32) -> (r: Option<
        Number,
    >)
        ensures
            scale <= MAX_SCALE ==> r == Some(Number { negative, scale, hi, mid, lo }),
            scale > MAX_SCALE ==> r is None,
    {
        if scale <= MAX_SCALE {
            Some(Number { negative, scale, hi, mid, lo })
        } else {
            None
        }
    }

    /// Whether the number is zero.
    pub fn is_zero(&self) -> (b: bool)
        ensures
            b == self.zero(),
    {
        self.lo == 0 && self.mid == 0 && self.hi == 0
    }

    /// The number with the opposite sign.
    pub fn negate(self) -> (r: Number)
        requires
            self.wf(),
        ensures
            r == self.negated(),
            r.wf(),
    {
        decimal_neg(self)
    }

    /// Reads a numeral, such as `12` or `0.25`.
    pub fn parse(text: &Vec<char>) -> (r: Option<Number>)
        ensures
            r == numeral_value(text@),
            r matches Some(n) ==> n.wf(),
    {
        decimal_from_chars(text)
    }

    /// The number in plain decimal notation.
    pub fn to_string(&self) -> (s: String)
        requires
            self.wf(),
        ensures
            s@ == decimal_text(*self),
    {
        decimal_to_string(self)
    }
}

/// Calls `Neg::neg` of `Decimal`, which flips the sign flag and leaves the
/// magnitude and the scale as they are, also for zero.
#[verifier::external_body]
fn decimal_neg(n: Number) -> (r: Number)
    requires
        n.wf(),
    ensures
        r == n.negated(),
{
    let mut d = Decimal::from_parts(n.lo, n.mid, n.hi, false, n.scale);
    d.set_sign_negative(n.negative);
    let u = (-d).unpack();
    Number { negative: u.negative, scale: u.scale, hi: u.hi, mid: u.mid, lo: u.lo }
}

/// Calls `Decimal::from_str` on the characters. The result is named, not
/// described; a `Decimal` always has a scale of at most 28.
#[verifier::external_body]
pub(crate) fn decimal_from_chars(text: &Vec<char>) -> (r: Option<Number>)
    ensures
        r == numeral_value(text@),
        r matches Some(n) ==> n.wf(),
{
    let s: String = text.iter().collect();
    match Decimal::from_str(&s) {
        Ok(d) => {
            let u = d.unpack();
            Some(Number { negative: u.negative, scale: u.scale, hi: u.hi, mid: u.mid, lo: u.lo })
        },
        Err(_) => None,
    }
}

/// Calls `to_string` of `Decimal`, that is its `Display`. The result is named,
/// not described.
#[verifier::external_body]
pub(crate) fn decimal_to_string(n: &Number) -> (s: String)
    requires
        n.wf(),
    ensures
        s@ == decimal_text(*n),
{
    let mut d = Decimal::from_parts(n.lo, n.mid, n.hi, false, n.scale);
    d.set_sign_negative(n.negative);
    d.to_string()
}

/// Calls `Decimal::checked_add`, which gives `None` on overflow. The sum is
/// named, not described.
#[verifier::external_body]
pub(crate) fn decimal_add(a: Number, b: Number) -> (r: Option<Number>)
    requires
        a.wf(),
        b.wf(),
    ensures
        r == decimal_sum(a, b),
        r matches Some(n) ==> n.wf(),
{
    let mut x = Decimal::from_parts(a.lo, a.mid, a.hi, false, a.scale);
    x.set_sign_negative(a.negative);
    let mut y = Decimal::from_parts(b.lo, b.mid, b.hi, false, b.scale);
    y.set_sign_negative(b.negative);
    match x.checked_add(y) {
        Some(d) => {
            let u = d.unpack();
            Some(Number { negative: u.negative, scale: u.scale, hi: u.hi, mid: u.mid, lo: u.lo })
        },
        None => None,
    }
}

/// Calls `Decimal::checked_sub`, which gives `None` on overflow. The
/// difference is named, not described.
#[verifier::external_body]
pub(crate) fn decimal_sub(a: Number, b: Number) -> (r: Option<Number>)
    requires
        a.wf(),
        b.wf(),
    ensures
        r == decimal_difference(a, b),
        r matches Some(n) ==> n.wf(),
{
    let mut x = Decimal::from_parts(a.lo, a.mid, a.hi, false, a.scale);
    x.set_sign_negative(a.negative);
    let mut y = Decimal::from_parts(b.lo, b.mid, b.hi, false, b.scale);
    y.set_sign_negative(b.negative);
    match x.checked_sub(y) {
        Some(d) => {
            let u = d.unpack();
            Some(Number { negative: u.negative, scale: u.scale, hi: u.hi, mid: u.mid, lo: u.lo })
        },
        None => None,
    }
}

/// Calls `Decimal::checked_mul`, which gives `None` on overflow. The product
/// is named, not described.
#[verifier::external_body]
pub(crate) fn decimal_mul(a: Number, b: Number) -> (r: Option<Number>)
    requires
        a.wf(),
        b.wf(),
    ensures
        r == decimal_product(a, b),
        r matches Some(n) ==> n.wf(),
{
    let mut x = Decimal::from_parts(a.lo, a.mid, a.hi, false, a.scale);
    x.set_sign_negative(a.negative);
    let mut y = Decimal::from_parts(b.lo, b.mid, b.hi, false, b.scale);
    y.set_sign_negative(b.negative);
    match x.checked_mul(y) {
        Some(d) => {
            let u = d.unpack();
            Some(Number { negative: u.negative, scale: u.scale, hi: u.hi, mid: u.mid, lo: u.lo })
        },
        None => None,
    }
}

/// Calls `Decimal::checked_div`, which gives `None` for a zero divisor and on
/// overflow. The quotient is named, not described.
#[verifier::external_body]
pub(crate) fn decimal_div(a: Number, b: Number) -> (r: Option<Number>)
    requires
        a.wf(),
        b.wf(),
    ensures
        r == decimal_quotient(a, b),
        r matches Some(n) ==> n.wf(),
{
    let mut x = Decimal::from_parts(a.lo, a.mid, a.hi, false, a.scale);
    x.set_sign_negative(a.negative);
    let mut y = Decimal::from_parts(b.lo, b.mid, b.hi, false, b.scale);
    y.set_sign_negative(b.negative);
    match x.checked_div(y) {
        Some(d) => {
            let u = d.unpack();
            Some(Number { negative: u.negative, scale: u.scale, hi: u.hi, mid: u.mid, lo: u.lo })
        },
        None => None,
    }
}

/// Calls `MathematicalOps::checked_powd` of `Decimal`, which gives `None`
/// where it has no result in range. The power is named, not described.
#[verifier::external_body]
pub(crate) fn decimal_pow(a: Number, b: Number) -> (r: Option<Number>)
    requires
        a.wf(),
        b.wf(),
    ensures
        r == decimal_power(a, b),
        r matches Some(n) ==> n.wf(),
{
    let mut x = Decimal::from_parts(a.lo, a.mid, a.hi, false, a.scale);
    x.set_sign_negative(a.negative);
    let mut y = Decimal::from_parts(b.lo, b.mid, b.hi, false, b.scale);
    y.set_sign_negative(b.negative);
    match x.checked_powd(y) {
        Some(d) => {
            let u = d.unpack();
            Some(Number { negative: u.negative, scale: u.scale, hi: u.hi, mid: u.mid, lo: u.lo })
        },
        None => None,
    }
}

} // verus!
