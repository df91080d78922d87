//! Numbers of the language: IEEE 754 binary32 values, held as their bit pattern.
//!
//! Order, equality, negation and the zero test are computed here on the bits.
//! Rounded arithmetic and the reading of decimal numerals are delegated to the
//! `rustc_apfloat` crate, a software implementation of IEEE 754.

use rustc_apfloat::ieee::Single;
use rustc_apfloat::Float;
use vstd::prelude::*;

verus! {

/// A binary32 value. Two numbers are `==` when their bit patterns are the same,
/// which is not the equality of the language: see [`Number::same_value`].
#[derive(Clone, Copy, Debug, PartialEq, Eq, Structural)]
pub struct Number {
    pub bits: u32,
}

/// The bit pattern without its sign bit.
pub open spec fn magnitude(bits: u32) -> int {
    if bits >= 0x8000_0000 {
        bits - 0x8000_0000
    } else {
        bits as int
    }
}

/// Whether the sign bit is set.
pub open spec fn is_negative(bits: u32) -> bool {
    bits >= 0x8000_0000
}

/// Whether the pattern is a NaN: all exponent bits set and a nonzero fraction.
pub open spec fn is_nan(bits: u32) -> bool {
    magnitude(bits) > 0x7f80_0000
}

/// The place of a non-NaN value on the number line: patterns of one sign are
/// ordered like their magnitudes, and both zeros share the place 0.
pub open spec fn ordinal(bits: u32) -> int {
    if is_negative(bits) {
        -magnitude(bits)
    } else {
        magnitude(bits)
    }
}

/// `a < b` as IEEE 754 defines it: false as soon as one side is a NaN.
pub open spec fn ieee_less(a: u32, b: u32) -> bool {
    !is_nan(a) && !is_nan(b) && ordinal(a) < ordinal(b)
}

/// `a == b` as IEEE 754 defines it: false as soon as one side is a NaN, and
/// true of the two zeros.
pub open spec fn ieee_equal(a: u32, b: u32) -> bool {
    !is_nan(a) && !is_nan(b) && ordinal(a) == ordinal(b)
}

/// The pattern with its sign bit flipped.
pub open spec fn negated(bits: u32) -> u32 {
    if bits >= 0x8000_0000 {
        (bits - 0x8000_0000) as u32
    } else {
        (bits + 0x8000_0000) as u32
    }
}

/// Whether `c` is one of `0` to `9`.
pub open spec fn is_digit(c: char) -> bool {
    '0' <= c && c <= '9'
}

/// The bit pattern of `a + b`, rounded to nearest with ties to even.
pub uninterp spec fn binary32_sum(a: u32, b: u32) -> u32;

/// The bit pattern of `a - b`, rounded to nearest with ties to even.
pub uninterp spec fn binary32_difference(a: u32, b: u32) -> u32;

/// The bit pattern of `a * b`, rounded to nearest with ties to even.
pub uninterp spec fn binary32_product(a: u32, b: u32) -> u32;

/// The bit pattern of `a / b`, rounded to nearest with ties to even.
pub uninterp spec fn binary32_quotient(a: u32, b: u32) -> u32;

/// The bit pattern of the binary32 value nearest to the numeral `text`, where
/// `text` is a numeral at all.
pub uninterp spec fn binary32_of_decimal(text: Seq<char>) -> Option<u32>;

/// `rustc_apfloat`'s `Add` on `ieee::Single`: the sum of the two values that the
/// patterns stand for. The contract only names the result.
#[verifier::external_body]
fn sum_bits(a: u32, b: u32) -> (r: u32)
    ensures
        r == binary32_sum(a, b),
{
    (Single::from_bits(a as u128) + Single::from_bits(b as u128)).value.to_bits() as u32
}

/// `rustc_apfloat`'s `Sub` on `ieee::Single`: the difference of the two values.
/// The contract only names the result.
#[verifier::external_body]
fn difference_bits(a: u32, b: u32) -> (r: u32)
    ensures
        r == binary32_difference(a, b),
{
    (Single::from_bits(a as u128) - Single::from_bits(b as u128)).value.to_bits() as u32
}

/// `rustc_apfloat`'s `Mul` on `ieee::Single`: the product of the two values.
/// The contract only names the result.
#[verifier::external_body]
fn product_bits(a: u32, b: u32) -> (r: u32)
    ensures
        r == binary32_product(a, b),
{
    (Single::from_bits(a as u128) * Single::from_bits(b as u128)).value.to_bits() as u32
}

/// `rustc_apfloat`'s `Div` on `ieee::Single`: the quotient of the two values.
/// The contract only names the result.
#[verifier::external_body]
fn quotient_bits(a: u32, b: u32) -> (r: u32)
    ensures
        r == binary32_quotient(a, b),
{
    (Single::from_bits(a as u128) / Single::from_bits(b as u128)).value.to_bits() as u32
}

/// `rustc_apfloat`'s `FromStr` on `ieee::Single`: reads a numeral and rounds it
/// to nearest, ties to even; `None` stands for its error. The contract only
/// names the result.
#[verifier::external_body]
fn decimal_bits(text: &str) -> (r: Option<u32>)
    ensures
        r == binary32_of_decimal(text@),
{
    match text.parse::<Single>() {
        Ok(value) => Some(value.to_bits() as u32),
        Err(_) => None,
    }
}

impl Number {
    /// The number with the given bit pattern.
    pub fn from_bits(bits: u32) -> (r: Number)
        ensures
            r.bits == bits,
    {
        Number { bits }
    }

    /// The bit pattern of the number.
    pub fn to_bits(self) -> (r: u32)
        ensures
            r == self.bits,
    {
        self.bits
    }

    /// The value that the numeral `text` stands for, if it is a numeral.
    pub fn parse(text: &str) -> (r: Option<Number>)
        ensures
            match binary32_of_decimal(text@) {
                Some(bits) => r == Some(Number { bits }),
                None => r.is_none(),
            },
    {
        match decimal_bits(text) {
            Some(bits) => Some(Number { bits }),
            None => None,
        }
    }

    fn magnitude_of(self) -> (m: u32)
        ensures
            m == magnitude(self.bits),
    {
        if self.bits >= 0x8000_0000 {
            self.bits - 0x8000_0000
        } else {
            self.bits
        }
    }

    /// Whether the number is a NaN.
    pub fn is_nan(self) -> (r: bool)
        ensures
            r == is_nan(self.bits),
    {
        self.magnitude_of() > 0x7f80_0000
    }

    fn ordinal_of(self) -> (k: i64)
        ensures
            k == ordinal(self.bits),
    {
        let m: u32 = self.magnitude_of();
        if self.bits >= 0x8000_0000 {
            0 - (m as i64)
        } else {
            m as i64
        }
    }

    /// `self < other`.
    pub fn less(self, other: Number) -> (r: bool)
        ensures
            r == ieee_less(self.bits, other.bits),
    {
        !self.is_nan() && !other.is_nan() && self.ordinal_of() < other.ordinal_of()
    }

    /// `self <= other`.
    pub fn less_equal(self, other: Number) -> (r: bool)
        ensures
            r == (ieee_less(self.bits, other.bits) || ieee_equal(self.bits, other.bits)),
    {
        !self.is_nan() && !other.is_nan() && self.ordinal_of() <= other.ordinal_of()
    }

    /// `self > other`.
    pub fn greater(self, other: Number) -> (r: bool)
        ensures
            r == ieee_less(other.bits, self.bits),
    {
        other.less(self)
    }

    /// `self >= other`.
    pub fn greater_equal(self, other: Number) -> (r: bool)
        ensures
            r == (ieee_less(other.bits, self.bits) || ieee_equal(self.bits, other.bits)),
    {
        other.less_equal(self)
    }

    /// `self == other` in the language: the values are the same.
    pub fn same_value(self, other: Number) -> (r: bool)
        ensures
            r == ieee_equal(self.bits, other.bits),
    {
        !self.is_nan() && !other.is_nan() && self.ordinal_of() == other.ordinal_of()
    }

    /// Whether the number is one of the two zeros.
    pub fn is_zero(self) -> (r: bool)
        ensures
            r == (magnitude(self.bits) == 0),
    {
        self.magnitude_of() == 0
    }

    /// `-self`: the same value with the other sign.
    pub fn negate(self) -> (r: Number)
        ensures
            r.bits == negated(self.bits),
    {
        if self.bits >= 0x8000_0000 {
            Number { bits: self.bits - 0x8000_0000 }
        } else {
            Number { bits: self.bits + 0x8000_0000 }
        }
    }

    /// `self + other`.
    pub fn plus(self, other: Number) -> (r: Number)
        ensures
            r.bits == binary32_sum(self.bits, other.bits),
    {
        Number { bits: sum_bits(self.bits, other.bits) }
    }

    /// `self - other`.
    pub fn minus(self, other: Number) -> (r: Number)
        ensures
            r.bits == binary32_difference(self.bits, other.bits),
    {
        Number { bits: difference_bits(self.bits, other.bits) }
    }

    /// `self * other`.
    pub fn times(self, other: Number) -> (r: Number)
        ensures
            r.bits == binary32_product(self.bits, other.bits),
    {
        Number { bits: product_bits(self.bits, other.bits) }
    }

    /// `self / other`.
    pub fn divided_by(self, other: Number) -> (r: Number)
        ensures
            r.bits == binary32_quotient(self.bits, other.bits),
    {
        Number { bits: quotient_bits(self.bits, other.bits) }
    }
}

} // verus!
