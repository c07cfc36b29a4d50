//! Numbers of the language: IEEE 754 binary64 values, carried by their bit
//! pattern. Every operation on the bits is delegated to outside crates whose
//! interfaces work on integers and text, so each operation is a trusted
//! wrapper here; its result is named by an uninterpreted spec function of the
//! argument bits alone.
use vstd::prelude::*;

use core::str::FromStr;
use rustc_apfloat::ieee::Double;
use rustc_apfloat::Float;
use rustc_apfloat::Round;

verus! {

/// One number of the language: the bit pattern of an IEEE 754 binary64 value.
#[derive(Clone, Copy, PartialEq, Eq, Structural, Debug)]
pub struct Num {
    pub bits: u64,
}

/// The bits of the sum of two binary64 values, rounding to nearest, ties to even.
pub uninterp spec fn add_bits(a: u64, b: u64) -> u64;

/// The bits of the difference of two binary64 values.
pub uninterp spec fn sub_bits(a: u64, b: u64) -> u64;

/// The bits of the product of two binary64 values.
pub uninterp spec fn mul_bits(a: u64, b: u64) -> u64;

/// The bits of the quotient of two binary64 values.
pub uninterp spec fn div_bits(a: u64, b: u64) -> u64;

/// The bits of a binary64 value with its sign flipped.
pub uninterp spec fn neg_bits(a: u64) -> u64;

/// The bits of the first value raised to the second.
pub uninterp spec fn pow_bits(a: u64, b: u64) -> u64;

/// The bits of the sine of a binary64 value.
pub uninterp spec fn sin_bits(a: u64) -> u64;

/// The bits of the binary64 value nearest to the decimal numeral written in `s`.
pub uninterp spec fn dec_bits(s: Seq<char>) -> u64;

/// The bits of the binary64 value nearest to an unsigned integer.
pub uninterp spec fn int_bits(n: u128) -> u64;

/// A binary64 value truncated toward zero and clamped to the `u64` range
/// (zero for NaN and for negative values, `u64::MAX` on overflow).
pub uninterp spec fn trunc_bits(a: u64) -> u64;

/// The decimal rendering of a binary64 value, exact enough to round-trip.
pub uninterp spec fn dec_of(a: u64) -> Seq<char>;

impl Num {
    /// The number zero; binary64 encodes it as the all-zero bit pattern.
    pub fn zero() -> (r: Num)
        ensures
            r.bits == 0,
    {
        Num { bits: 0 }
    }

    /// The bit pattern of the binary64 value nearest to the constant pi.
    pub fn pi() -> (r: Num)
        ensures
            r.bits == 0x400921FB54442D18u64,
    {
        Num { bits: 0x400921FB54442D18u64 }
    }

    /// Relies on rustc_apfloat's `Double::add_r`: binary64 addition on bit
    /// patterns, rounding to nearest, ties to even.
    #[verifier::external_body]
    pub fn add(self, other: Num) -> (r: Num)
        ensures
            r.bits == add_bits(self.bits, other.bits),
    {
        let a = Double::from_bits(self.bits as u128);
        let b = Double::from_bits(other.bits as u128);
        Num { bits: a.add_r(b, Round::NearestTiesToEven).value.to_bits() as u64 }
    }

    /// Relies on rustc_apfloat's `Double::sub_r`: binary64 subtraction on bit
    /// patterns, rounding to nearest, ties to even.
    #[verifier::external_body]
    pub fn sub(self, other: Num) -> (r: Num)
        ensures
            r.bits == sub_bits(self.bits, other.bits),
    {
        let a = Double::from_bits(self.bits as u128);
        let b = Double::from_bits(other.bits as u128);
        Num { bits: a.sub_r(b, Round::NearestTiesToEven).value.to_bits() as u64 }
    }

    /// Relies on rustc_apfloat's `Double::mul_r`: binary64 multiplication on
    /// bit patterns, rounding to nearest, ties to even.
    #[verifier::external_body]
    pub fn mul(self, other: Num) -> (r: Num)
        ensures
            r.bits == mul_bits(self.bits, other.bits),
    {
        let a = Double::from_bits(self.bits as u128);
        let b = Double::from_bits(other.bits as u128);
        Num { bits: a.mul_r(b, Round::NearestTiesToEven).value.to_bits() as u64 }
    }

    /// Relies on rustc_apfloat's `Double::div_r`: binary64 division on bit
    /// patterns, rounding to nearest, ties to even.
    #[verifier::external_body]
    pub fn div(self, other: Num) -> (r: Num)
        ensures
            r.bits == div_bits(self.bits, other.bits),
    {
        let a = Double::from_bits(self.bits as u128);
        let b = Double::from_bits(other.bits as u128);
        Num { bits: a.div_r(b, Round::NearestTiesToEven).value.to_bits() as u64 }
    }

    /// Relies on rustc_apfloat's `Neg for Double`: flips the sign bit.
    #[verifier::external_body]
    pub fn neg(self) -> (r: Num)
        ensures
            r.bits == neg_bits(self.bits),
    {
        let a = Double::from_bits(self.bits as u128);
        Num { bits: (-a).to_bits() as u64 }
    }

    /// Relies on num_bigfloat's `BigFloat::pow` for the exponentiation itself;
    /// rustc_apfloat's decimal rendering and parsing carry the bit patterns to
    /// decimal text and back, so the result is a binary64 value again.
    #[verifier::external_body]
    pub fn powf(self, other: Num) -> (r: Num)
        ensures
            r.bits == pow_bits(self.bits, other.bits),
    {
        let a = Double::from_bits(self.bits as u128);
        let b = Double::from_bits(other.bits as u128);
        let base = num_bigfloat::BigFloat::parse(&format!("{}", a)).unwrap_or(num_bigfloat::NAN);
        let exp = num_bigfloat::BigFloat::parse(&format!("{}", b)).unwrap_or(num_bigfloat::NAN);
        let pow = base.pow(&exp);
        let back = Double::from_str(&format!("{}", pow)).unwrap_or(Double::qnan(None));
        Num { bits: back.to_bits() as u64 }
    }

    /// Relies on num_bigfloat's `BigFloat::sin` for the sine itself;
    /// rustc_apfloat's decimal rendering and parsing carry the bit pattern to
    /// decimal text and back, so the result is a binary64 value again.
    #[verifier::external_body]
    pub fn sin(self) -> (r: Num)
        ensures
            r.bits == sin_bits(self.bits),
    {
        let a = Double::from_bits(self.bits as u128);
        let big = num_bigfloat::BigFloat::parse(&format!("{}", a)).unwrap_or(num_bigfloat::NAN);
        let sine = big.sin();
        let back = Double::from_str(&format!("{}", sine)).unwrap_or(Double::qnan(None));
        Num { bits: back.to_bits() as u64 }
    }

    /// Relies on rustc_apfloat's `Double::from_str`: parses a decimal numeral
    /// to the nearest binary64 value (NaN when the text is not a numeral,
    /// which a digit run never is).
    #[verifier::external_body]
    pub fn from_decimal(s: &str) -> (r: Num)
        ensures
            r.bits == dec_bits(s@),
    {
        let d = Double::from_str(s).unwrap_or(Double::qnan(None));
        Num { bits: d.to_bits() as u64 }
    }

    /// Relies on rustc_apfloat's `Double::from_u128`: the binary64 value
    /// nearest to an unsigned integer.
    #[verifier::external_body]
    pub fn from_u64(n: u64) -> (r: Num)
        ensures
            r.bits == int_bits(n as u128),
    {
        Num { bits: Double::from_u128(n as u128).value.to_bits() as u64 }
    }

    /// Relies on rustc_apfloat's `Double::to_u128` with a 64-bit width:
    /// truncation toward zero, zero for NaN and negative values, saturating
    /// at `u64::MAX`.
    #[verifier::external_body]
    pub fn trunc_u64(self) -> (r: u64)
        ensures
            r == trunc_bits(self.bits),
    {
        let a = Double::from_bits(self.bits as u128);
        a.to_u128(64).value as u64
    }

    /// Relies on rustc_apfloat's `Display for Double`: a decimal rendering
    /// with enough digits to round-trip.
    #[verifier::external_body]
    pub fn render(self) -> (r: String)
        ensures
            r@ == dec_of(self.bits),
    {
        let a = Double::from_bits(self.bits as u128);
        format!("{}", a)
    }
}

} // verus!
