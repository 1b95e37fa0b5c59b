//! IEEE 754 double-precision numbers (what Rust calls f64), held by their bits.
//!
//! A number is kept as the 64 bits of its encoding: one sign bit, eleven
//! exponent bits, fifty-two fraction bits. Comparisons are decided on those
//! bits and follow the standard: a NaN is neither below, above nor equal to
//! anything, and the two zeros are equal.
use vstd::prelude::*;

verus! {

/// The sign bit of an encoding.
pub const SIGN_BIT: u64 = 0x8000_0000_0000_0000;

/// The encoding of positive infinity: every exponent bit set, no fraction bit.
pub const INFINITY_BITS: u64 = 0x7ff0_0000_0000_0000;

/// The encoding of negative infinity.
pub const NEG_INFINITY_BITS: u64 = 0xfff0_0000_0000_0000;

/// A double-precision number, held as the 64 bits of its encoding.
///
/// Every bit pattern is a value of this type; `from_bits` and `to_bits`
/// convert without loss, so a NaN keeps its payload and a zero its sign.
#[derive(Clone, Copy, Debug)]
pub struct Float {
    pub bits: u64,
}

impl Float {
    /// The encoding with the sign bit cleared.
    pub open spec fn magnitude(self) -> int {
        if self.bits >= SIGN_BIT {
            self.bits - SIGN_BIT
        } else {
            self.bits as int
        }
    }

    /// Whether the sign bit is set. This holds of `-0.0` and of some NaNs too.
    pub open spec fn spec_is_sign_negative(self) -> bool {
        self.bits >= SIGN_BIT
    }

    /// Whether this is a NaN: exponent bits all set and a fraction that is not zero.
    pub open spec fn spec_is_nan(self) -> bool {
        self.magnitude() > INFINITY_BITS
    }

    /// Where a number that is not a NaN stands among all such numbers.
    ///
    /// Both zeros stand at 0. The positive numbers stand at 1, 2, 3, ... in
    /// rising order up to positive infinity, the negative ones at -1, -2,
    /// -3, ... in falling order down to negative infinity.
    pub open spec fn ordinal(self) -> int {
        if self.spec_is_sign_negative() {
            -self.magnitude()
        } else {
            self.magnitude()
        }
    }

    /// `self < other` as IEEE 754 has it.
    pub open spec fn spec_lt(self, other: Float) -> bool {
        &&& !self.spec_is_nan()
        &&& !other.spec_is_nan()
        &&& self.ordinal() < other.ordinal()
    }

    /// `self >= other` as IEEE 754 has it. With a NaN on either side this is
    /// false, so it is not the negation of `spec_lt`.
    pub open spec fn spec_ge(self, other: Float) -> bool {
        &&& !self.spec_is_nan()
        &&& !other.spec_is_nan()
        &&& self.ordinal() >= other.ordinal()
    }

    /// `self == other` as IEEE 754 has it: a NaN equals nothing, itself
    /// included, and the two zeros are equal though their encodings differ.
    pub open spec fn spec_eq(self, other: Float) -> bool {
        &&& !self.spec_is_nan()
        &&& !other.spec_is_nan()
        &&& self.ordinal() == other.ordinal()
    }

    /// The number with the given encoding.
    pub fn from_bits(bits: u64) -> (r: Float)
        ensures
            r.bits == bits,
    {
        Float { bits }
    }

    /// The encoding of the number.
    pub fn to_bits(self) -> (r: u64)
        ensures
            r == self.bits,
    {
        self.bits
    }

    fn abs_bits(self) -> (r: u64)
        ensures
            r == self.magnitude(),
    {
        if self.bits >= SIGN_BIT {
            self.bits - SIGN_BIT
        } else {
            self.bits
        }
    }

    /// Whether the sign bit is set.
    pub fn is_sign_negative(self) -> (r: bool)
        ensures
            r == self.spec_is_sign_negative(),
    {
        self.bits >= SIGN_BIT
    }

    /// Whether the number is a NaN.
    pub fn is_nan(self) -> (r: bool)
        ensures
            r == self.spec_is_nan(),
    {
        self.abs_bits() > INFINITY_BITS
    }

    /// Whether `self < other`.
    pub fn lt(self, other: Float) -> (r: bool)
        ensures
            r == self.spec_lt(other),
    {
        if self.is_nan() || other.is_nan() {
            return false;
        }
        let a: u64 = self.abs_bits();
        let b: u64 = other.abs_bits();
        if self.is_sign_negative() {
            if other.is_sign_negative() {
                a > b
            } else {
                a > 0 || b > 0
            }
        } else {
            if other.is_sign_negative() {
                false
            } else {
                a < b
            }
        }
    }

    /// Whether `self >= other`.
    pub fn ge(self, other: Float) -> (r: bool)
        ensures
            r == self.spec_ge(other),
    {
        if self.is_nan() || other.is_nan() {
            return false;
        }
        !self.lt(other)
    }
}

impl PartialEq for Float {
    /// Whether the two are equal as numbers, which is not whether their
    /// encodings are the same.
    fn eq(&self, other: &Float) -> (r: bool) {
        if self.is_nan() || other.is_nan() {
            return false;
        }
        self.bits == other.bits || (self.abs_bits() == 0 && other.abs_bits() == 0)
    }
}

impl vstd::std_specs::cmp::PartialEqSpecImpl for Float {
    open spec fn obeys_eq_spec() -> bool {
        true
    }

    open spec fn eq_spec(&self, other: &Float) -> bool {
        self.spec_eq(*other)
    }
}

} // verus!
