//! What number an encoding stands for, and why comparing encodings compares
//! the numbers.
//!
//! A finite number is a whole multiple of 2^-1074, the smallest positive
//! number the format has. `scaled_value` is that multiple, so two finite
//! numbers compare as their multiples do. The lemmas here show that the
//! comparisons of [`Float`], which look at encodings only, agree with that.
use vstd::prelude::*;
use vstd::arithmetic::power2::{lemma_pow2_pos, lemma_pow2_strictly_increases, lemma_pow2_unfold,
    pow2};
use crate::float::{Float, INFINITY_BITS, NEG_INFINITY_BITS};

verus! {

/// Two to the power of 52: one more than the largest fraction field.
pub const FRACTION_RANGE: u64 = 0x0010_0000_0000_0000;

/// The number that a magnitude (an encoding without its sign) stands for,
/// in units of 2^-1074.
///
/// With an exponent field of 0 the number is subnormal and its fraction
/// field counts the units. Otherwise the fraction has an implicit leading
/// bit, and each step of the exponent field doubles the number.
pub open spec fn scaled(magnitude: int) -> int {
    let exponent = magnitude / (FRACTION_RANGE as int);
    let fraction = magnitude % (FRACTION_RANGE as int);
    if exponent == 0 {
        fraction
    } else {
        (FRACTION_RANGE + fraction) * pow2((exponent - 1) as nat)
    }
}

impl Float {
    /// Whether this is neither a NaN nor an infinity.
    pub open spec fn spec_is_finite(self) -> bool {
        self.magnitude() < INFINITY_BITS
    }

    /// A finite number in units of 2^-1074. Both zeros give 0.
    pub open spec fn scaled_value(self) -> int
        recommends
            self.spec_is_finite(),
    {
        if self.spec_is_sign_negative() {
            -scaled(self.magnitude())
        } else {
            scaled(self.magnitude())
        }
    }
}

/// Every magnitude with exponent field `exponent` stands for a number
/// from 2^52 * 2^(exponent - 1) up to, and not including, twice that.
proof fn lemma_scaled_bounds(magnitude: int)
    requires
        magnitude >= FRACTION_RANGE,
    ensures
        FRACTION_RANGE * pow2((magnitude / (FRACTION_RANGE as int) - 1) as nat) <= scaled(magnitude),
        scaled(magnitude) < FRACTION_RANGE * pow2((magnitude / (FRACTION_RANGE as int)) as nat),
{
    let exponent = magnitude / (FRACTION_RANGE as int);
    let fraction = magnitude % (FRACTION_RANGE as int);
    let low = pow2((exponent - 1) as nat);
    lemma_pow2_pos((exponent - 1) as nat);
    lemma_pow2_unfold(exponent as nat);
    assert(pow2(exponent as nat) == 2 * low);
    assert(FRACTION_RANGE * low <= (FRACTION_RANGE + fraction) * low) by (nonlinear_arith)
        requires
            0 <= fraction,
            0 < low,
    ;
    assert((FRACTION_RANGE + fraction) * low < FRACTION_RANGE * (2 * low)) by (nonlinear_arith)
        requires
            fraction < FRACTION_RANGE,
            0 < low,
    ;
}

/// A larger magnitude stands for a larger number.
pub proof fn lemma_scaled_strictly_increases(a: int, b: int)
    requires
        0 <= a < b,
    ensures
        0 <= scaled(a) < scaled(b),
{
    let range = FRACTION_RANGE as int;
    let (ea, fa) = (a / range, a % range);
    let (eb, fb) = (b / range, b % range);
    assert(a == range * ea + fa && b == range * eb + fb) by {
        vstd::arithmetic::div_mod::lemma_fundamental_div_mod(a, range);
        vstd::arithmetic::div_mod::lemma_fundamental_div_mod(b, range);
    }
    assert(0 <= ea <= eb) by (nonlinear_arith)
        requires
            0 <= a < b,
            a == range * ea + fa,
            b == range * eb + fb,
            0 <= fa < range,
            0 <= fb < range,
            range > 0,
    ;
    if ea > 0 {
        lemma_pow2_pos((ea - 1) as nat);
        assert(0 <= (range + fa) * pow2((ea - 1) as nat)) by (nonlinear_arith)
            requires
                0 <= fa,
                0 < range,
                0 < pow2((ea - 1) as nat),
        ;
    }
    if ea == eb {
        assert(fa < fb);
        if ea > 0 {
            let low = pow2((ea - 1) as nat);
            assert((range + fa) * low < (range + fb) * low) by (nonlinear_arith)
                requires
                    fa < fb,
                    0 < low,
            ;
        }
    } else {
        lemma_scaled_bounds(b);
        let high = pow2((eb - 1) as nat);
        if ea == 0 {
            lemma_pow2_pos((eb - 1) as nat);
            assert(range <= range * high) by (nonlinear_arith)
                requires
                    0 < high,
                    0 < range,
            ;
        } else {
            lemma_scaled_bounds(a);
            let mid = pow2(ea as nat);
            if ea < eb - 1 {
                lemma_pow2_strictly_increases(ea as nat, (eb - 1) as nat);
            }
            assert(range * mid <= range * high) by (nonlinear_arith)
                requires
                    mid <= high,
                    0 < range,
            ;
        }
    }
}

/// Finite numbers compare as the numbers they stand for: what `<`, `>=`
/// and `==` say of two encodings is what holds of their values.
pub proof fn lemma_comparisons_follow_values(a: Float, b: Float)
    requires
        a.spec_is_finite(),
        b.spec_is_finite(),
    ensures
        a.spec_lt(b) <==> a.scaled_value() < b.scaled_value(),
        a.spec_ge(b) <==> a.scaled_value() >= b.scaled_value(),
        a.spec_eq(b) <==> a.scaled_value() == b.scaled_value(),
{
    let (ma, mb) = (a.magnitude(), b.magnitude());
    if ma < mb {
        lemma_scaled_strictly_increases(ma, mb);
    } else if mb < ma {
        lemma_scaled_strictly_increases(mb, ma);
    }
    if 0 < ma {
        lemma_scaled_strictly_increases(0, ma);
    }
    if 0 < mb {
        lemma_scaled_strictly_increases(0, mb);
    }
    assert(scaled(0) == 0);
}

/// Positive infinity is not below any number and above every other one;
/// negative infinity is not above any number and below every other one.
pub proof fn lemma_infinities_are_outermost(x: Float, infinity: Float, neg_infinity: Float)
    requires
        !x.spec_is_nan(),
        infinity.bits == INFINITY_BITS,
        neg_infinity.bits == NEG_INFINITY_BITS,
    ensures
        infinity.spec_ge(x),
        x.bits != infinity.bits ==> x.spec_lt(infinity),
        x.spec_ge(neg_infinity),
        x.bits != neg_infinity.bits ==> neg_infinity.spec_lt(x),
{
}

} // verus!
