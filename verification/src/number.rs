//! Double-precision numbers, held by their bit patterns and compared the way
//! IEEE 754 orders them.

use vstd::arithmetic::power2::{lemma2_to64, lemma_pow2_pos, lemma_pow2_strictly_increases, lemma_pow2_unfold, pow2};
use vstd::prelude::*;

verus! {

/// The sign bit of a double.
pub const SIGN_BIT: u64 = 0x8000_0000_0000_0000;

/// The bit pattern of positive infinity: every magnitude above it is a NaN.
pub const INFINITY_BITS: u64 = 0x7ff0_0000_0000_0000;

/// The bit pattern of the largest finite double.
pub const MAX_BITS: u64 = 0x7fef_ffff_ffff_ffff;

/// Two to the power 52: the lowest bit of the exponent, and the leading bit
/// that the fraction of a normal double leaves out.
pub const HIDDEN_BIT: u64 = 0x0010_0000_0000_0000;

/// An IEEE 754 binary64 number, identified by its 64 bits.
///
/// Two doubles are the same value of this type when their bits agree, so the
/// two zeros differ as values although they compare equal, and a NaN is equal
/// to itself as a value although it compares with nothing.
#[derive(Clone, Copy, Debug, PartialEq, Eq, Structural)]
pub struct Double {
    pub bits: u64,
}

impl Double {
    /// The bits without the sign.
    pub open spec fn magnitude(self) -> int {
        if self.bits >= SIGN_BIT {
            self.bits - SIGN_BIT
        } else {
            self.bits as int
        }
    }

    /// Whether the sign bit is set.
    pub open spec fn is_negative(self) -> bool {
        self.bits >= SIGN_BIT
    }

    /// Whether the bits encode no number at all.
    pub open spec fn spec_is_nan(self) -> bool {
        self.magnitude() > INFINITY_BITS
    }

    /// The place of a number in the numeric order: doubles that are not NaN
    /// compare as their ranks do. Both zeros have rank 0.
    pub open spec fn rank(self) -> int {
        if self.is_negative() {
            -self.magnitude()
        } else {
            self.magnitude()
        }
    }

    /// The eleven bits of the exponent.
    pub open spec fn exponent(self) -> int {
        self.magnitude() / (HIDDEN_BIT as int)
    }

    /// The fifty-two bits of the fraction.
    pub open spec fn fraction(self) -> int {
        self.magnitude() % (HIDDEN_BIT as int)
    }

    /// The absolute value of a double that is neither infinite nor NaN,
    /// counted in smallest positive doubles: the fraction alone below the
    /// normal range, and in it the fraction with its leading bit, doubled
    /// once for each step of the exponent above one.
    pub open spec fn units(self) -> int {
        if self.exponent() <= 0 {
            self.fraction()
        } else {
            (HIDDEN_BIT + self.fraction()) * pow2((self.exponent() - 1) as nat)
        }
    }

    /// The value of a double that is neither infinite nor NaN, counted in
    /// smallest positive doubles.
    pub open spec fn value(self) -> int {
        if self.is_negative() {
            -self.units()
        } else {
            self.units()
        }
    }

    /// `self < other` on doubles: false as soon as either is NaN.
    pub open spec fn spec_lt(self, other: Double) -> bool {
        !self.is_nan() && !other.is_nan() && self.rank() < other.rank()
    }

    /// `self <= other` on doubles: false as soon as either is NaN.
    pub open spec fn spec_le(self, other: Double) -> bool {
        !self.is_nan() && !other.is_nan() && self.rank() <= other.rank()
    }

    /// `self > other` on doubles.
    pub open spec fn spec_gt(self, other: Double) -> bool {
        other.lt(self)
    }

    /// `self >= other` on doubles.
    pub open spec fn spec_ge(self, other: Double) -> bool {
        other.le(self)
    }

    /// Whether the double compares equal to zero: true of both zeros, false
    /// of NaN.
    pub open spec fn spec_is_zero(self) -> bool {
        self.magnitude() == 0
    }

    /// The double with the given bits.
    pub fn from_bits(bits: u64) -> (d: Double)
        ensures
            d.bits == bits,
    {
        Double { bits }
    }

    /// The bits of the double.
    pub fn to_bits(self) -> (bits: u64)
        ensures
            bits == self.bits,
    {
        self.bits
    }

    /// Positive zero.
    pub fn zero() -> (d: Double)
        ensures
            d.bits == 0,
    {
        Double { bits: 0 }
    }

    /// The largest finite double.
    pub fn max() -> (d: Double)
        ensures
            d.bits == MAX_BITS,
    {
        Double { bits: MAX_BITS }
    }

    fn abs_bits(self) -> (m: u64)
        ensures
            m == self.magnitude(),
    {
        if self.bits >= SIGN_BIT {
            self.bits - SIGN_BIT
        } else {
            self.bits
        }
    }

    /// Tests for NaN.
    #[verifier::when_used_as_spec(spec_is_nan)]
    pub fn is_nan(self) -> (r: bool)
        ensures
            r == self.is_nan(),
    {
        self.abs_bits() > INFINITY_BITS
    }

    /// Tests whether the double compares equal to zero.
    #[verifier::when_used_as_spec(spec_is_zero)]
    pub fn is_zero(self) -> (r: bool)
        ensures
            r == self.is_zero(),
    {
        self.abs_bits() == 0
    }

    /// Tests `self < other` as doubles compare.
    #[verifier::when_used_as_spec(spec_lt)]
    pub fn lt(self, other: Double) -> (r: bool)
        ensures
            r == self.lt(other),
    {
        if self.is_nan() || other.is_nan() {
            false
        } else {
            let a: u64 = self.abs_bits();
            let b: u64 = other.abs_bits();
            if self.bits >= SIGN_BIT {
                if other.bits >= SIGN_BIT {
                    b < a
                } else {
                    a != 0 || b != 0
                }
            } else {
                other.bits < SIGN_BIT && a < b
            }
        }
    }

    /// Tests `self <= other` as doubles compare.
    #[verifier::when_used_as_spec(spec_le)]
    pub fn le(self, other: Double) -> (r: bool)
        ensures
            r == self.le(other),
    {
        if self.is_nan() || other.is_nan() {
            false
        } else {
            let a: u64 = self.abs_bits();
            let b: u64 = other.abs_bits();
            if self.bits >= SIGN_BIT {
                other.bits < SIGN_BIT || b <= a
            } else if other.bits >= SIGN_BIT {
                a == 0 && b == 0
            } else {
                a <= b
            }
        }
    }

    /// Tests `self > other` as doubles compare.
    #[verifier::when_used_as_spec(spec_gt)]
    pub fn gt(self, other: Double) -> (r: bool)
        ensures
            r == self.gt(other),
    {
        other.lt(self)
    }

    /// Tests `self >= other` as doubles compare.
    #[verifier::when_used_as_spec(spec_ge)]
    pub fn ge(self, other: Double) -> (r: bool)
        ensures
            r == self.ge(other),
    {
        other.le(self)
    }
}

/// A larger magnitude counts more units.
pub proof fn lemma_units_increase(a: Double, b: Double)
    requires
        a.magnitude() < b.magnitude(),
    ensures
        0 <= a.units() < b.units(),
{
    let h = HIDDEN_BIT as int;
    let (ea, fa) = (a.exponent(), a.fraction());
    let (eb, fb) = (b.exponent(), b.fraction());
    assert(a.magnitude() == ea * h + fa && 0 <= fa < h && 0 <= ea) by {
        vstd::arithmetic::div_mod::lemma_fundamental_div_mod(a.magnitude(), h);
    }
    assert(b.magnitude() == eb * h + fb && 0 <= fb < h && 0 <= eb) by {
        vstd::arithmetic::div_mod::lemma_fundamental_div_mod(b.magnitude(), h);
    }
    assert(ea <= eb);
    if ea == eb {
        if ea > 0 {
            let p = pow2((ea - 1) as nat) as int;
            lemma_pow2_pos((ea - 1) as nat);
            assert(0 <= (h + fa) * p < (h + fb) * p) by (nonlinear_arith)
                requires
                    0 <= fa < fb,
                    0 < h,
                    0 < p,
            ;
        }
    } else {
        let pa = pow2(ea as nat) as int;
        let pb = pow2((eb - 1) as nat) as int;
        lemma_pow2_pos(ea as nat);
        assert(pa <= pb) by {
            if ea < eb - 1 {
                lemma_pow2_strictly_increases(ea as nat, (eb - 1) as nat);
            }
        }
        assert(0 <= a.units() < h * pa) by {
            if ea == 0 {
                lemma2_to64();
            } else {
                let p = pow2((ea - 1) as nat) as int;
                lemma_pow2_pos((ea - 1) as nat);
                lemma_pow2_unfold(ea as nat);
                assert(0 <= (h + fa) * p < h * (2 * p)) by (nonlinear_arith)
                    requires
                        0 <= fa < h,
                        0 < p,
                ;
            }
        }
        assert(h * pa <= (h + fb) * pb) by (nonlinear_arith)
            requires
                0 <= fb,
                0 < h,
                0 < pa <= pb,
        ;
    }
}

/// Doubles rank as their values do: the order that the comparisons go by is
/// the order of the numbers that the bits stand for.
pub proof fn lemma_rank_orders_values(a: Double, b: Double)
    ensures
        a.rank() < b.rank() <==> a.value() < b.value(),
        a.rank() == b.rank() <==> a.value() == b.value(),
{
    let zero = Double { bits: 0 };
    assert(zero.units() == 0);
    if a.magnitude() < b.magnitude() {
        lemma_units_increase(a, b);
    } else if b.magnitude() < a.magnitude() {
        lemma_units_increase(b, a);
    } else {
        assert(a.units() == b.units());
    }
    if 0 < a.magnitude() {
        lemma_units_increase(zero, a);
    } else {
        assert(a.units() == 0);
    }
    if 0 < b.magnitude() {
        lemma_units_increase(zero, b);
    } else {
        assert(b.units() == 0);
    }
}

} // verus!
