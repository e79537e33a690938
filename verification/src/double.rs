//! IEEE 754 double-precision numbers, handled by their 64-bit patterns.
//!
//! The pattern of a double has one sign bit, eleven exponent bits and fifty-two
//! fraction bits. For two doubles of the same sign that are not NaN, the one
//! with the larger pattern below the sign bit is the one further from zero. All
//! comparisons in this crate rest on that fact, through [`Double::rank`].

use core::cmp::Ordering;
use vstd::prelude::*;

verus! {

/// The sign bit of a double's pattern.
pub const SIGN_BIT: u64 = 0x8000_0000_0000_0000;

/// Pattern of positive infinity; every larger pattern below the sign bit is a NaN.
pub const INFINITY_BITS: u64 = 0x7FF0_0000_0000_0000;

/// Pattern of the number one.
pub const ONE_BITS: u64 = 0x3FF0_0000_0000_0000;

/// A double-precision number held by its bit pattern.
///
/// `==` on this type compares patterns: a NaN equals itself, and the two zeros
/// differ. Numeric comparison is [`Double::le`] and its relatives.
#[derive(Clone, Copy, Debug, PartialEq, Eq, Hash, Structural)]
pub struct Double {
    pub bits: u64,
}

impl Double {
    /// The pattern with the sign bit cleared.
    pub open spec fn magnitude(self) -> u64 {
        if self.bits >= SIGN_BIT {
            (self.bits - SIGN_BIT) as u64
        } else {
            self.bits
        }
    }

    /// Whether the sign bit is set.
    pub open spec fn is_negative(self) -> bool {
        self.bits >= SIGN_BIT
    }

    /// Whether the pattern is one of the NaNs.
    pub open spec fn spec_is_nan(self) -> bool {
        self.magnitude() > INFINITY_BITS
    }

    /// An integer that orders non-NaN doubles as their numeric values do:
    /// `a` is numerically below `b` exactly when `a.rank() < b.rank()`, and both
    /// zeros have rank zero.
    pub open spec fn rank(self) -> int {
        if self.is_negative() {
            -(self.magnitude() as int)
        } else {
            self.magnitude() as int
        }
    }

    /// Numeric `<=`: false as soon as one side is a NaN.
    pub open spec fn spec_le(self, other: Double) -> bool {
        !self.spec_is_nan() && !other.spec_is_nan() && self.rank() <= other.rank()
    }

    /// Numeric `<`: false as soon as one side is a NaN.
    pub open spec fn spec_lt(self, other: Double) -> bool {
        !self.spec_is_nan() && !other.spec_is_nan() && self.rank() < other.rank()
    }

    /// Numeric equality: false as soon as one side is a NaN, true of the two zeros.
    pub open spec fn same_number(self, other: Double) -> bool {
        !self.spec_is_nan() && !other.spec_is_nan() && self.rank() == other.rank()
    }

    /// The number with the sign bit cleared.
    pub open spec fn spec_abs(self) -> Double {
        Double { bits: self.magnitude() }
    }

    /// The smaller of two numbers; the first one where neither is below the other.
    pub open spec fn spec_min(self, other: Double) -> Double {
        if other.spec_lt(self) {
            other
        } else {
            self
        }
    }

    /// Whether the number lies between zero and one, both included.
    pub open spec fn spec_is_probability(self) -> bool {
        !self.spec_is_nan() && 0 <= self.rank() <= ONE_BITS
    }

    /// Whether the number lies between minus one and one, both included.
    pub open spec fn spec_is_coefficient(self) -> bool {
        self.magnitude() <= ONE_BITS
    }

    pub fn from_bits(bits: u64) -> (r: Double)
        ensures
            r.bits == bits,
    {
        Double { bits }
    }

    pub fn to_bits(self) -> (r: u64)
        ensures
            r == self.bits,
    {
        self.bits
    }

    /// The number one.
    pub fn one() -> (r: Double)
        ensures
            r.bits == ONE_BITS,
    {
        Double { bits: ONE_BITS }
    }

    /// Positive zero.
    pub fn zero() -> (r: Double)
        ensures
            r.bits == 0,
    {
        Double { bits: 0 }
    }

    fn magnitude_bits(self) -> (r: u64)
        ensures
            r == self.magnitude(),
    {
        if self.bits >= SIGN_BIT {
            self.bits - SIGN_BIT
        } else {
            self.bits
        }
    }

    #[verifier::when_used_as_spec(spec_is_nan)]
    pub fn is_nan(self) -> (r: bool)
        ensures
            r == self.spec_is_nan(),
    {
        self.magnitude_bits() > INFINITY_BITS
    }

    #[verifier::when_used_as_spec(spec_abs)]
    pub fn abs(self) -> (r: Double)
        ensures
            r == self.spec_abs(),
    {
        Double { bits: self.magnitude_bits() }
    }

    #[verifier::when_used_as_spec(spec_le)]
    pub fn le(self, other: Double) -> (r: bool)
        ensures
            r == self.spec_le(other),
    {
        if self.is_nan() || other.is_nan() {
            false
        } else if self.bits >= SIGN_BIT {
            if other.bits >= SIGN_BIT {
                other.magnitude_bits() <= self.magnitude_bits()
            } else {
                true
            }
        } else if other.bits >= SIGN_BIT {
            self.bits == 0 && other.magnitude_bits() == 0
        } else {
            self.bits <= other.bits
        }
    }

    #[verifier::when_used_as_spec(spec_lt)]
    pub fn lt(self, other: Double) -> (r: bool)
        ensures
            r == self.spec_lt(other),
    {
        self.le(other) && !other.le(self)
    }

    #[verifier::when_used_as_spec(spec_min)]
    pub fn min(self, other: Double) -> (r: Double)
        ensures
            r == self.spec_min(other),
    {
        if other.lt(self) {
            other
        } else {
            self
        }
    }

    #[verifier::when_used_as_spec(spec_is_probability)]
    pub fn is_probability(self) -> (r: bool)
        ensures
            r == self.spec_is_probability(),
    {
        if self.bits >= SIGN_BIT {
            self.bits == SIGN_BIT
        } else {
            self.bits <= ONE_BITS
        }
    }

    #[verifier::when_used_as_spec(spec_is_coefficient)]
    pub fn is_coefficient(self) -> (r: bool)
        ensures
            r == self.spec_is_coefficient(),
    {
        self.magnitude_bits() <= ONE_BITS
    }

    /// Three-way numeric comparison in which a pair that does not compare,
    /// because one side is a NaN, counts as `Greater`.
    pub fn compare_or_greater(self, other: Double) -> (r: Ordering)
        ensures
            r == Ordering::Less <==> self.spec_lt(other),
            r == Ordering::Equal <==> self.same_number(other),
    {
        if self.lt(other) {
            Ordering::Less
        } else if self.le(other) {
            Ordering::Equal
        } else {
            Ordering::Greater
        }
    }
}

} // verus!
