//! IEEE-754 binary64 numbers, carried as their 64-bit encodings.
//!
//! An encoding is a sign bit followed by 63 bits of magnitude. Magnitudes up to
//! that of infinity order the numbers they encode, so every comparison of two
//! numbers is a comparison of integers. Magnitudes above that of infinity encode
//! no number (NaN) and compare false with everything.

use vstd::prelude::*;

verus! {

/// The sign bit of an encoding.
pub const SIGN_BIT: u64 = 0x8000_0000_0000_0000;

/// The magnitude that encodes infinity.
pub const INFINITY_BITS: u64 = 0x7ff0_0000_0000_0000;

/// A binary64 number, held as its encoding.
#[derive(Clone, Copy, Debug)]
pub struct Scalar {
    pub bits: u64,
}

/// The encoding of one.
pub const ONE_BITS: u64 = 0x3ff0_0000_0000_0000;

/// The encoding of 1e-12, the tolerance below which two quantities coincide.
pub const EPSILON_BITS: u64 = 0x3d71_9799_812d_ea11;

impl Scalar {
    /// The encoding with its sign bit cleared.
    pub open spec fn magnitude(self) -> int {
        if self.bits >= SIGN_BIT {
            self.bits - SIGN_BIT
        } else {
            self.bits as int
        }
    }

    /// Whether the sign bit is set.
    pub open spec fn sign_is_negative(self) -> bool {
        self.bits >= SIGN_BIT
    }

    /// Whether the encoding stands for no number.
    pub open spec fn spec_is_nan(self) -> bool {
        self.magnitude() > INFINITY_BITS
    }

    /// The place of an encoding on the number line: the signed magnitude. Both
    /// zeros rank 0, and equal numbers rank equally.
    pub open spec fn rank(self) -> int {
        if self.sign_is_negative() {
            -self.magnitude()
        } else {
            self.magnitude()
        }
    }

    /// `self <= other` as numbers: false as soon as either is NaN.
    pub open spec fn spec_le(self, other: Scalar) -> bool {
        !self.spec_is_nan() && !other.spec_is_nan() && self.rank() <= other.rank()
    }

    /// `self < other` as numbers: false as soon as either is NaN.
    pub open spec fn spec_lt(self, other: Scalar) -> bool {
        !self.spec_is_nan() && !other.spec_is_nan() && self.rank() < other.rank()
    }

    /// `low <= self <= high` as numbers.
    pub open spec fn spec_within(self, low: Scalar, high: Scalar) -> bool {
        low.spec_le(self) && self.spec_le(high)
    }

    /// The same number with the opposite sign.
    pub open spec fn spec_negated(self) -> Scalar {
        if self.bits >= SIGN_BIT {
            Scalar { bits: (self.bits - SIGN_BIT) as u64 }
        } else {
            Scalar { bits: (self.bits + SIGN_BIT) as u64 }
        }
    }

    /// Zero, with a positive sign.
    pub open spec fn spec_zero() -> Scalar {
        Scalar { bits: 0 }
    }

    /// One.
    pub open spec fn spec_one() -> Scalar {
        Scalar { bits: ONE_BITS }
    }

    /// The tolerance 1e-12.
    pub open spec fn spec_epsilon() -> Scalar {
        Scalar { bits: EPSILON_BITS }
    }

    #[verifier::when_used_as_spec(spec_zero)]
    pub fn zero() -> (s: Scalar)
        ensures
            s == Scalar::spec_zero(),
    {
        Scalar { bits: 0 }
    }

    #[verifier::when_used_as_spec(spec_one)]
    pub fn one() -> (s: Scalar)
        ensures
            s == Scalar::spec_one(),
    {
        Scalar { bits: ONE_BITS }
    }

    #[verifier::when_used_as_spec(spec_epsilon)]
    pub fn epsilon() -> (s: Scalar)
        ensures
            s == Scalar::spec_epsilon(),
    {
        Scalar { bits: EPSILON_BITS }
    }

    pub fn from_bits(bits: u64) -> (s: Scalar)
        ensures
            s.bits == bits,
    {
        Scalar { bits }
    }

    pub fn to_bits(self) -> (bits: u64)
        ensures
            bits == self.bits,
    {
        self.bits
    }

    fn magnitude_bits(self) -> (m: u64)
        ensures
            m == self.magnitude(),
    {
        if self.bits >= SIGN_BIT {
            self.bits - SIGN_BIT
        } else {
            self.bits
        }
    }

    #[verifier::when_used_as_spec(spec_is_nan)]
    pub fn is_nan(self) -> (nan: bool)
        ensures
            nan == self.spec_is_nan(),
    {
        self.magnitude_bits() > INFINITY_BITS
    }

    #[verifier::when_used_as_spec(spec_negated)]
    pub fn negated(self) -> (n: Scalar)
        ensures
            n == self.spec_negated(),
    {
        if self.bits >= SIGN_BIT {
            Scalar { bits: self.bits - SIGN_BIT }
        } else {
            Scalar { bits: self.bits + SIGN_BIT }
        }
    }

    #[verifier::when_used_as_spec(spec_le)]
    pub fn le(self, other: Scalar) -> (holds: bool)
        ensures
            holds == self.spec_le(other),
    {
        if self.is_nan() || other.is_nan() {
            return false;
        }
        let a: u64 = self.magnitude_bits();
        let b: u64 = other.magnitude_bits();
        if self.bits >= SIGN_BIT {
            if other.bits >= SIGN_BIT {
                b <= a
            } else {
                true
            }
        } else {
            if other.bits >= SIGN_BIT {
                a == 0 && b == 0
            } else {
                a <= b
            }
        }
    }

    #[verifier::when_used_as_spec(spec_lt)]
    pub fn lt(self, other: Scalar) -> (holds: bool)
        ensures
            holds == self.spec_lt(other),
    {
        if self.is_nan() || other.is_nan() {
            return false;
        }
        let a: u64 = self.magnitude_bits();
        let b: u64 = other.magnitude_bits();
        if self.bits >= SIGN_BIT {
            if other.bits >= SIGN_BIT {
                b < a
            } else {
                a != 0 || b != 0
            }
        } else {
            if other.bits >= SIGN_BIT {
                false
            } else {
                a < b
            }
        }
    }

    /// Whether `self` ranks no higher than `other`. On numbers this is
    /// `self <= other`; unlike [`Scalar::le`] it also places the encodings that
    /// stand for no number, beyond the infinity of their sign.
    pub fn ranks_at_most(self, other: Scalar) -> (holds: bool)
        ensures
            holds == (self.rank() <= other.rank()),
    {
        let a: u64 = self.magnitude_bits();
        let b: u64 = other.magnitude_bits();
        if self.bits >= SIGN_BIT {
            if other.bits >= SIGN_BIT {
                b <= a
            } else {
                true
            }
        } else {
            if other.bits >= SIGN_BIT {
                a == 0 && b == 0
            } else {
                a <= b
            }
        }
    }

    /// Whether `self` is a zero of either sign.
    pub open spec fn spec_is_zero(self) -> bool {
        self.magnitude() == 0
    }

    #[verifier::when_used_as_spec(spec_is_zero)]
    pub fn is_zero(self) -> (zero: bool)
        ensures
            zero == self.spec_is_zero(),
    {
        self.magnitude_bits() == 0
    }

    #[verifier::when_used_as_spec(spec_within)]
    pub fn within(self, low: Scalar, high: Scalar) -> (holds: bool)
        ensures
            holds == self.spec_within(low, high),
    {
        low.le(self) && self.le(high)
    }
}

/// On numbers, `<=` is a total order up to the sign of zero, and `<` is its
/// strict part; an encoding that stands for no number compares false with
/// everything, itself included.
pub proof fn numbers_are_totally_ordered(a: Scalar, b: Scalar, c: Scalar)
    ensures
        a.is_nan() || b.is_nan() ==> !a.le(b) && !a.lt(b),
        !a.is_nan() ==> a.le(a) && !a.lt(a),
        !a.is_nan() && !b.is_nan() ==> a.le(b) || b.le(a),
        a.le(b) && b.le(c) ==> a.le(c),
        a.le(b) && b.le(a) ==> a.rank() == b.rank(),
        a.lt(b) <==> a.le(b) && !b.le(a),
        !a.is_nan() && !b.is_nan() ==> (a.lt(b) <==> !b.le(a)),
{
}

/// Changing the sign mirrors the order: it keeps the magnitude, turns the rank
/// round, and undoes itself.
pub proof fn negation_mirrors_the_order(a: Scalar, b: Scalar)
    ensures
        a.negated().magnitude() == a.magnitude(),
        a.negated().rank() == -a.rank(),
        a.negated().negated() == a,
        a.negated().is_nan() == a.is_nan(),
        a.le(b) <==> b.negated().le(a.negated()),
{
}

} // verus!
