//! Single-precision numbers carried by their bit patterns.
//!
//! The world model receives distances, angles and densities as IEEE 754 binary32
//! values. It never does arithmetic on them; it only orders them against one
//! another and against fixed thresholds, and holds them between bounds. A
//! [`Scalar`] therefore holds the 32 bits of such a value, and this module states
//! the IEEE order on those bits.

use vstd::prelude::*;

verus! {

/// Bit pattern of the sign of a binary32 value.
pub const SIGN_BIT: u32 = 0x8000_0000;

/// Bit pattern of positive infinity; every larger magnitude is a NaN.
pub const INFINITY_BITS: u32 = 0x7f80_0000;

/// Bit pattern of `0.0`.
pub const ZERO_BITS: u32 = 0;

/// Bit pattern of `1.0`.
pub const ONE_BITS: u32 = 0x3f80_0000;

/// An IEEE 754 binary32 value, identified by its 32 bits.
///
/// `==` on this type is identity of bit patterns. It is finer than the IEEE
/// equality [`Scalar::same_value`], which equates the two zeros and holds of no NaN.
#[derive(Debug, Clone, Copy, PartialEq, Eq, Structural)]
pub struct Scalar {
    pub bits: u32,
}

impl Scalar {
    /// The value with the given bits.
    pub open spec fn of_bits(bits: u32) -> Scalar {
        Scalar { bits }
    }

    /// The bits without the sign: the pattern of the absolute value.
    pub open spec fn magnitude(self) -> int {
        if self.bits >= SIGN_BIT {
            self.bits - SIGN_BIT
        } else {
            self.bits as int
        }
    }

    /// The sign bit is set.
    pub open spec fn sign(self) -> bool {
        self.bits >= SIGN_BIT
    }

    /// The value is not a number: its exponent is all ones and its fraction is not zero.
    pub open spec fn spec_is_nan(self) -> bool {
        self.magnitude() > INFINITY_BITS
    }

    /// Position of a number on the line of binary32 values: magnitudes grow with
    /// their bit patterns, a set sign mirrors them, and both zeros stand at 0.
    /// The rank of a NaN has no meaning.
    pub open spec fn rank(self) -> int {
        if self.sign() {
            -self.magnitude()
        } else {
            self.magnitude()
        }
    }

    /// IEEE `<`: false as soon as one side is a NaN.
    pub open spec fn spec_lt(self, other: Scalar) -> bool {
        !self.is_nan() && !other.is_nan() && self.rank() < other.rank()
    }

    /// IEEE `<=`: false as soon as one side is a NaN.
    pub open spec fn spec_le(self, other: Scalar) -> bool {
        !self.is_nan() && !other.is_nan() && self.rank() <= other.rank()
    }

    /// IEEE `==`: the same number, where `-0` and `+0` are one number and a NaN is none.
    pub open spec fn same_value(self, other: Scalar) -> bool {
        !self.is_nan() && !other.is_nan() && self.rank() == other.rank()
    }

    /// The absolute value: the same bits with the sign cleared.
    pub open spec fn spec_abs(self) -> Scalar {
        Scalar { bits: self.magnitude() as u32 }
    }

    /// Wraps the bits of a binary32 value.
    #[verifier::when_used_as_spec(of_bits)]
    pub fn from_bits(bits: u32) -> (s: Scalar)
        ensures
            s == Scalar::of_bits(bits),
    {
        Scalar { bits }
    }

    /// The bits of the value.
    pub fn to_bits(self) -> (bits: u32)
        ensures
            bits == self.bits,
    {
        self.bits
    }

    fn magnitude_bits(self) -> (m: u32)
        ensures
            m == self.magnitude(),
    {
        if self.bits >= SIGN_BIT {
            self.bits - SIGN_BIT
        } else {
            self.bits
        }
    }

    /// Tells whether the value is a NaN.
    #[verifier::when_used_as_spec(spec_is_nan)]
    pub fn is_nan(self) -> (r: bool)
        ensures
            r == self.spec_is_nan(),
    {
        self.magnitude_bits() > INFINITY_BITS
    }

    /// IEEE `self < other`.
    #[verifier::when_used_as_spec(spec_lt)]
    pub fn lt(self, other: Scalar) -> (r: bool)
        ensures
            r == self.spec_lt(other),
    {
        if self.is_nan() || other.is_nan() {
            return false;
        }
        let a: u32 = self.magnitude_bits();
        let b: u32 = other.magnitude_bits();
        if self.bits >= SIGN_BIT {
            if other.bits >= SIGN_BIT {
                b < a
            } else {
                a != 0 || b != 0
            }
        } else {
            if other.bits >= SIGN_BIT {
                false
            } else {
                a < b
            }
        }
    }

    /// IEEE `self <= other`.
    #[verifier::when_used_as_spec(spec_le)]
    pub fn le(self, other: Scalar) -> (r: bool)
        ensures
            r == self.spec_le(other),
    {
        if self.is_nan() || other.is_nan() {
            return false;
        }
        !other.lt(self)
    }

    /// IEEE `self > other`.
    pub fn gt(self, other: Scalar) -> (r: bool)
        ensures
            r == other.spec_lt(self),
    {
        other.lt(self)
    }

    /// IEEE `self >= other`.
    pub fn ge(self, other: Scalar) -> (r: bool)
        ensures
            r == other.spec_le(self),
    {
        other.le(self)
    }

    /// The absolute value. A NaN stays a NaN.
    #[verifier::when_used_as_spec(spec_abs)]
    pub fn abs(self) -> (r: Scalar)
        ensures
            r == self.spec_abs(),
            !r.sign(),
            r.is_nan() == self.is_nan(),
            r.rank() == self.magnitude(),
    {
        Scalar { bits: self.magnitude_bits() }
    }

    /// The value with the opposite sign: the same bits with the sign flipped.
    pub open spec fn spec_neg(self) -> Scalar {
        if self.bits >= SIGN_BIT {
            Scalar { bits: (self.bits - SIGN_BIT) as u32 }
        } else {
            Scalar { bits: (self.bits + SIGN_BIT) as u32 }
        }
    }

    /// The value with the opposite sign. A NaN stays a NaN.
    #[verifier::when_used_as_spec(spec_neg)]
    pub fn neg(self) -> (r: Scalar)
        ensures
            r == self.spec_neg(),
            r.is_nan() == self.is_nan(),
            r.rank() == -self.rank(),
            r.magnitude() == self.magnitude(),
    {
        if self.bits >= SIGN_BIT {
            Scalar { bits: self.bits - SIGN_BIT }
        } else {
            Scalar { bits: self.bits + SIGN_BIT }
        }
    }

    /// `0.0`.
    pub fn zero() -> (r: Scalar)
        ensures
            r == Scalar::of_bits(ZERO_BITS),
    {
        Scalar { bits: ZERO_BITS }
    }

    /// `1.0`.
    pub fn one() -> (r: Scalar)
        ensures
            r == Scalar::of_bits(ONE_BITS),
    {
        Scalar { bits: ONE_BITS }
    }

    /// The value held between `min` and `max`: `min` where it is below `min`,
    /// `max` where it is above `max`, else itself. A NaN stays what it is.
    pub open spec fn spec_clamp(self, min: Scalar, max: Scalar) -> Scalar {
        if self.spec_lt(min) {
            min
        } else if max.spec_lt(self) {
            max
        } else {
            self
        }
    }

    /// Holds the value between `min` and `max`.
    ///
    /// The result of a number lies between the bounds; a NaN is handed back.
    #[verifier::when_used_as_spec(spec_clamp)]
    pub fn clamp(self, min: Scalar, max: Scalar) -> (r: Scalar)
        requires
            min.spec_le(max),
        ensures
            r == self.spec_clamp(min, max),
            !self.is_nan() ==> min.spec_le(r) && r.spec_le(max),
            self.is_nan() ==> r == self,
    {
        if self.lt(min) {
            min
        } else if max.lt(self) {
            max
        } else {
            self
        }
    }

    /// The smaller of two values, where a NaN gives way to a number: `other`
    /// where it is below `self` or `self` is a NaN, else `self`.
    pub open spec fn spec_min(self, other: Scalar) -> Scalar {
        if other.spec_lt(self) || self.spec_is_nan() {
            other
        } else {
            self
        }
    }

    /// The smaller of two values. Where one of them is a NaN the other is
    /// returned; of two zeros with different signs the first.
    #[verifier::when_used_as_spec(spec_min)]
    pub fn min(self, other: Scalar) -> (r: Scalar)
        ensures
            r == self.spec_min(other),
            r == self || r == other,
            !self.is_nan() && !other.is_nan() ==> r.spec_le(self) && r.spec_le(other),
            r.is_nan() ==> self.is_nan() && other.is_nan(),
    {
        if other.lt(self) || self.is_nan() {
            other
        } else {
            self
        }
    }

    /// The larger of two values, where a NaN gives way to a number: `other`
    /// where it is above `self` or `self` is a NaN, else `self`.
    pub open spec fn spec_max(self, other: Scalar) -> Scalar {
        if self.spec_lt(other) || self.spec_is_nan() {
            other
        } else {
            self
        }
    }

    /// The larger of two values. Where one of them is a NaN the other is
    /// returned; of two zeros with different signs the first.
    #[verifier::when_used_as_spec(spec_max)]
    pub fn max(self, other: Scalar) -> (r: Scalar)
        ensures
            r == self.spec_max(other),
            r == self || r == other,
            !self.is_nan() && !other.is_nan() ==> self.spec_le(r) && other.spec_le(r),
            r.is_nan() ==> self.is_nan() && other.is_nan(),
    {
        if self.lt(other) || self.is_nan() {
            other
        } else {
            self
        }
    }

    /// The value held between `0.0` and `1.0`.
    pub fn clamp_unit(self) -> (r: Scalar)
        ensures
            r == self.spec_clamp(Scalar::of_bits(ZERO_BITS), Scalar::of_bits(ONE_BITS)),
            !self.is_nan() ==> r.in_unit_interval(),
            self.is_nan() ==> r == self,
    {
        self.clamp(Scalar::zero(), Scalar::one())
    }

    /// The value is a number from `0.0` to `1.0`, the ends included.
    pub open spec fn in_unit_interval(self) -> bool {
        Scalar::of_bits(ZERO_BITS).spec_le(self) && self.spec_le(Scalar::of_bits(ONE_BITS))
    }

    /// Tells whether the value is a number from `0.0` to `1.0`.
    pub fn is_in_unit_interval(self) -> (r: bool)
        ensures
            r == self.in_unit_interval(),
    {
        Scalar::zero().le(self) && self.le(Scalar::one())
    }

    /// `<` is a strict order: nothing is below itself, and it is transitive.
    pub proof fn lemma_lt_strict_order(a: Scalar, b: Scalar, c: Scalar)
        ensures
            !a.spec_lt(a),
            a.spec_lt(b) && b.spec_lt(c) ==> a.spec_lt(c),
            a.spec_lt(b) ==> !b.spec_lt(a),
    {
    }

    /// Of two numbers exactly one of `a < b`, `a == b` and `b < a` holds, and
    /// `<=` is `<` or `==`. With a NaN on either side all of them are false.
    pub proof fn lemma_trichotomy(a: Scalar, b: Scalar)
        ensures
            !a.is_nan() && !b.is_nan() ==> (a.spec_lt(b) || a.same_value(b) || b.spec_lt(a)),
            !(a.spec_lt(b) && a.same_value(b)),
            !(b.spec_lt(a) && a.same_value(b)),
            a.spec_le(b) == (a.spec_lt(b) || a.same_value(b)),
            a.is_nan() || b.is_nan() ==> !a.spec_lt(b) && !a.spec_le(b) && !a.same_value(b),
    {
    }

    /// Among numbers without a sign the order of the values is the order of the bits.
    pub proof fn lemma_unsigned_order_is_bit_order(a: Scalar, b: Scalar)
        requires
            a.bits <= INFINITY_BITS,
            b.bits <= INFINITY_BITS,
        ensures
            a.spec_lt(b) == (a.bits < b.bits),
            a.spec_le(b) == (a.bits <= b.bits),
    {
    }
}

/// A point or direction in space, by the bit patterns of its three coordinates.
#[derive(Debug, Clone, Copy, PartialEq, Eq, Structural)]
pub struct Vec3 {
    pub x: Scalar,
    pub y: Scalar,
    pub z: Scalar,
}

impl Vec3 {
    /// The vector with the given coordinates.
    pub fn new(x: Scalar, y: Scalar, z: Scalar) -> (v: Vec3)
        ensures
            v == (Vec3 { x, y, z }),
    {
        Vec3 { x, y, z }
    }

    /// The origin, all coordinates `0.0`.
    pub fn zero() -> (v: Vec3)
        ensures
            v.x == Scalar::of_bits(ZERO_BITS),
            v.y == Scalar::of_bits(ZERO_BITS),
            v.z == Scalar::of_bits(ZERO_BITS),
    {
        Vec3 { x: Scalar::zero(), y: Scalar::zero(), z: Scalar::zero() }
    }
}

impl Default for Vec3 {
    /// The origin.
    fn default() -> (v: Vec3)
        ensures
            v.x == Scalar::of_bits(ZERO_BITS),
            v.y == Scalar::of_bits(ZERO_BITS),
            v.z == Scalar::of_bits(ZERO_BITS),
    {
        Vec3::zero()
    }
}

} // verus!
