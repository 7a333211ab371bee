//! Single-precision numbers held by their IEEE 754 bit pattern.
//!
//! The engine stores, compares, negates and clamps the quantities of the
//! simulation, but never adds or multiplies them: arithmetic on them is the
//! caller's. A [`Scalar`] therefore carries the thirty-two bits of a binary32
//! number, and everything here is stated over two readings of those bits: whether
//! they encode a NaN, and the `rank`, an integer that orders all other patterns
//! exactly as IEEE 754 orders the numbers they encode.
use vstd::prelude::*;

verus! {

/// The sign bit of a binary32 pattern.
pub const SIGN_BIT: u32 = 0x8000_0000;

/// The pattern of positive infinity; every larger magnitude encodes a NaN.
pub const INFINITY_BITS: u32 = 0x7f80_0000;

/// The pattern of `0.01`, the squared distance under which a pair is ignored.
pub const NEAR_LIMIT_BITS: u32 = 0x3c23_d70a;

/// The pattern of `5.0`, the radius a particle is drawn with.
pub const RADIUS_BITS: u32 = 0x40a0_0000;

/// The pattern of `25.0`, the radius squared.
pub const RADIUS_SQUARED_BITS: u32 = 0x41c8_0000;

/// The pattern of `10.0`, twice the radius.
pub const DIAMETER_BITS: u32 = 0x4120_0000;

/// A binary32 number, by its bits.
#[derive(Clone, Copy, Debug)]
pub struct Scalar {
    pub bits: u32,
}

impl Scalar {
    /// Whether the sign bit is set.
    pub open spec fn negative(self) -> bool {
        self.bits >= SIGN_BIT
    }

    /// The bits without the sign bit.
    pub open spec fn magnitude(self) -> int {
        if self.negative() {
            self.bits - SIGN_BIT
        } else {
            self.bits as int
        }
    }

    /// Whether the bits encode a NaN.
    pub open spec fn spec_is_nan(self) -> bool {
        self.magnitude() > INFINITY_BITS
    }

    /// The place of the number among all numbers: two patterns that are not
    /// NaN encode `a < b` exactly when `a.rank() < b.rank()`. Both zeros have
    /// rank 0.
    pub open spec fn rank(self) -> int {
        if self.negative() {
            -self.magnitude()
        } else {
            self.magnitude()
        }
    }

    /// `self < other` as IEEE 754 has it: false when either is a NaN.
    pub open spec fn spec_lt(self, other: Scalar) -> bool {
        !self.spec_is_nan() && !other.spec_is_nan() && self.rank() < other.rank()
    }

    /// `self <= other` as IEEE 754 has it: false when either is a NaN.
    pub open spec fn spec_le(self, other: Scalar) -> bool {
        !self.spec_is_nan() && !other.spec_is_nan() && self.rank() <= other.rank()
    }

    /// `self > other` as IEEE 754 has it: false when either is a NaN.
    pub open spec fn spec_gt(self, other: Scalar) -> bool {
        other.spec_lt(self)
    }

    /// `self >= other` as IEEE 754 has it: false when either is a NaN.
    pub open spec fn spec_ge(self, other: Scalar) -> bool {
        other.spec_le(self)
    }

    /// The number with its sign flipped.
    pub open spec fn spec_neg(self) -> Scalar {
        if self.negative() {
            Scalar { bits: (self.bits - SIGN_BIT) as u32 }
        } else {
            Scalar { bits: (self.bits + SIGN_BIT) as u32 }
        }
    }

    /// The number with its sign cleared.
    pub open spec fn spec_abs(self) -> Scalar {
        Scalar { bits: self.magnitude() as u32 }
    }

    /// The number raised to `floor` where it lies below it or is a NaN.
    pub open spec fn spec_at_least(self, floor: Scalar) -> Scalar {
        if self.spec_is_nan() || self.spec_lt(floor) {
            floor
        } else {
            self
        }
    }

    /// Positive zero.
    pub open spec fn spec_zero() -> Scalar {
        Scalar { bits: 0 }
    }

    /// The radius a particle is drawn with.
    pub open spec fn spec_radius() -> Scalar {
        Scalar { bits: RADIUS_BITS }
    }

    /// The radius squared: a point lies on a particle when its squared
    /// distance to it is under this.
    pub open spec fn spec_radius_squared() -> Scalar {
        Scalar { bits: RADIUS_SQUARED_BITS }
    }

    /// Twice the radius: the least distance the generator lets two rules
    /// reach down to.
    pub open spec fn spec_diameter() -> Scalar {
        Scalar { bits: DIAMETER_BITS }
    }

    /// The squared distance under which a pair exerts no force.
    pub open spec fn spec_near_limit() -> Scalar {
        Scalar { bits: NEAR_LIMIT_BITS }
    }

    /// The number whose bits are `bits`.
    pub fn from_bits(bits: u32) -> (r: Scalar)
        ensures
            r.bits == bits,
    {
        Scalar { bits }
    }

    /// The bits of the number.
    pub fn to_bits(self) -> (r: u32)
        ensures
            r == self.bits,
    {
        self.bits
    }

    #[verifier::when_used_as_spec(spec_zero)]
    pub fn zero() -> (r: Scalar)
        ensures
            r == Scalar::spec_zero(),
    {
        Scalar { bits: 0 }
    }

    #[verifier::when_used_as_spec(spec_radius)]
    pub fn radius() -> (r: Scalar)
        ensures
            r == Scalar::spec_radius(),
    {
        Scalar { bits: RADIUS_BITS }
    }

    #[verifier::when_used_as_spec(spec_radius_squared)]
    pub fn radius_squared() -> (r: Scalar)
        ensures
            r == Scalar::spec_radius_squared(),
    {
        Scalar { bits: RADIUS_SQUARED_BITS }
    }

    #[verifier::when_used_as_spec(spec_diameter)]
    pub fn diameter() -> (r: Scalar)
        ensures
            r == Scalar::spec_diameter(),
    {
        Scalar { bits: DIAMETER_BITS }
    }

    #[verifier::when_used_as_spec(spec_near_limit)]
    pub fn near_limit() -> (r: Scalar)
        ensures
            r == Scalar::spec_near_limit(),
    {
        Scalar { bits: NEAR_LIMIT_BITS }
    }

    /// The bits without the sign bit, computed.
    fn magnitude_bits(self) -> (r: u32)
        ensures
            r == self.magnitude(),
    {
        let bits: u32 = self.bits;
        let cleared: u32 = bits & 0x7fff_ffff;
        assert(cleared == if bits >= 0x8000_0000u32 {
            (bits - 0x8000_0000u32) as u32
        } else {
            bits
        }) by (bit_vector)
            requires
                cleared == bits & 0x7fff_ffff,
        ;
        cleared
    }

    /// The rank, computed.
    fn rank_value(self) -> (r: i64)
        ensures
            r == self.rank(),
    {
        let magnitude: u32 = self.magnitude_bits();
        if self.bits >= SIGN_BIT {
            -(magnitude as i64)
        } else {
            magnitude as i64
        }
    }

    #[verifier::when_used_as_spec(spec_is_nan)]
    pub fn is_nan(self) -> (r: bool)
        ensures
            r == self.spec_is_nan(),
    {
        self.magnitude_bits() > INFINITY_BITS
    }

    #[verifier::when_used_as_spec(spec_lt)]
    pub fn lt(self, other: Scalar) -> (r: bool)
        ensures
            r == self.spec_lt(other),
    {
        !self.is_nan() && !other.is_nan() && self.rank_value() < other.rank_value()
    }

    #[verifier::when_used_as_spec(spec_le)]
    pub fn le(self, other: Scalar) -> (r: bool)
        ensures
            r == self.spec_le(other),
    {
        !self.is_nan() && !other.is_nan() && self.rank_value() <= other.rank_value()
    }

    #[verifier::when_used_as_spec(spec_gt)]
    pub fn gt(self, other: Scalar) -> (r: bool)
        ensures
            r == self.spec_gt(other),
    {
        other.lt(self)
    }

    #[verifier::when_used_as_spec(spec_ge)]
    pub fn ge(self, other: Scalar) -> (r: bool)
        ensures
            r == self.spec_ge(other),
    {
        other.le(self)
    }

    #[verifier::when_used_as_spec(spec_neg)]
    pub fn neg(self) -> (r: Scalar)
        ensures
            r == self.spec_neg(),
    {
        let bits: u32 = self.bits;
        let flipped: u32 = bits ^ 0x8000_0000;
        assert(flipped == if bits >= 0x8000_0000u32 {
            (bits - 0x8000_0000u32) as u32
        } else {
            (bits + 0x8000_0000u32) as u32
        }) by (bit_vector)
            requires
                flipped == bits ^ 0x8000_0000,
        ;
        Scalar { bits: flipped }
    }

    #[verifier::when_used_as_spec(spec_abs)]
    pub fn abs(self) -> (r: Scalar)
        ensures
            r == self.spec_abs(),
    {
        Scalar { bits: self.magnitude_bits() }
    }

    #[verifier::when_used_as_spec(spec_at_least)]
    pub fn at_least(self, floor: Scalar) -> (r: Scalar)
        ensures
            r == self.spec_at_least(floor),
    {
        if self.is_nan() || self.lt(floor) {
            floor
        } else {
            self
        }
    }
}

/// Negation mirrors the order: it keeps NaNs, and turns every rank into its
/// opposite.
pub proof fn lemma_neg_mirrors(a: Scalar)
    ensures
        a.spec_neg().spec_is_nan() == a.spec_is_nan(),
        a.spec_neg().rank() == -a.rank(),
        a.spec_neg().spec_neg() == a,
{
}

/// The absolute value keeps NaNs, and is never below zero.
pub proof fn lemma_abs_not_negative(a: Scalar)
    ensures
        a.spec_abs().spec_is_nan() == a.spec_is_nan(),
        a.spec_abs().rank() >= 0,
        a.spec_abs().rank() == if a.rank() < 0 {
            -a.rank()
        } else {
            a.rank()
        },
{
}

/// A number raised to a floor that is no NaN is no NaN and not below the
/// floor; it is the number itself where that was not below the floor already.
pub proof fn lemma_at_least_reaches(a: Scalar, floor: Scalar)
    requires
        !floor.spec_is_nan(),
    ensures
        !a.spec_at_least(floor).spec_is_nan(),
        a.spec_at_least(floor).spec_ge(floor),
        a.spec_ge(floor) ==> a.spec_at_least(floor) == a,
{
}

/// A number whose sign bit is set is at most zero, unless it is a NaN.
pub proof fn lemma_negative_is_at_most_zero(a: Scalar)
    requires
        a.negative(),
    ensures
        a.spec_is_nan() || a.spec_le(Scalar::spec_zero()),
{
}

} // verus!
