//! Double-precision numbers as bit patterns, with the comparisons of IEEE 754.

use vstd::prelude::*;

verus! {

/// Bit pattern whose only set bit is the sign bit.
pub const SIGN_BIT: u64 = 0x8000_0000_0000_0000;

/// Bit pattern of positive infinity; a larger magnitude is a NaN.
pub const INFINITY_BITS: u64 = 0x7ff0_0000_0000_0000;

/// An IEEE 754 binary64 number, held as its 64 bits.
///
/// Two values with the same bits are the same value; `-0` and `+0` differ as
/// values but compare equal under [`Scalar::same`], and a NaN compares with nothing.
#[derive(Clone, Copy, Debug)]
pub struct Scalar {
    pub bits: u64,
}

impl Scalar {
    /// The bits without the sign bit.
    pub open spec fn magnitude(self) -> int {
        if self.bits >= SIGN_BIT {
            self.bits - SIGN_BIT
        } else {
            self.bits as int
        }
    }

    /// Whether the sign bit is set.
    pub open spec fn sign(self) -> bool {
        self.bits >= SIGN_BIT
    }

    /// Whether the value is a NaN.
    pub open spec fn nan(self) -> bool {
        self.magnitude() > INFINITY_BITS
    }

    /// Position of a value on the number line: an integer that grows exactly as the
    /// number grows. Both zeros stand at 0.
    pub open spec fn rank(self) -> int {
        if self.sign() {
            -self.magnitude()
        } else {
            self.magnitude()
        }
    }

    /// A finer position that also tells the zeros apart: `-0` stands just below
    /// `+0`. Two numbers with the same key have the same bits.
    pub open spec fn key(self) -> int {
        if self.sign() {
            -self.magnitude() - 1
        } else {
            self.magnitude()
        }
    }

    /// `self < other` as IEEE 754 defines it.
    pub open spec fn less(self, other: Scalar) -> bool {
        !self.nan() && !other.nan() && self.rank() < other.rank()
    }

    /// `self <= other` as IEEE 754 defines it.
    pub open spec fn at_most(self, other: Scalar) -> bool {
        !self.nan() && !other.nan() && self.rank() <= other.rank()
    }

    /// `self == other` as IEEE 754 defines it.
    pub open spec fn same(self, other: Scalar) -> bool {
        !self.nan() && !other.nan() && self.rank() == other.rank()
    }

    /// The value with the sign bit flipped.
    pub open spec fn negated(self) -> Scalar {
        if self.sign() {
            Scalar { bits: (self.bits - SIGN_BIT) as u64 }
        } else {
            Scalar { bits: (self.bits + SIGN_BIT) as u64 }
        }
    }

    /// The value with the sign bit cleared.
    pub open spec fn absolute(self) -> Scalar {
        Scalar { bits: self.magnitude() as u64 }
    }

    /// The smaller of two values; a NaN loses against a number, and `-0` counts as
    /// smaller than `+0`.
    pub open spec fn lower(self, other: Scalar) -> Scalar {
        if other.nan() {
            self
        } else if self.nan() {
            other
        } else if other.key() < self.key() {
            other
        } else {
            self
        }
    }

    /// The larger of two values; a NaN loses against a number, and `+0` counts as
    /// larger than `-0`.
    pub open spec fn upper(self, other: Scalar) -> Scalar {
        if other.nan() {
            self
        } else if self.nan() {
            other
        } else if other.key() > self.key() {
            other
        } else {
            self
        }
    }

    /// `self` held between `lo` and `hi`; a NaN stays a NaN.
    pub open spec fn clamped(self, lo: Scalar, hi: Scalar) -> Scalar {
        if self.less(lo) {
            lo
        } else if hi.less(self) {
            hi
        } else {
            self
        }
    }

    /// The value with the given bits.
    pub fn from_bits(bits: u64) -> (s: Scalar)
        ensures
            s.bits == bits,
    {
        Scalar { bits }
    }

    /// The bits of the value.
    pub fn to_bits(self) -> (bits: u64)
        ensures
            bits == self.bits,
    {
        self.bits
    }

    /// Positive zero.
    pub fn zero() -> (s: Scalar)
        ensures
            s.bits == 0,
    {
        Scalar { bits: 0 }
    }

    /// The number 1.
    pub fn one() -> (s: Scalar)
        ensures
            s.bits == 0x3ff0_0000_0000_0000,
    {
        Scalar { bits: 0x3ff0_0000_0000_0000 }
    }

    /// Positive infinity.
    pub fn infinity() -> (s: Scalar)
        ensures
            s.bits == INFINITY_BITS,
    {
        Scalar { bits: INFINITY_BITS }
    }

    /// The largest finite number.
    pub fn max_finite() -> (s: Scalar)
        ensures
            s.bits == INFINITY_BITS - 1,
    {
        Scalar { bits: INFINITY_BITS - 1 }
    }

    fn magnitude_bits(self) -> (m: u64)
        ensures
            m == self.magnitude(),
            m < SIGN_BIT,
    {
        if self.bits >= SIGN_BIT {
            self.bits - SIGN_BIT
        } else {
            self.bits
        }
    }

    fn rank_value(self) -> (r: i64)
        ensures
            r == self.rank(),
    {
        let m: u64 = self.magnitude_bits();
        if self.bits >= SIGN_BIT {
            -(m as i64)
        } else {
            m as i64
        }
    }

    fn key_value(self) -> (r: i64)
        ensures
            r == self.key(),
    {
        let m: u64 = self.magnitude_bits();
        if self.bits >= SIGN_BIT {
            -(m as i64) - 1
        } else {
            m as i64
        }
    }

    /// Whether the value is a NaN.
    pub fn is_nan(self) -> (r: bool)
        ensures
            r == self.nan(),
    {
        self.magnitude_bits() > INFINITY_BITS
    }

    /// Whether the sign bit is set.
    pub fn is_sign_negative(self) -> (r: bool)
        ensures
            r == self.sign(),
    {
        self.bits >= SIGN_BIT
    }

    /// `self < other`.
    pub fn lt(self, other: Scalar) -> (r: bool)
        ensures
            r == self.less(other),
    {
        !self.is_nan() && !other.is_nan() && self.rank_value() < other.rank_value()
    }

    /// `self <= other`.
    pub fn le(self, other: Scalar) -> (r: bool)
        ensures
            r == self.at_most(other),
    {
        !self.is_nan() && !other.is_nan() && self.rank_value() <= other.rank_value()
    }

    /// `self > other`.
    pub fn gt(self, other: Scalar) -> (r: bool)
        ensures
            r == other.less(self),
    {
        other.lt(self)
    }

    /// `self >= other`.
    pub fn ge(self, other: Scalar) -> (r: bool)
        ensures
            r == other.at_most(self),
    {
        other.le(self)
    }

    /// Whether `self` comes before `other` in the total order of IEEE 754, which
    /// puts every bit pattern in a row: negative NaNs first, then the numbers from
    /// negative infinity up, `-0` before `+0`, and positive NaNs last.
    pub fn total_lt(self, other: Scalar) -> (r: bool)
        ensures
            r == (self.key() < other.key()),
    {
        self.key_value() < other.key_value()
    }

    /// `self == other` as numbers: the two zeros are equal, a NaN equals nothing.
    pub fn eq_num(self, other: Scalar) -> (r: bool)
        ensures
            r == self.same(other),
    {
        !self.is_nan() && !other.is_nan() && self.rank_value() == other.rank_value()
    }

    /// The value with its sign flipped.
    pub fn neg(self) -> (r: Scalar)
        ensures
            r == self.negated(),
    {
        if self.bits >= SIGN_BIT {
            Scalar { bits: self.bits - SIGN_BIT }
        } else {
            Scalar { bits: self.bits + SIGN_BIT }
        }
    }

    /// The value with its sign cleared.
    pub fn abs(self) -> (r: Scalar)
        ensures
            r == self.absolute(),
    {
        Scalar { bits: self.magnitude_bits() }
    }

    /// The smaller of the two; where one is a NaN, the other.
    pub fn min(self, other: Scalar) -> (r: Scalar)
        ensures
            r == self.lower(other),
    {
        if other.is_nan() {
            self
        } else if self.is_nan() {
            other
        } else if other.key_value() < self.key_value() {
            other
        } else {
            self
        }
    }

    /// The larger of the two; where one is a NaN, the other.
    pub fn max(self, other: Scalar) -> (r: Scalar)
        ensures
            r == self.upper(other),
    {
        if other.is_nan() {
            self
        } else if self.is_nan() {
            other
        } else if other.key_value() > self.key_value() {
            other
        } else {
            self
        }
    }

    /// `self` held between `lo` and `hi`.
    pub fn clamp(self, lo: Scalar, hi: Scalar) -> (r: Scalar)
        requires
            lo.at_most(hi),
        ensures
            r == self.clamped(lo, hi),
    {
        if self.lt(lo) {
            lo
        } else if hi.lt(self) {
            hi
        } else {
            self
        }
    }
}

/// Negating twice gives the value back, bit for bit.
pub proof fn lemma_neg_involution(a: Scalar)
    ensures
        a.negated().negated() == a,
        a.negated().rank() == -a.rank(),
        a.negated().nan() == a.nan(),
{
}

/// On numbers, `less` is a strict total order up to `same`.
pub proof fn lemma_order_total(a: Scalar, b: Scalar)
    requires
        !a.nan(),
        !b.nan(),
    ensures
        a.less(b) || a.same(b) || b.less(a),
        !(a.less(b) && b.less(a)),
        a.at_most(b) <==> a.less(b) || a.same(b),
{
}

/// `less` and `at_most` are transitive.
pub proof fn lemma_order_transitive(a: Scalar, b: Scalar, c: Scalar)
    ensures
        a.less(b) && b.less(c) ==> a.less(c),
        a.at_most(b) && b.at_most(c) ==> a.at_most(c),
        a.less(b) && b.at_most(c) ==> a.less(c),
        a.at_most(b) && b.less(c) ==> a.less(c),
{
}

/// The key orders as the rank does and settles ties between the zeros; equal keys
/// mean equal bits.
pub proof fn lemma_key_refines_rank(a: Scalar, b: Scalar)
    ensures
        a.rank() < b.rank() ==> a.key() < b.key(),
        a.key() <= b.key() ==> a.rank() <= b.rank(),
        a.key() == b.key() ==> a == b,
{
}

/// `lower` and `upper` pick one of their arguments, bound both when both are
/// numbers, and never yield a NaN unless both arguments are NaNs.
pub proof fn lemma_lower_upper(a: Scalar, b: Scalar)
    ensures
        a.lower(b) == a || a.lower(b) == b,
        a.upper(b) == a || a.upper(b) == b,
        a.lower(b).nan() <==> a.nan() && b.nan(),
        a.upper(b).nan() <==> a.nan() && b.nan(),
        !a.nan() && !b.nan() ==> a.lower(b).at_most(a) && a.lower(b).at_most(b),
        !a.nan() && !b.nan() ==> a.at_most(a.upper(b)) && b.at_most(a.upper(b)),
{
}

/// On numbers, `lower` and `upper` are commutative, associative and idempotent,
/// bit for bit.
pub proof fn lemma_lower_upper_lattice(a: Scalar, b: Scalar, c: Scalar)
    requires
        !a.nan(),
        !b.nan(),
        !c.nan(),
    ensures
        a.lower(b) == b.lower(a),
        a.upper(b) == b.upper(a),
        a.lower(b).lower(c) == a.lower(b.lower(c)),
        a.upper(b).upper(c) == a.upper(b.upper(c)),
        a.lower(a) == a,
        a.upper(a) == a,
{
}

/// A clamped number lies between the bounds.
pub proof fn lemma_clamped_between(x: Scalar, lo: Scalar, hi: Scalar)
    requires
        lo.at_most(hi),
        !x.nan(),
    ensures
        lo.at_most(x.clamped(lo, hi)),
        x.clamped(lo, hi).at_most(hi),
        lo.at_most(x) && x.at_most(hi) ==> x.clamped(lo, hi) == x,
{
}

} // verus!
