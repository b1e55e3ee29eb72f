//! Single-precision numbers carried by their bit pattern, and how they compare.

use vstd::prelude::*;

verus! {

/// Bit pattern of the number one.
pub const ONE_BITS: u32 = 0x3f80_0000;

/// Bit pattern of minus infinity.
pub const NEG_INFINITY_BITS: u32 = 0xff80_0000;

/// A single-precision number of IEEE 754, held as its 32 bits: the sign in the
/// top bit, the magnitude in the others. Magnitudes order as integers do;
/// `0x7f80_0000` is infinity and everything above it is not a number.
#[derive(Debug, Clone, Copy, PartialEq, Eq, Structural)]
pub struct F32Bits {
    pub bits: u32,
}

impl F32Bits {
    pub open spec fn is_negative(self) -> bool {
        self.bits >= 0x8000_0000
    }

    pub open spec fn magnitude(self) -> int {
        if self.is_negative() {
            self.bits - 0x8000_0000
        } else {
            self.bits as int
        }
    }

    pub open spec fn is_nan(self) -> bool {
        self.magnitude() > 0x7f80_0000
    }

    /// Neither infinite nor not-a-number.
    pub open spec fn finite(self) -> bool {
        self.magnitude() < 0x7f80_0000
    }

    /// Position among the numbers, with both zeros at the same place.
    pub open spec fn value_rank(self) -> int {
        if self.is_negative() {
            -self.magnitude()
        } else {
            self.magnitude()
        }
    }

    /// Position in the total order over all bit patterns, which puts the
    /// negative zero right below the positive one.
    pub open spec fn total_rank(self) -> int {
        if self.is_negative() {
            -1 - self.magnitude()
        } else {
            self.magnitude()
        }
    }

    /// Numeric `<`, which no not-a-number satisfies.
    pub open spec fn less(self, other: F32Bits) -> bool {
        &&& !self.is_nan()
        &&& !other.is_nan()
        &&& self.value_rank() < other.value_rank()
    }

    /// Numeric `<=`, which no not-a-number satisfies.
    pub open spec fn at_most(self, other: F32Bits) -> bool {
        &&& !self.is_nan()
        &&& !other.is_nan()
        &&& self.value_rank() <= other.value_rank()
    }

    /// Either of the two zeros.
    pub open spec fn zero(self) -> bool {
        self.magnitude() == 0
    }

    /// Numeric `> 0`.
    pub open spec fn positive(self) -> bool {
        !self.is_nan() && self.value_rank() > 0
    }

    /// Numeric `<= 0`.
    pub open spec fn at_most_zero(self) -> bool {
        !self.is_nan() && self.value_rank() <= 0
    }

    /// Computes [`F32Bits::total_rank`].
    pub fn total_order(&self) -> (rank: i64)
        ensures
            rank == self.total_rank(),
    {
        if self.bits >= 0x8000_0000 {
            -1 - ((self.bits - 0x8000_0000) as i64)
        } else {
            self.bits as i64
        }
    }

    fn value_order(&self) -> (rank: i64)
        ensures
            rank == self.value_rank(),
    {
        if self.bits >= 0x8000_0000 {
            -((self.bits - 0x8000_0000) as i64)
        } else {
            self.bits as i64
        }
    }

    fn not_a_number(&self) -> (nan: bool)
        ensures
            nan == self.is_nan(),
    {
        let magnitude: u32 = if self.bits >= 0x8000_0000 {
            self.bits - 0x8000_0000
        } else {
            self.bits
        };
        magnitude > 0x7f80_0000
    }

    /// Tells whether the number is neither infinite nor not-a-number.
    pub fn is_finite(&self) -> (finite: bool)
        ensures
            finite == self.finite(),
    {
        let magnitude: u32 = if self.bits >= 0x8000_0000 {
            self.bits - 0x8000_0000
        } else {
            self.bits
        };
        magnitude < 0x7f80_0000
    }

    /// Numeric `self < other`.
    pub fn is_less(&self, other: &F32Bits) -> (smaller: bool)
        ensures
            smaller == self.less(*other),
    {
        !self.not_a_number() && !other.not_a_number() && self.value_order() < other.value_order()
    }

    /// Numeric `self <= other`.
    pub fn is_at_most(&self, other: &F32Bits) -> (within: bool)
        ensures
            within == self.at_most(*other),
    {
        !self.not_a_number() && !other.not_a_number() && self.value_order() <= other.value_order()
    }

    /// Tells whether the number is one of the two zeros.
    pub fn is_zero(&self) -> (null: bool)
        ensures
            null == self.zero(),
    {
        self.bits == 0 || self.bits == 0x8000_0000
    }

    /// Numeric `self > 0`.
    pub fn is_positive(&self) -> (above: bool)
        ensures
            above == self.positive(),
    {
        !self.not_a_number() && self.value_order() > 0
    }

    /// Numeric `self <= 0`.
    pub fn is_at_most_zero(&self) -> (below: bool)
        ensures
            below == self.at_most_zero(),
    {
        !self.not_a_number() && self.value_order() <= 0
    }
}

/// Two patterns at the same place of the total order are the same pattern.
pub proof fn total_rank_is_injective(a: F32Bits, b: F32Bits)
    requires
        a.total_rank() == b.total_rank(),
    ensures
        a == b,
{
}

/// What stands no lower in the total order is not numerically smaller.
pub proof fn total_order_refines_less(a: F32Bits, b: F32Bits)
    requires
        a.total_rank() >= b.total_rank(),
    ensures
        !a.less(b),
{
}

/// Numbers compare by sign and magnitude: among numbers with a clear sign bit
/// the smaller pattern is the smaller number, among those with a set one the
/// larger pattern is; a negative number is below every other, but the two zeros
/// are equal; and what is not a number compares with nothing.
pub proof fn numbers_compare_by_sign_and_magnitude(a: F32Bits, b: F32Bits)
    ensures
        a.is_nan() <==> 0x7f80_0000 < a.bits < 0x8000_0000 || a.bits > 0xff80_0000,
        a.is_nan() || b.is_nan() ==> !a.less(b) && !a.at_most(b),
        !a.is_nan() && !b.is_nan() ==> {
            &&& a.at_most(b) <==> !b.less(a)
            &&& a.bits < 0x8000_0000 && b.bits < 0x8000_0000 ==> (a.less(b) <==> a.bits < b.bits)
            &&& a.bits >= 0x8000_0000 && b.bits >= 0x8000_0000 ==> (a.less(b) <==> a.bits > b.bits)
            &&& a.bits >= 0x8000_0000 && b.bits < 0x8000_0000 ==> (a.less(b) <==> a.bits
                != 0x8000_0000 || b.bits != 0)
            &&& a.bits < 0x8000_0000 && b.bits >= 0x8000_0000 ==> !a.less(b)
        },
{
}

/// The total order tells all patterns apart, the two zeros and what is not a
/// number among them: those with a set sign bit come first, the largest of them
/// foremost, and then those with a clear one, the smallest foremost.
pub proof fn patterns_stand_in_a_total_order(a: F32Bits, b: F32Bits)
    ensures
        a.bits < 0x8000_0000 && b.bits < 0x8000_0000 ==> (a.total_rank() < b.total_rank() <==> a.bits
            < b.bits),
        a.bits >= 0x8000_0000 && b.bits >= 0x8000_0000 ==> (a.total_rank() < b.total_rank()
            <==> a.bits > b.bits),
        a.bits >= 0x8000_0000 && b.bits < 0x8000_0000 ==> a.total_rank() < b.total_rank(),
{
}

/// What is told of a number by itself: whether it is finite, zero, above zero
/// or not.
pub proof fn numbers_are_told_apart(a: F32Bits)
    ensures
        a.finite() <==> a.bits < 0x7f80_0000 || 0x8000_0000 <= a.bits < 0xff80_0000,
        a.zero() <==> a.bits == 0 || a.bits == 0x8000_0000,
        a.positive() <==> 0 < a.bits <= 0x7f80_0000,
        a.at_most_zero() <==> a.bits == 0 || 0x8000_0000 <= a.bits <= 0xff80_0000,
{
}

} // verus!
