//! Double-precision numbers, by their bits.
use vstd::prelude::*;

verus! {

/// A number in the IEEE 754 double-precision format.
#[derive(Clone, Copy, Debug, PartialEq, Eq, Structural)]
pub struct F64 {
    pub bits: u64,
}

/// The weight of the sign bit.
pub const SIGN_WEIGHT: u64 = 0x8000_0000_0000_0000;

/// The bits of positive infinity.
pub const INFINITY_BITS: u64 = 0x7ff0_0000_0000_0000;

impl F64 {
    /// The bits without the sign.
    pub open spec fn magnitude(self) -> int {
        self.bits as int % SIGN_WEIGHT as int
    }

    /// Whether this is not a number.
    pub open spec fn is_nan(self) -> bool {
        self.magnitude() > INFINITY_BITS
    }

    /// Equality of numbers: nothing equals a NaN, and the two zeros are equal.
    pub open spec fn equals(self, other: F64) -> bool {
        &&& !self.is_nan()
        &&& !other.is_nan()
        &&& self == other || (self.magnitude() == 0 && other.magnitude() == 0)
    }

    pub fn same_number(self, other: F64) -> (r: bool)
        ensures
            r == self.equals(other),
    {
        let a: u64 = self.bits % SIGN_WEIGHT;
        let b: u64 = other.bits % SIGN_WEIGHT;
        a <= INFINITY_BITS && b <= INFINITY_BITS && (self.bits == other.bits || (a == 0 && b == 0))
    }
}

/// Equality of numbers is symmetric.
pub proof fn law_equals_symmetric(a: F64, b: F64)
    ensures
        a.equals(b) == b.equals(a),
{
}

/// Equality of numbers is transitive.
pub proof fn law_equals_transitive(a: F64, b: F64, c: F64)
    requires
        a.equals(b),
        b.equals(c),
    ensures
        a.equals(c),
{
}

/// A number equals itself, and its like alone; what is not a number does not even
/// equal itself. Zero equals zero whatever its sign.
pub proof fn law_equals_means_the_same_number(a: F64, b: F64)
    ensures
        a.equals(a) <==> !a.is_nan(),
        a.equals(b) && a != b ==> (a.bits == 0 || a.bits == 0x8000_0000_0000_0000) && (b.bits == 0
            || b.bits == 0x8000_0000_0000_0000),
        (F64 { bits: 0 }).equals(F64 { bits: 0x8000_0000_0000_0000 }),
        a.is_nan() <==> 0x7ff0_0000_0000_0000 < a.bits < 0x8000_0000_0000_0000 || a.bits
            > 0xfff0_0000_0000_0000,
{
}

} // verus!
