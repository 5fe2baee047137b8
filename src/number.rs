use vstd::prelude::*;

verus! {

/// The mask of the sign bit of an IEEE 754 binary64 value.
pub const SIGN_MASK: u64 = 0x8000_0000_0000_0000;

/// A real number (a rotation angle, an amplitude, a duration) held as the bit
/// pattern of an IEEE 754 binary64 value.
///
/// The builder never computes with such values; the one operation it needs is
/// negation, which for this encoding is exactly a flip of the sign bit.
#[derive(Debug, Clone, Copy, PartialEq, Eq, Structural)]
pub struct Real {
    pub bits: u64,
}

impl Real {
    /// The value whose sign is the opposite of `self`'s.
    pub open spec fn spec_neg(self) -> Real {
        Real { bits: self.bits ^ SIGN_MASK }
    }

    pub fn from_bits(bits: u64) -> (r: Real)
        ensures
            r.bits == bits,
    {
        Real { bits }
    }

    pub fn to_bits(self) -> (r: u64)
        ensures
            r == self.bits,
    {
        self.bits
    }

    pub fn neg(self) -> (r: Real)
        ensures
            r == self.spec_neg(),
    {
        Real { bits: self.bits ^ SIGN_MASK }
    }

    /// Negating twice gives the value back.
    pub proof fn lemma_neg_neg(self)
        ensures
            self.spec_neg().spec_neg() == self,
    {
        let b = self.bits;
        assert(b ^ 0x8000_0000_0000_0000u64 ^ 0x8000_0000_0000_0000u64 == b) by (bit_vector);
    }

    /// Negation changes the value.
    pub proof fn lemma_neg_differs(self)
        ensures
            self.spec_neg() != self,
    {
        let b = self.bits;
        assert(b ^ 0x8000_0000_0000_0000u64 != b) by (bit_vector);
    }
}

} // verus!
