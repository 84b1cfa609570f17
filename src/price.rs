use vstd::prelude::*;

verus! {

/// Values at or above this bound have the sign bit of an IEEE-754 binary64 set.
pub const SIGN_BIT: u64 = 0x8000_0000_0000_0000;

/// The bit pattern of positive infinity: the largest magnitude that is still a number.
pub const INFINITY_BITS: u64 = 0x7FF0_0000_0000_0000;

/// Whether the sign bit of a binary64 bit pattern is set.
pub open spec fn sign_bit_set(bits: u64) -> bool {
    bits >= SIGN_BIT
}

/// The magnitude part of a binary64 bit pattern: exponent and fraction, without the sign.
pub open spec fn magnitude(bits: u64) -> int {
    bits as int % SIGN_BIT as int
}

/// A binary64 bit pattern is "not a number" when its exponent is all ones and its
/// fraction is not zero, that is when its magnitude lies above that of infinity.
pub open spec fn is_nan_bits(bits: u64) -> bool {
    magnitude(bits) > INFINITY_BITS as int
}

/// The rank of a binary64 number on the integer line.
///
/// In IEEE-754 the magnitudes of numbers (infinities included) are ordered as their
/// bit patterns read as unsigned integers, so the signed magnitude orders numbers as
/// their values do; `+0.0` and `-0.0` both get rank 0, as they compare equal.
pub open spec fn rank_of(bits: u64) -> int {
    if sign_bit_set(bits) {
        -magnitude(bits)
    } else {
        magnitude(bits)
    }
}

/// A product price: a binary64 number, held as its bit pattern, that is never NaN.
///
/// Prices come from JSON, which cannot write a NaN, so every price is orderable.
pub struct Price {
    bits: u64,
}

impl View for Price {
    type V = u64;

    closed spec fn view(&self) -> u64 {
        self.bits
    }
}

impl Price {
    #[verifier::type_invariant]
    spec fn is_number(self) -> bool {
        !is_nan_bits(self.bits)
    }

    /// The price whose binary64 bit pattern is `bits`, or `None` when that is a NaN.
    pub fn from_bits(bits: u64) -> (r: Option<Price>)
        ensures
            r.is_some() <==> !is_nan_bits(bits),
            r matches Some(p) ==> p@ == bits,
    {
        if bits % SIGN_BIT > INFINITY_BITS {
            None
        } else {
            Some(Price { bits })
        }
    }

    /// The binary64 bit pattern of the price.
    pub fn to_bits(&self) -> (r: u64)
        ensures
            r == self@,
            !is_nan_bits(r),
    {
        proof {
            use_type_invariant(self);
        }
        self.bits
    }

    /// The rank of the price: prices compare as their ranks do.
    pub fn rank(&self) -> (r: i64)
        ensures
            r as int == rank_of(self@),
    {
        let mag: u64 = self.bits % SIGN_BIT;
        if self.bits >= SIGN_BIT {
            -(mag as i64)
        } else {
            mag as i64
        }
    }
}

} // verus!
