//! Real numbers as bit patterns.
use vstd::prelude::*;

verus! {

/// Bit pattern of `0.0`.
pub const ZERO_BITS: u32 = 0;

/// Bit pattern of `1.0`, the value of the bias input.
pub const ONE_BITS: u32 = 0x3F80_0000;

/// Bit pattern of `0.01`, the weight of a freshly seeded connection.
pub const SEED_BITS: u32 = 0x3C23_D70A;

/// Every bit of a pattern but its sign.
pub const MAGNITUDE_MASK: u32 = 0x7FFF_FFFF;

/// A single-precision number (IEEE 754 binary32), held by its bit pattern.
///
/// Two scalars are equal when their patterns are: positive and negative
/// zero differ as scalars although they are the same number.
#[derive(Clone, Copy, Debug, PartialEq, Eq, Structural)]
pub struct Scalar {
    pub bits: u32,
}

impl Scalar {
    /// Whether the number is zero, of either sign: all bits but the sign
    /// are clear.
    pub open spec fn spec_is_zero(self) -> bool {
        self.bits & MAGNITUDE_MASK == 0
    }

    pub open spec fn spec_zero() -> Scalar {
        Scalar { bits: ZERO_BITS }
    }

    pub open spec fn spec_one() -> Scalar {
        Scalar { bits: ONE_BITS }
    }

    pub open spec fn spec_seed() -> Scalar {
        Scalar { bits: SEED_BITS }
    }

    pub fn from_bits(bits: u32) -> (s: Scalar)
        ensures
            s.bits == bits,
    {
        Scalar { bits }
    }

    pub fn to_bits(self) -> (bits: u32)
        ensures
            bits == self.bits,
    {
        self.bits
    }

    /// Positive zero: the weight of a connection that is not there.
    #[verifier::when_used_as_spec(spec_zero)]
    pub fn zero() -> (s: Scalar)
        ensures
            s == Scalar::spec_zero(),
            s.spec_is_zero(),
    {
        proof {
            lemma_zero_patterns(ZERO_BITS);
        }
        Scalar { bits: ZERO_BITS }
    }

    /// One: what the bias input always carries.
    #[verifier::when_used_as_spec(spec_one)]
    pub fn one() -> (s: Scalar)
        ensures
            s == Scalar::spec_one(),
            !s.spec_is_zero(),
    {
        proof {
            lemma_zero_patterns(ONE_BITS);
        }
        Scalar { bits: ONE_BITS }
    }

    /// The small positive weight that a seeded connection starts with.
    #[verifier::when_used_as_spec(spec_seed)]
    pub fn seed() -> (s: Scalar)
        ensures
            s == Scalar::spec_seed(),
            !s.spec_is_zero(),
    {
        proof {
            lemma_zero_patterns(SEED_BITS);
        }
        Scalar { bits: SEED_BITS }
    }

    #[verifier::when_used_as_spec(spec_is_zero)]
    pub fn is_zero(self) -> (zero: bool)
        ensures
            zero == self.spec_is_zero(),
    {
        self.bits & MAGNITUDE_MASK == 0
    }
}

/// Exactly two patterns are zero: the one with no bit set and the one with
/// only the sign set.
pub proof fn lemma_zero_patterns(bits: u32)
    ensures
        (Scalar { bits }).spec_is_zero() <==> (bits == 0 || bits == 0x8000_0000),
{
    assert((bits & 0x7FFF_FFFF == 0) <==> (bits == 0 || bits == 0x8000_0000)) by (bit_vector);
}

} // verus!
