//! The value type of the language.

use vstd::prelude::*;

verus! {

/// The sign bit of a double.
pub const SIGN_BIT: u64 = 0x8000_0000_0000_0000;

/// A number of the language: a double, kept as the 64 bits of its encoding.
#[derive(Clone, Copy, Debug, PartialEq, Eq, Structural)]
pub struct Value {
    pub bits: u64,
}

impl Value {
    /// The number with the opposite sign: negating a double flips its sign bit
    /// and changes nothing else, whatever the number is.
    pub open spec fn negated(self) -> Value {
        Value { bits: self.bits ^ SIGN_BIT }
    }

    /// The value whose encoding is `bits`.
    pub fn from_bits(bits: u64) -> (value: Value)
        ensures
            value.bits == bits,
    {
        Value { bits }
    }

    /// The encoding of the value.
    pub fn to_bits(self) -> (bits: u64)
        ensures
            bits == self.bits,
    {
        self.bits
    }

    /// Arithmetic negation.
    pub fn negate(self) -> (value: Value)
        ensures
            value == self.negated(),
    {
        Value { bits: self.bits ^ SIGN_BIT }
    }
}

} // verus!
