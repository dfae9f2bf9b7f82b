use vstd::prelude::*;

verus! {

/// A platform "number" value, carried opaquely as the 64 bits of its wire
/// encoding. The engine never does arithmetic on numbers; it only stores
/// them, hands them back, and compares bound pairs. Comparison uses the
/// standard total order on the encoding: negative encodings (sign bit set)
/// are flipped entirely, non-negative ones have the sign bit flipped, which
/// orders all ordinary values the way their magnitudes order them.
#[derive(Clone, Copy, Debug, PartialEq, Eq, Structural)]
pub struct Number {
    pub bits: u64,
}

/// The key that orders number encodings: a monotone injection from
/// encodings into the unsigned 64-bit integers.
pub open spec fn spec_number_key(n: Number) -> u64 {
    if n.bits >= 0x8000_0000_0000_0000 {
        !n.bits
    } else {
        n.bits ^ 0x8000_0000_0000_0000
    }
}

/// The total order on numbers used for bound checking.
pub open spec fn spec_number_le(a: Number, b: Number) -> bool {
    spec_number_key(a) <= spec_number_key(b)
}

impl Number {
    /// Wraps a 64-bit encoding.
    pub fn new(bits: u64) -> (r: Number)
        ensures
            r.bits == bits,
    {
        Number { bits }
    }

    /// The ordering key of this number's encoding.
    pub fn key(&self) -> (r: u64)
        ensures
            r == spec_number_key(*self),
    {
        if self.bits >= 0x8000_0000_0000_0000 {
            !self.bits
        } else {
            self.bits ^ 0x8000_0000_0000_0000
        }
    }

    /// Whether this number is at most `other` in the total order on
    /// encodings.
    pub fn le(&self, other: &Number) -> (r: bool)
        ensures
            r == spec_number_le(*self, *other),
    {
        self.key() <= other.key()
    }
}

} // verus!
