//! The effect flags of a timing point.
use vstd::prelude::*;

verus! {

/// Timing points have two extra effects that can be toggled using bits 0 and 3
/// (from least to most significant) in the effects integer.
#[derive(Clone, Copy, Debug, PartialEq, Eq, Structural)]
pub struct Effects {
    /// The effect bits; only those of [`Effects::kiai`] and [`Effects::omit_barline`] may be set.
    pub bits: u8,
}

impl Effects {
    /// Whether or not kiai time is enabled.
    pub fn kiai() -> (r: Effects)
        ensures
            r.bits == 1,
    {
        Effects { bits: 1 }
    }

    /// Whether or not the first barline is omitted in osu!taiko and osu!mania.
    pub fn omit_barline() -> (r: Effects)
        ensures
            r.bits == 4,
    {
        Effects { bits: 4 }
    }

    /// Only known effect bits are set.
    pub open spec fn wf(self) -> bool {
        self.bits & 0xFA == 0
    }

    /// The flags of `bits`, without the bits that stand for no effect.
    pub fn from_bits_truncate(bits: u8) -> (r: Effects)
        ensures
            r.bits == bits & 5,
            r.wf(),
    {
        proof {
            assert((bits & 5) & 0xFA == 0) by (bit_vector);
        }
        Effects { bits: bits & 5 }
    }

    /// The effect bits.
    pub fn bits(&self) -> (r: u8)
        ensures
            r == self.bits,
    {
        self.bits
    }

    /// Whether every flag of `other` is set here.
    pub fn contains(&self, other: Effects) -> (b: bool)
        ensures
            b == (self.bits & other.bits == other.bits),
    {
        self.bits & other.bits == other.bits
    }
}

impl Default for Effects {
    fn default() -> (r: Effects)
        ensures
            r.bits == 0,
    {
        Effects { bits: 0 }
    }
}

} // verus!
