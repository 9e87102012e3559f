//! Per-point flags of a simple glyph.
use vstd::prelude::*;

verus! {

/// The marker bit of a point that has an explicit delta in the tuple at hand.
pub const HAS_DELTA: u8 = 0x4;

/// Flags describing a point: curve bits that belong to the point itself, and marker bits that
/// come and go while an outline is transformed.
#[derive(Clone, Copy, Debug, PartialEq, Eq, Structural)]
pub struct PointFlags {
    pub bits: u8,
}

impl PointFlags {
    /// Whether the delta marker is set.
    pub open spec fn marked(self) -> bool {
        self.bits & HAS_DELTA != 0
    }

    /// These flags with the delta marker set and every other bit kept.
    pub open spec fn with_delta_spec(self) -> Self {
        PointFlags { bits: self.bits | HAS_DELTA }
    }

    /// These flags with the delta marker cleared and every other bit kept.
    pub open spec fn without_delta_spec(self) -> Self {
        PointFlags { bits: self.bits & !HAS_DELTA }
    }

    /// Returns true if the delta marker is set.
    pub fn has_delta(self) -> (r: bool)
        ensures
            r == self.marked(),
    {
        self.bits & HAS_DELTA != 0
    }

    /// Sets the delta marker.
    pub fn with_delta(self) -> (r: Self)
        ensures
            r == self.with_delta_spec(),
            r.marked(),
    {
        proof {
            lemma_marker_bits(self);
        }
        PointFlags { bits: self.bits | HAS_DELTA }
    }

    /// Clears the delta marker.
    pub fn without_delta(self) -> (r: Self)
        ensures
            r == self.without_delta_spec(),
            !r.marked(),
    {
        proof {
            lemma_marker_bits(self);
        }
        PointFlags { bits: self.bits & !HAS_DELTA }
    }
}

/// Setting the delta marker makes a point marked, clearing it makes the point unmarked, and
/// neither touches the other bits.
pub proof fn lemma_marker_bits(flags: PointFlags)
    ensures
        flags.with_delta_spec().marked(),
        !flags.without_delta_spec().marked(),
        flags.with_delta_spec().bits & !HAS_DELTA == flags.bits & !HAS_DELTA,
        flags.without_delta_spec().bits & !HAS_DELTA == flags.bits & !HAS_DELTA,
{
    let b = flags.bits;
    assert((b | 0x4u8) & 0x4u8 != 0 && (b & !0x4u8) & 0x4u8 == 0 && (b | 0x4u8) & !0x4u8 == b
        & !0x4u8 && (b & !0x4u8) & !0x4u8 == b & !0x4u8) by (bit_vector);
}

} // verus!
