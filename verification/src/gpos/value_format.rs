//! The fields of a value record.
use vstd::prelude::*;

verus! {

/// The number of fields that a value record can have.
pub const FIELD_COUNT: usize = 8;

/// The number of bytes that a field of a value record takes.
pub const FIELD_LEN: usize = 2;

/// The fields that a value record has, as a set of flags.
///
/// The fields of a record are laid out in the order of their flags. The first four hold values,
/// the others offsets to the tables that adjust these.
#[derive(Clone, Copy, Debug, PartialEq, Eq, Structural)]
pub struct ValueFormat {
    pub bits: u8,
}

/// The flag of field `k`.
pub open spec fn field_flag(k: int) -> u8 {
    if k == 0 {
        ValueFormat::X_PLACEMENT
    } else if k == 1 {
        ValueFormat::Y_PLACEMENT
    } else if k == 2 {
        ValueFormat::X_ADVANCE
    } else if k == 3 {
        ValueFormat::Y_ADVANCE
    } else if k == 4 {
        ValueFormat::X_PLACEMENT_DEVICE
    } else if k == 5 {
        ValueFormat::Y_PLACEMENT_DEVICE
    } else if k == 6 {
        ValueFormat::X_ADVANCE_DEVICE
    } else {
        ValueFormat::Y_ADVANCE_DEVICE
    }
}

impl ValueFormat {
    /// Horizontal adjustment of the placement.
    pub const X_PLACEMENT: u8 = 0x01;

    /// Vertical adjustment of the placement.
    pub const Y_PLACEMENT: u8 = 0x02;

    /// Horizontal adjustment of the advance.
    pub const X_ADVANCE: u8 = 0x04;

    /// Vertical adjustment of the advance.
    pub const Y_ADVANCE: u8 = 0x08;

    /// Offset to the device or variation index table for the horizontal placement.
    pub const X_PLACEMENT_DEVICE: u8 = 0x10;

    /// Offset to the device or variation index table for the vertical placement.
    pub const Y_PLACEMENT_DEVICE: u8 = 0x20;

    /// Offset to the device or variation index table for the horizontal advance.
    pub const X_ADVANCE_DEVICE: u8 = 0x40;

    /// Offset to the device or variation index table for the vertical advance.
    pub const Y_ADVANCE_DEVICE: u8 = 0x80;

    /// All offsets to device or variation index tables.
    pub const ANY_DEVICE_OR_VARIDX: u8 = 0xF0;

    /// Whether field `k` is present.
    pub open spec fn has(self, k: int) -> bool {
        self.bits & field_flag(k) != 0
    }

    /// How many of the first `k` fields are present.
    pub open spec fn fields_before(self, k: int) -> int
        decreases k,
    {
        if k <= 0 {
            0
        } else if self.has(k - 1) {
            self.fields_before(k - 1) + 1
        } else {
            self.fields_before(k - 1)
        }
    }

    /// The format with the fields of `flags` added.
    pub open spec fn with_spec(self, flags: u8) -> Self {
        ValueFormat { bits: self.bits | flags }
    }

    /// The format with the fields of `flags` removed.
    pub open spec fn without_spec(self, flags: u8) -> Self {
        ValueFormat { bits: self.bits & !flags }
    }

    /// The format without fields.
    pub fn empty() -> (r: Self)
        ensures
            forall|k: int| 0 <= k < FIELD_COUNT ==> !r.has(k),
    {
        proof {
            lemma_empty_format(ValueFormat { bits: 0 });
        }
        ValueFormat { bits: 0 }
    }

    /// Returns true if no field is present.
    pub fn is_empty(self) -> (r: bool)
        ensures
            r == forall|k: int| 0 <= k < FIELD_COUNT ==> !self.has(k),
    {
        proof {
            lemma_empty_format(self);
        }
        self.bits == 0
    }

    /// Returns true if all fields of `flags` are present.
    pub fn contains(self, flags: u8) -> (r: bool)
        ensures
            r == (self.bits & flags == flags),
            forall|k: int| 0 <= k < FIELD_COUNT && flags == field_flag(k) ==> r == self.has(k),
    {
        proof {
            assert forall|k: int| 0 <= k < FIELD_COUNT && flags == field_flag(k) implies (self.bits
                & flags == flags) == self.has(k) by {
                lemma_flag(self.bits, flags, k);
            }
        }
        self.bits & flags == flags
    }

    /// Returns true if any field of `flags` is present.
    pub fn intersects(self, flags: u8) -> (r: bool)
        ensures
            r == (self.bits & flags != 0),
            flags == Self::ANY_DEVICE_OR_VARIDX ==> r == exists|k: int|
                4 <= k < FIELD_COUNT && self.has(k),
    {
        proof {
            if flags == Self::ANY_DEVICE_OR_VARIDX {
                lemma_any_device(self);
            }
        }
        self.bits & flags != 0
    }

    /// Adds the fields of `flags`.
    pub fn with(self, flags: u8) -> (r: Self)
        ensures
            r == self.with_spec(flags),
    {
        ValueFormat { bits: self.bits | flags }
    }

    /// Removes the fields of `flags`.
    pub fn without(self, flags: u8) -> (r: Self)
        ensures
            r == self.without_spec(flags),
    {
        ValueFormat { bits: self.bits & !flags }
    }
}

/// Having a field is having its flag.
pub proof fn lemma_contains(format: ValueFormat, k: int)
    requires
        0 <= k < FIELD_COUNT,
    ensures
        (format.bits & field_flag(k) == field_flag(k)) == format.has(k),
{
    lemma_flag(format.bits, field_flag(k), k);
}

/// A flag is a single bit.
proof fn lemma_flag(bits: u8, flag: u8, k: int)
    requires
        0 <= k < FIELD_COUNT,
        flag == field_flag(k),
    ensures
        (bits & flag == flag) == (bits & flag != 0),
{
    assert((bits & flag == flag) == (bits & flag != 0)) by (bit_vector)
        requires
            flag == 0x01 || flag == 0x02 || flag == 0x04 || flag == 0x08 || flag == 0x10 || flag
                == 0x20 || flag == 0x40 || flag == 0x80,
    ;
}

/// Adding a field leaves the others alone.
pub proof fn lemma_with(format: ValueFormat, k: int, j: int)
    requires
        0 <= k < FIELD_COUNT,
        0 <= j < FIELD_COUNT,
    ensures
        format.with_spec(field_flag(k)).has(j) <==> format.has(j) || j == k,
{
    lemma_set_flag(format.bits, k, j);
}

/// Removing a field leaves the others alone.
pub proof fn lemma_without(format: ValueFormat, k: int, j: int)
    requires
        0 <= k < FIELD_COUNT,
        0 <= j < FIELD_COUNT,
    ensures
        format.without_spec(field_flag(k)).has(j) <==> format.has(j) && j != k,
{
    lemma_set_flag(format.bits, k, j);
}

/// Setting or clearing a flag leaves the others alone.
proof fn lemma_set_flag(bits: u8, k: int, j: int)
    requires
        0 <= k < FIELD_COUNT,
        0 <= j < FIELD_COUNT,
    ensures
        ((bits | field_flag(k)) & field_flag(j) != 0) == (bits & field_flag(j) != 0 || j == k),
        ((bits & !field_flag(k)) & field_flag(j) != 0) == (bits & field_flag(j) != 0 && j != k),
{
    let f = field_flag(k);
    let g = field_flag(j);
    assert(((bits | f) & g != 0) == (bits & g != 0 || f == g) && ((bits & !f) & g != 0) == (bits & g
        != 0 && f != g)) by (bit_vector)
        requires
            f == 0x01 || f == 0x02 || f == 0x04 || f == 0x08 || f == 0x10 || f == 0x20 || f == 0x40
                || f == 0x80,
            g == 0x01 || g == 0x02 || g == 0x04 || g == 0x08 || g == 0x10 || g == 0x20 || g == 0x40
                || g == 0x80,
    ;
}

/// A format without flags is the one whose bits are zero.
proof fn lemma_empty_format(format: ValueFormat)
    ensures
        format.bits == 0 <==> forall|k: int| 0 <= k < FIELD_COUNT ==> !format.has(k),
{
    let b = format.bits;
    assert(b == 0 <==> (b & 0x01 == 0 && b & 0x02 == 0 && b & 0x04 == 0 && b & 0x08 == 0 && b & 0x10
        == 0 && b & 0x20 == 0 && b & 0x40 == 0 && b & 0x80 == 0)) by (bit_vector);
    if forall|k: int| 0 <= k < FIELD_COUNT ==> !format.has(k) {
        assert(!format.has(0) && !format.has(1) && !format.has(2) && !format.has(3)
            && !format.has(4) && !format.has(5) && !format.has(6) && !format.has(7));
    }
}

/// The mask of all device offsets covers the last four fields.
proof fn lemma_any_device(format: ValueFormat)
    ensures
        format.bits & ValueFormat::ANY_DEVICE_OR_VARIDX != 0 <==> exists|k: int|
            4 <= k < FIELD_COUNT && format.has(k),
{
    let b = format.bits;
    assert(b & 0xF0 != 0 <==> (b & 0x10 != 0 || b & 0x20 != 0 || b & 0x40 != 0 || b & 0x80 != 0))
        by (bit_vector);
    if b & 0xF0 != 0 {
        assert(format.has(4) || format.has(5) || format.has(6) || format.has(7));
    }
}

/// A format is determined by the fields that it has.
pub proof fn law_fields_determine_format(a: ValueFormat, b: ValueFormat)
    requires
        forall|k: int| 0 <= k < FIELD_COUNT ==> #[trigger] a.has(k) == b.has(k),
    ensures
        a == b,
{
    let x = a.bits;
    let y = b.bits;
    assert(a.has(0) == b.has(0) && a.has(1) == b.has(1) && a.has(2) == b.has(2) && a.has(3)
        == b.has(3) && a.has(4) == b.has(4) && a.has(5) == b.has(5) && a.has(6) == b.has(6)
        && a.has(7) == b.has(7));
    assert(x == y) by (bit_vector)
        requires
            (x & 0x01 != 0) == (y & 0x01 != 0),
            (x & 0x02 != 0) == (y & 0x02 != 0),
            (x & 0x04 != 0) == (y & 0x04 != 0),
            (x & 0x08 != 0) == (y & 0x08 != 0),
            (x & 0x10 != 0) == (y & 0x10 != 0),
            (x & 0x20 != 0) == (y & 0x20 != 0),
            (x & 0x40 != 0) == (y & 0x40 != 0),
            (x & 0x80 != 0) == (y & 0x80 != 0),
    ;
}

} // verus!
