//! Value records, and the tables that adjust their values.
use super::value_format::{ValueFormat, FIELD_LEN};
use crate::error::ReadError;
use skrifa::raw::tables::gpos::DeviceOrVariationIndex as Adjustment;
use vstd::prelude::*;
use write_fonts::read::tables::gpos;
use write_fonts::read::FontData;

verus! {

/// The number of bytes at the start of a device or variation index table that tell which of the
/// two it is.
pub const DEVICE_HEADER_LEN: usize = 6;

/// The delta format that marks a variation index table.
pub const VARIATION_INDEX_FORMAT: u16 = 0x8000;

/// A table that adjusts a value of a value record.
#[derive(Clone, Copy, Debug)]
pub enum DeviceOrVariationIndex<'a> {
    /// A device table, given by the data from its start on.
    Device(&'a [u8]),
    /// A reference into an item variation store.
    VariationIndex {
        /// The outer index of the delta set.
        outer: u16,
        /// The inner index of the delta set.
        inner: u16,
    },
}

/// What a [`DeviceOrVariationIndex`] holds.
#[verifier::ext_equal]
pub enum DeviceModel {
    Device(Seq<u8>),
    VariationIndex { outer: u16, inner: u16 },
}

impl<'a> View for DeviceOrVariationIndex<'a> {
    type V = DeviceModel;

    open spec fn view(&self) -> DeviceModel {
        match *self {
            DeviceOrVariationIndex::Device(data) => DeviceModel::Device(data@),
            DeviceOrVariationIndex::VariationIndex { outer, inner } => DeviceModel::VariationIndex {
                outer,
                inner,
            },
        }
    }
}

/// What the outcome of following an offset to a device or variation index table holds.
pub open spec fn view_device(
    device: Option<Result<DeviceOrVariationIndex<'_>, ReadError>>,
) -> Option<Result<DeviceModel, ReadError>> {
    match device {
        Some(Ok(device)) => Some(Ok(device@)),
        Some(Err(error)) => Some(Err(error)),
        None => None,
    }
}

/// The unsigned 16 bit integer at position `pos`, most significant byte first.
pub open spec fn read_u16(data: Seq<u8>, pos: int) -> u16 {
    (data[pos] * 256 + data[pos + 1]) as u16
}

/// The signed 16 bit integer at position `pos`, most significant byte first, in two's complement.
pub open spec fn read_i16(data: Seq<u8>, pos: int) -> i16 {
    let v = data[pos] * 256 + data[pos + 1];
    if v < 0x8000 {
        v as i16
    } else {
        (v - 0x1_0000) as i16
    }
}

/// What a [`ValueRecord`] holds.
#[verifier::ext_equal]
pub struct RecordModel {
    /// The data of the table that contains the record.
    pub data: Seq<u8>,
    /// Where the record starts.
    pub offset: int,
    /// Which fields the record has.
    pub format: ValueFormat,
}

impl RecordModel {
    /// The position of field `k`.
    pub open spec fn field_pos(self, k: int) -> int {
        self.offset + FIELD_LEN * self.format.fields_before(k)
    }

    /// The value in field `k`, unless the record has no such field or is cut off before its end.
    pub open spec fn value(self, k: int) -> Option<i16> {
        if self.format.has(k) && self.field_pos(k) + FIELD_LEN <= self.data.len() {
            Some(read_i16(self.data, self.field_pos(k)))
        } else {
            None
        }
    }

    /// The table that the offset in field `k` leads to, unless the record has no such field or the
    /// offset is null. An error stands for a record that is cut off before the end of the field,
    /// or data that is cut off before the end of the table's header.
    pub open spec fn device(self, k: int) -> Option<Result<DeviceModel, ReadError>> {
        let target = read_u16(self.data, self.field_pos(k)) as int;
        if !self.format.has(k) {
            None
        } else if self.field_pos(k) + FIELD_LEN > self.data.len() {
            Some(Err(ReadError::OutOfBounds))
        } else if target == 0 {
            None
        } else if target + DEVICE_HEADER_LEN > self.data.len() {
            Some(Err(ReadError::OutOfBounds))
        } else if read_u16(self.data, target + 4) == VARIATION_INDEX_FORMAT {
            Some(
                Ok(
                    DeviceModel::VariationIndex {
                        outer: read_u16(self.data, target),
                        inner: read_u16(self.data, target + 2),
                    },
                ),
            )
        } else {
            Some(Ok(DeviceModel::Device(self.data.skip(target))))
        }
    }
}

/// Whether a record can start at `offset`: all its fields have positions within 32 bits.
pub open spec fn offset_fits(offset: u32) -> bool {
    offset <= 0xFFFF_FFEF
}

/// A GPOS value record, read on demand from the data of the table that contains it.
#[derive(Clone, Copy, Debug)]
pub struct ValueRecord<'a> {
    data: &'a [u8],
    offset: u32,
    format: ValueFormat,
}

impl<'a> View for ValueRecord<'a> {
    type V = RecordModel;

    closed spec fn view(&self) -> RecordModel {
        RecordModel { data: self.data@, offset: self.offset as int, format: self.format }
    }
}

/// `gpos::ValueRecord::x_placement`: reads the field of that name, most significant byte first,
/// behind the fields with lower flags that the format has. Returns nothing if the format lacks the
/// field or the data ends before it does.
#[verifier::external_body]
fn read_x_placement(record: &ValueRecord<'_>) -> (r: Option<i16>)
    requires
        offset_fits(record.offset),
    ensures
        r == record@.value(0),
{
    let format = gpos::ValueFormat::from_bits_truncate(record.format.bits as u16);
    gpos::ValueRecord::new(FontData::new(record.data), record.offset as usize, format).x_placement()
}

/// `gpos::ValueRecord::y_placement`: reads the field of that name, most significant byte first,
/// behind the fields with lower flags that the format has. Returns nothing if the format lacks the
/// field or the data ends before it does.
#[verifier::external_body]
fn read_y_placement(record: &ValueRecord<'_>) -> (r: Option<i16>)
    requires
        offset_fits(record.offset),
    ensures
        r == record@.value(1),
{
    let format = gpos::ValueFormat::from_bits_truncate(record.format.bits as u16);
    gpos::ValueRecord::new(FontData::new(record.data), record.offset as usize, format).y_placement()
}

/// `gpos::ValueRecord::x_advance`: reads the field of that name, most significant byte first,
/// behind the fields with lower flags that the format has. Returns nothing if the format lacks the
/// field or the data ends before it does.
#[verifier::external_body]
fn read_x_advance(record: &ValueRecord<'_>) -> (r: Option<i16>)
    requires
        offset_fits(record.offset),
    ensures
        r == record@.value(2),
{
    let format = gpos::ValueFormat::from_bits_truncate(record.format.bits as u16);
    gpos::ValueRecord::new(FontData::new(record.data), record.offset as usize, format).x_advance()
}

/// `gpos::ValueRecord::y_advance`: reads the field of that name, most significant byte first,
/// behind the fields with lower flags that the format has. Returns nothing if the format lacks the
/// field or the data ends before it does.
#[verifier::external_body]
fn read_y_advance(record: &ValueRecord<'_>) -> (r: Option<i16>)
    requires
        offset_fits(record.offset),
    ensures
        r == record@.value(3),
{
    let format = gpos::ValueFormat::from_bits_truncate(record.format.bits as u16);
    gpos::ValueRecord::new(FontData::new(record.data), record.offset as usize, format).y_advance()
}

/// `gpos::ValueRecord::x_placement_device`: reads the offset in the field of that name and follows
/// it from the start of the data. Returns nothing if the format lacks the field or the offset is
/// null, and an error if the data ends before the field or the header of the table does. The table
/// is a variation index if its delta format says so, and a device table otherwise.
#[verifier::external_body]
fn read_x_placement_device<'a>(record: &ValueRecord<'a>) -> (r: Option<
    Result<DeviceOrVariationIndex<'a>, ReadError>,
>)
    requires
        offset_fits(record.offset),
    ensures
        view_device(r) == record@.device(4),
{
    let format = gpos::ValueFormat::from_bits_truncate(record.format.bits as u16);
    let record = gpos::ValueRecord::new(FontData::new(record.data), record.offset as usize, format);
    Some(match record.x_placement_device()? {
        Ok(Adjustment::Device(d)) => Ok(DeviceOrVariationIndex::Device(d.offset_data().as_bytes())),
        Ok(Adjustment::VariationIndex(v)) => Ok(DeviceOrVariationIndex::VariationIndex {
            outer: v.delta_set_outer_index(),
            inner: v.delta_set_inner_index(),
        }),
        Err(_) => Err(ReadError::OutOfBounds),
    })
}

/// `gpos::ValueRecord::y_placement_device`: reads the offset in the field of that name and follows
/// it from the start of the data. Returns nothing if the format lacks the field or the offset is
/// null, and an error if the data ends before the field or the header of the table does. The table
/// is a variation index if its delta format says so, and a device table otherwise.
#[verifier::external_body]
fn read_y_placement_device<'a>(record: &ValueRecord<'a>) -> (r: Option<
    Result<DeviceOrVariationIndex<'a>, ReadError>,
>)
    requires
        offset_fits(record.offset),
    ensures
        view_device(r) == record@.device(5),
{
    let format = gpos::ValueFormat::from_bits_truncate(record.format.bits as u16);
    let record = gpos::ValueRecord::new(FontData::new(record.data), record.offset as usize, format);
    Some(match record.y_placement_device()? {
        Ok(Adjustment::Device(d)) => Ok(DeviceOrVariationIndex::Device(d.offset_data().as_bytes())),
        Ok(Adjustment::VariationIndex(v)) => Ok(DeviceOrVariationIndex::VariationIndex {
            outer: v.delta_set_outer_index(),
            inner: v.delta_set_inner_index(),
        }),
        Err(_) => Err(ReadError::OutOfBounds),
    })
}

/// `gpos::ValueRecord::x_advance_device`: reads the offset in the field of that name and follows
/// it from the start of the data. Returns nothing if the format lacks the field or the offset is
/// null, and an error if the data ends before the field or the header of the table does. The table
/// is a variation index if its delta format says so, and a device table otherwise.
#[verifier::external_body]
fn read_x_advance_device<'a>(record: &ValueRecord<'a>) -> (r: Option<
    Result<DeviceOrVariationIndex<'a>, ReadError>,
>)
    requires
        offset_fits(record.offset),
    ensures
        view_device(r) == record@.device(6),
{
    let format = gpos::ValueFormat::from_bits_truncate(record.format.bits as u16);
    let record = gpos::ValueRecord::new(FontData::new(record.data), record.offset as usize, format);
    Some(match record.x_advance_device()? {
        Ok(Adjustment::Device(d)) => Ok(DeviceOrVariationIndex::Device(d.offset_data().as_bytes())),
        Ok(Adjustment::VariationIndex(v)) => Ok(DeviceOrVariationIndex::VariationIndex {
            outer: v.delta_set_outer_index(),
            inner: v.delta_set_inner_index(),
        }),
        Err(_) => Err(ReadError::OutOfBounds),
    })
}

/// `gpos::ValueRecord::y_advance_device`: reads the offset in the field of that name and follows
/// it from the start of the data. Returns nothing if the format lacks the field or the offset is
/// null, and an error if the data ends before the field or the header of the table does. The table
/// is a variation index if its delta format says so, and a device table otherwise.
#[verifier::external_body]
fn read_y_advance_device<'a>(record: &ValueRecord<'a>) -> (r: Option<
    Result<DeviceOrVariationIndex<'a>, ReadError>,
>)
    requires
        offset_fits(record.offset),
    ensures
        view_device(r) == record@.device(7),
{
    let format = gpos::ValueFormat::from_bits_truncate(record.format.bits as u16);
    let record = gpos::ValueRecord::new(FontData::new(record.data), record.offset as usize, format);
    Some(match record.y_advance_device()? {
        Ok(Adjustment::Device(d)) => Ok(DeviceOrVariationIndex::Device(d.offset_data().as_bytes())),
        Ok(Adjustment::VariationIndex(v)) => Ok(DeviceOrVariationIndex::VariationIndex {
            outer: v.delta_set_outer_index(),
            inner: v.delta_set_inner_index(),
        }),
        Err(_) => Err(ReadError::OutOfBounds),
    })
}

impl<'a> ValueRecord<'a> {
    #[verifier::type_invariant]
    spec fn fits(self) -> bool {
        offset_fits(self.offset)
    }

    /// The record that starts at `offset` in `data`, which is the data of the table that contains
    /// the record. Nothing is read yet.
    pub fn new(data: &'a [u8], offset: u32, format: ValueFormat) -> (r: Self)
        requires
            offset_fits(offset),
        ensures
            r@ == (RecordModel { data: data@, offset: offset as int, format }),
    {
        ValueRecord { data, offset, format }
    }

    /// The fields that the record has.
    pub fn format(&self) -> (r: ValueFormat)
        ensures
            r == self@.format,
    {
        self.format
    }

    /// The adjustment of the horizontal placement, if the record has one.
    pub fn x_placement(&self) -> (r: Option<i16>)
        ensures
            r == self@.value(0),
    {
        proof {
            use_type_invariant(self);
        }
        read_x_placement(self)
    }

    /// The adjustment of the vertical placement, if the record has one.
    pub fn y_placement(&self) -> (r: Option<i16>)
        ensures
            r == self@.value(1),
    {
        proof {
            use_type_invariant(self);
        }
        read_y_placement(self)
    }

    /// The adjustment of the horizontal advance, if the record has one.
    pub fn x_advance(&self) -> (r: Option<i16>)
        ensures
            r == self@.value(2),
    {
        proof {
            use_type_invariant(self);
        }
        read_x_advance(self)
    }

    /// The adjustment of the vertical advance, if the record has one.
    pub fn y_advance(&self) -> (r: Option<i16>)
        ensures
            r == self@.value(3),
    {
        proof {
            use_type_invariant(self);
        }
        read_y_advance(self)
    }

    /// The table that adjusts the horizontal placement, if the record refers to one.
    pub fn x_placement_device(&self) -> (r: Option<Result<DeviceOrVariationIndex<'a>, ReadError>>)
        ensures
            view_device(r) == self@.device(4),
    {
        proof {
            use_type_invariant(self);
        }
        read_x_placement_device(self)
    }

    /// The table that adjusts the vertical placement, if the record refers to one.
    pub fn y_placement_device(&self) -> (r: Option<Result<DeviceOrVariationIndex<'a>, ReadError>>)
        ensures
            view_device(r) == self@.device(5),
    {
        proof {
            use_type_invariant(self);
        }
        read_y_placement_device(self)
    }

    /// The table that adjusts the horizontal advance, if the record refers to one.
    pub fn x_advance_device(&self) -> (r: Option<Result<DeviceOrVariationIndex<'a>, ReadError>>)
        ensures
            view_device(r) == self@.device(6),
    {
        proof {
            use_type_invariant(self);
        }
        read_x_advance_device(self)
    }

    /// The table that adjusts the vertical advance, if the record refers to one.
    pub fn y_advance_device(&self) -> (r: Option<Result<DeviceOrVariationIndex<'a>, ReadError>>)
        ensures
            view_device(r) == self@.device(7),
    {
        proof {
            use_type_invariant(self);
        }
        read_y_advance_device(self)
    }
}

} // verus!
