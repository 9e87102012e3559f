//! Writing the value records of a subset.
//!
//! What is to be written is decided here; the writing itself is left to the caller, who performs
//! one [`Action`] after another and reports what came of it as an [`Event`].
use super::plan::{plan_entry, Plan};
use super::value_format::{lemma_contains, ValueFormat, FIELD_COUNT};
use super::value_record::{
    view_device, DeviceModel, DeviceOrVariationIndex, RecordModel, ValueRecord,
};
use crate::error::ReadError;
use vstd::prelude::*;

verus! {

/// The value nearest to an integer.
pub open spec fn saturated(x: int) -> i16 {
    if x < i16::MIN {
        i16::MIN
    } else if x > i16::MAX {
        i16::MAX
    } else {
        x as i16
    }
}

/// The lower 16 bits of a delta, in two's complement.
pub open spec fn low_half(delta: i32) -> i16 {
    ((delta + 0x8000) % 0x1_0000 - 0x8000) as i16
}

/// The value to write for field `k`: what the record holds, or zero, with the delta added that the
/// plan has for the table that adjusts the value.
pub open spec fn adjusted_value(record: RecordModel, k: int, plan: Map<u32, (u32, i32)>) -> i16 {
    let base = match record.value(k) {
        Some(v) => v,
        None => 0,
    };
    match record.device(k + 4) {
        Some(Ok(device)) => match plan_entry(plan, device) {
            Some((_, delta)) => saturated(base + low_half(delta)),
            None => base,
        },
        _ => base,
    }
}

/// [`adjusted_value`] for the field that `which_one` stands for, and zero for any other flags.
pub open spec fn adjusted_value_of(
    record: RecordModel,
    which_one: u8,
    plan: Map<u32, (u32, i32)>,
) -> i16 {
    if which_one == ValueFormat::X_PLACEMENT {
        adjusted_value(record, 0, plan)
    } else if which_one == ValueFormat::Y_PLACEMENT {
        adjusted_value(record, 1, plan)
    } else if which_one == ValueFormat::X_ADVANCE {
        adjusted_value(record, 2, plan)
    } else if which_one == ValueFormat::Y_ADVANCE {
        adjusted_value(record, 3, plan)
    } else {
        0
    }
}

/// Adds two values, stopping at the smallest and the largest.
fn saturating_sum(a: i16, b: i16) -> (r: i16)
    ensures
        r == saturated(a + b),
{
    let sum: i32 = a as i32 + b as i32;
    if sum < i16::MIN as i32 {
        i16::MIN
    } else if sum > i16::MAX as i32 {
        i16::MAX
    } else {
        sum as i16
    }
}

/// Applies the delta that the plan has for a value, if it has one.
pub fn apply_value_delta(value_record: &ValueRecord<'_>, which_one: u8, plan: &Plan) -> (r: i16)
    ensures
        r == adjusted_value_of(value_record@, which_one, plan@),
{
    let (base, device) = if which_one == ValueFormat::X_PLACEMENT {
        (value_record.x_placement(), value_record.x_placement_device())
    } else if which_one == ValueFormat::Y_PLACEMENT {
        (value_record.y_placement(), value_record.y_placement_device())
    } else if which_one == ValueFormat::X_ADVANCE {
        (value_record.x_advance(), value_record.x_advance_device())
    } else if which_one == ValueFormat::Y_ADVANCE {
        (value_record.y_advance(), value_record.y_advance_device())
    } else {
        (None, None)
    };
    let base: i16 = match base {
        Some(v) => v,
        None => 0,
    };
    if let Some(Ok(device)) = device {
        if let Some((_, delta)) = plan.entry(&device) {
            assert(delta as i16 == low_half(delta)) by {
                assert(delta as i16 == (delta + 0x8000) % 0x1_0000 - 0x8000) by (bit_vector);
            }
            return saturating_sum(base, delta as i16);
        }
    }
    base
}

/// What is to be written for one field of a value record.
#[derive(Clone, Copy, Debug)]
pub enum FieldOp<'a> {
    /// A value.
    Value(i16),
    /// An offset to a table. Without a table, or if it cannot be written, the offset is null.
    Offset(Option<DeviceOrVariationIndex<'a>>),
}

/// What a [`FieldOp`] holds.
#[verifier::ext_equal]
pub enum FieldModel {
    Value(i16),
    Offset(Option<DeviceModel>),
}

impl<'a> View for FieldOp<'a> {
    type V = FieldModel;

    open spec fn view(&self) -> FieldModel {
        match *self {
            FieldOp::Value(value) => FieldModel::Value(value),
            FieldOp::Offset(Some(device)) => FieldModel::Offset(Some(device@)),
            FieldOp::Offset(None) => FieldModel::Offset(None),
        }
    }
}

/// What a list of fields holds.
pub open spec fn view_fields(ops: Seq<FieldOp<'_>>) -> Seq<FieldModel> {
    Seq::new(ops.len(), |i: int| ops[i]@)
}

/// The table that can be written, if any: one that is there and can be read.
pub open spec fn readable(device: Option<Result<DeviceModel, ReadError>>) -> Option<DeviceModel> {
    match device {
        Some(Ok(device)) => Some(device),
        _ => None,
    }
}

/// What is to be written for field `k`.
pub open spec fn field_op(record: RecordModel, k: int, plan: Map<u32, (u32, i32)>) -> FieldModel {
    if k < 4 {
        FieldModel::Value(adjusted_value(record, k, plan))
    } else {
        FieldModel::Offset(readable(record.device(k)))
    }
}

/// What is to be written for those of the first `n` fields that `format` has, in order.
pub open spec fn field_ops(
    record: RecordModel,
    format: ValueFormat,
    n: int,
    plan: Map<u32, (u32, i32)>,
) -> Seq<FieldModel>
    decreases n,
{
    if n <= 0 {
        Seq::empty()
    } else if format.has(n - 1) {
        field_ops(record, format, n - 1, plan).push(field_op(record, n - 1, plan))
    } else {
        field_ops(record, format, n - 1, plan)
    }
}

/// Appends what is to be written for a value field, if the format has it.
fn copy_value<'a>(
    ops: &mut Vec<FieldOp<'a>>,
    value_record: &ValueRecord<'a>,
    plan: &Plan,
    new_format: ValueFormat,
    flag: u8,
)
    ensures
        view_fields(final(ops)@) == if new_format.bits & flag == flag {
            view_fields(old(ops)@).push(
                FieldModel::Value(adjusted_value_of(value_record@, flag, plan@)),
            )
        } else {
            view_fields(old(ops)@)
        },
{
    if new_format.contains(flag) {
        ops.push(FieldOp::Value(apply_value_delta(value_record, flag, plan)));
        assert(view_fields(ops@) =~= view_fields(old(ops)@).push(ops@.last()@));
    }
}

/// Appends what is to be written for an offset to a device or variation index table, if the format
/// has it.
///
/// Whether the field is there is a matter of the format alone, so that the record has the size
/// that the format implies. Where the record at hand has a null offset, or one that leads nowhere,
/// the field stays null.
fn copy_device<'a>(
    ops: &mut Vec<FieldOp<'a>>,
    new_format: ValueFormat,
    flag: u8,
    device: Option<Result<DeviceOrVariationIndex<'a>, ReadError>>,
)
    ensures
        view_fields(final(ops)@) == if new_format.bits & flag == flag {
            view_fields(old(ops)@).push(FieldModel::Offset(readable(view_device(device))))
        } else {
            view_fields(old(ops)@)
        },
{
    if new_format.contains(flag) {
        let target = match device {
            Some(Ok(device)) => Some(device),
            _ => None,
        };
        ops.push(FieldOp::Offset(target));
        assert(view_fields(ops@) =~= view_fields(old(ops)@).push(ops@.last()@));
    }
}

/// Lists what is to be written for a value record that has the fields of `new_format`.
pub fn subset_fields<'a>(
    value_record: &ValueRecord<'a>,
    plan: &Plan,
    new_format: ValueFormat,
) -> (r: Vec<FieldOp<'a>>)
    ensures
        view_fields(r@) == field_ops(value_record@, new_format, FIELD_COUNT as int, plan@),
{
    let mut ops: Vec<FieldOp<'a>> = Vec::new();
    proof {
        assert(view_fields(ops@) =~= field_ops(value_record@, new_format, 0, plan@));
        lemma_contains(new_format, 0);
        lemma_contains(new_format, 1);
        lemma_contains(new_format, 2);
        lemma_contains(new_format, 3);
        lemma_contains(new_format, 4);
        lemma_contains(new_format, 5);
        lemma_contains(new_format, 6);
        lemma_contains(new_format, 7);
        reveal_with_fuel(field_ops, 9);
    }
    if new_format.is_empty() {
        return ops;
    }
    copy_value(&mut ops, value_record, plan, new_format, ValueFormat::X_PLACEMENT);
    copy_value(&mut ops, value_record, plan, new_format, ValueFormat::Y_PLACEMENT);
    copy_value(&mut ops, value_record, plan, new_format, ValueFormat::X_ADVANCE);
    copy_value(&mut ops, value_record, plan, new_format, ValueFormat::Y_ADVANCE);
    if !new_format.intersects(ValueFormat::ANY_DEVICE_OR_VARIDX) {
        return ops;
    }
    copy_device(
        &mut ops,
        new_format,
        ValueFormat::X_PLACEMENT_DEVICE,
        value_record.x_placement_device(),
    );
    copy_device(
        &mut ops,
        new_format,
        ValueFormat::Y_PLACEMENT_DEVICE,
        value_record.y_placement_device(),
    );
    copy_device(
        &mut ops,
        new_format,
        ValueFormat::X_ADVANCE_DEVICE,
        value_record.x_advance_device(),
    );
    copy_device(
        &mut ops,
        new_format,
        ValueFormat::Y_ADVANCE_DEVICE,
        value_record.y_advance_device(),
    );
    ops
}

/// How far writing a value record has come.
#[derive(Clone, Copy, Debug)]
pub enum Phase<E> {
    /// The given field is being written.
    Embed(usize),
    /// The table that the given field leads to is being written, to be linked from the given
    /// position.
    Serialize(usize, usize),
    /// Everything is written.
    Done,
    /// A field could not be written.
    Failed(E),
}

/// What is to be done next.
#[derive(Debug)]
pub enum Action<'a, E> {
    /// Append a value.
    EmbedValue(i16),
    /// Append a null offset.
    EmbedOffset,
    /// Write a table and link it from the offset at the given position.
    SerializeDevice {
        device: DeviceOrVariationIndex<'a>,
        offset_pos: usize,
    },
    /// Stop and report the outcome.
    Finish(Result<(), E>),
}

/// What an [`Action`] holds.
#[verifier::ext_equal]
pub enum ActionModel<E> {
    EmbedValue(i16),
    EmbedOffset,
    SerializeDevice { device: DeviceModel, offset_pos: usize },
    Finish(Result<(), E>),
}

impl<'a, E> View for Action<'a, E> {
    type V = ActionModel<E>;

    open spec fn view(&self) -> ActionModel<E> {
        match *self {
            Action::EmbedValue(value) => ActionModel::EmbedValue(value),
            Action::EmbedOffset => ActionModel::EmbedOffset,
            Action::SerializeDevice { device, offset_pos } => ActionModel::SerializeDevice {
                device: device@,
                offset_pos,
            },
            Action::Finish(outcome) => ActionModel::Finish(outcome),
        }
    }
}

/// What came of an [`Action`].
#[derive(Debug)]
pub enum Event<E> {
    /// A value or an offset was appended at the given position, or could not be.
    Embedded(Result<usize, E>),
    /// A table was written and linked, or could not be.
    Serialized(Result<(), E>),
}

/// What a [`SubsetRun`] holds.
#[verifier::ext_equal]
pub struct RunModel<E> {
    /// What is to be written.
    pub ops: Seq<FieldModel>,
    /// How far writing has come.
    pub phase: Phase<E>,
}

/// The phase in which the fields from the `i`th on are left to write.
pub open spec fn phase_from<E>(len: nat, i: int) -> Phase<E> {
    if i < len {
        Phase::Embed(i as usize)
    } else {
        Phase::Done
    }
}

impl<E> RunModel<E> {
    /// Whether the phase refers to fields that exist, and to a table where there is one.
    pub open spec fn wf(self) -> bool {
        &&& self.ops.len() <= FIELD_COUNT
        &&& match self.phase {
            Phase::Embed(i) => i < self.ops.len(),
            Phase::Serialize(i, _) => {
                &&& i < self.ops.len()
                &&& self.ops[i as int] matches FieldModel::Offset(Some(_))
            },
            _ => true,
        }
    }

    /// What is to be done next.
    pub open spec fn action(self) -> ActionModel<E> {
        match self.phase {
            Phase::Embed(i) => match self.ops[i as int] {
                FieldModel::Value(value) => ActionModel::EmbedValue(value),
                FieldModel::Offset(_) => ActionModel::EmbedOffset,
            },
            Phase::Serialize(i, offset_pos) => ActionModel::SerializeDevice {
                device: self.ops[i as int]->Offset_0->0,
                offset_pos,
            },
            Phase::Done => ActionModel::Finish(Ok(())),
            Phase::Failed(error) => ActionModel::Finish(Err(error)),
        }
    }

    /// What an event leads to.
    ///
    /// A field that cannot be appended ends the run with the error. A table that cannot be written
    /// is dropped, and the offset stays null. An event that does not answer the action at hand
    /// changes nothing.
    pub open spec fn after(self, event: Event<E>) -> Self {
        let phase = match (self.phase, event) {
            (Phase::Embed(i), Event::Embedded(Ok(pos))) => match self.ops[i as int] {
                FieldModel::Offset(Some(_)) => Phase::Serialize(i, pos),
                _ => phase_from(self.ops.len(), i + 1),
            },
            (Phase::Embed(_), Event::Embedded(Err(error))) => Phase::Failed(error),
            (Phase::Serialize(i, _), Event::Serialized(_)) => phase_from(self.ops.len(), i + 1),
            (phase, _) => phase,
        };
        RunModel { ops: self.ops, phase }
    }
}

/// The writing of one value record.
pub struct SubsetRun<'a, E> {
    ops: Vec<FieldOp<'a>>,
    phase: Phase<E>,
}

impl<'a, E> View for SubsetRun<'a, E> {
    type V = RunModel<E>;

    closed spec fn view(&self) -> RunModel<E> {
        RunModel { ops: view_fields(self.ops@), phase: self.phase }
    }
}

impl<'a, E> SubsetRun<'a, E> {
    #[verifier::type_invariant]
    spec fn inv(self) -> bool {
        self@.wf()
    }
}

impl<'a, E: Copy> SubsetRun<'a, E> {
    /// Starts writing a value record that has the fields of `new_format`.
    pub fn start(value_record: &ValueRecord<'a>, plan: &Plan, new_format: ValueFormat) -> (r: Self)
        ensures
            r@.ops == field_ops(value_record@, new_format, FIELD_COUNT as int, plan@),
            r@.phase == phase_from::<E>(r@.ops.len(), 0),
    {
        let ops = subset_fields(value_record, plan, new_format);
        proof {
            law_record_size(value_record@, new_format, plan@);
            lemma_fields_before(new_format, 0, FIELD_COUNT as int);
        }
        let phase = if ops.len() > 0 {
            Phase::Embed(0)
        } else {
            Phase::Done
        };
        SubsetRun { ops, phase }
    }

    /// What is to be done next.
    pub fn action(&self) -> (r: Action<'a, E>)
        ensures
            r@ == self@.action(),
    {
        proof {
            use_type_invariant(self);
        }
        match self.phase {
            Phase::Embed(i) => match self.ops[i] {
                FieldOp::Value(value) => Action::EmbedValue(value),
                FieldOp::Offset(_) => Action::EmbedOffset,
            },
            Phase::Serialize(i, offset_pos) => match self.ops[i] {
                FieldOp::Offset(Some(device)) => Action::SerializeDevice { device, offset_pos },
                _ => Action::EmbedOffset,
            },
            Phase::Done => Action::Finish(Ok(())),
            Phase::Failed(error) => Action::Finish(Err(error)),
        }
    }

    /// Takes note of what came of the action at hand.
    pub fn handle(&mut self, event: Event<E>)
        ensures
            final(self)@ == old(self)@.after(event),
    {
        proof {
            use_type_invariant(&*self);
        }
        let len: usize = self.ops.len();
        let phase = match (self.phase, event) {
            (Phase::Embed(i), Event::Embedded(Ok(pos))) => match self.ops[i] {
                FieldOp::Offset(Some(_)) => Phase::Serialize(i, pos),
                _ => Self::phase_from(len, i + 1),
            },
            (Phase::Embed(_), Event::Embedded(Err(error))) => Phase::Failed(error),
            (Phase::Serialize(i, _), Event::Serialized(_)) => Self::phase_from(len, i + 1),
            (phase, _) => phase,
        };
        self.phase = phase;
    }

    /// The phase in which the fields from the `i`th on are left to write.
    fn phase_from(len: usize, i: usize) -> (r: Phase<E>)
        ensures
            r == phase_from::<E>(len as nat, i as int),
    {
        if i < len {
            Phase::Embed(i)
        } else {
            Phase::Done
        }
    }
}

/// The fields before field `k` are some of those before field `n`.
pub proof fn lemma_fields_before(format: ValueFormat, k: int, n: int)
    requires
        0 <= k <= n,
    ensures
        0 <= format.fields_before(k) <= format.fields_before(n) <= format.fields_before(k) + n - k,
        format.fields_before(k) <= k,
    decreases n,
{
    if n > k {
        lemma_fields_before(format, k, n - 1);
    } else if k > 0 {
        lemma_fields_before(format, k - 1, k - 1);
    }
}

/// A record takes as many fields as its format has, no more and no fewer, whatever the record at
/// hand holds: the records that follow it stay in place.
pub proof fn law_record_size(
    record: RecordModel,
    format: ValueFormat,
    plan: Map<u32, (u32, i32)>,
)
    ensures
        field_ops(record, format, FIELD_COUNT as int, plan).len() == format.fields_before(
            FIELD_COUNT as int,
        ),
{
    lemma_record_size(record, format, FIELD_COUNT as int, plan);
}

/// [`law_record_size`] for the first `n` fields.
pub proof fn lemma_record_size(
    record: RecordModel,
    format: ValueFormat,
    n: int,
    plan: Map<u32, (u32, i32)>,
)
    ensures
        field_ops(record, format, n, plan).len() == format.fields_before(n),
    decreases n,
{
    if n > 0 {
        lemma_record_size(record, format, n - 1, plan);
    }
}

} // verus!
