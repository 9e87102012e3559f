//! Which fields of a value record are worth keeping.
use super::plan::{combined_index_spec, plan_entry, view_plan, Plan, NO_VARIATION_INDEX};
use super::value_format::{field_flag, lemma_with, lemma_without, ValueFormat, FIELD_COUNT};
use super::value_record::{
    view_device, DeviceModel, DeviceOrVariationIndex, RecordModel, ValueRecord,
};
use crate::error::ReadError;
use vstd::prelude::*;

verus! {

/// Whether a device or variation index table is kept under a plan. A device table may have
/// deltas other than zero and always is. A variation index is kept if the plan replaces it with
/// one under which something is left to vary.
pub open spec fn plan_keeps(plan: Map<u32, (u32, i32)>, device: DeviceModel) -> bool {
    device is Device || (plan_entry(plan, device) matches Some(entry) && entry.0
        != NO_VARIATION_INDEX)
}

/// What [`update_var_flag`] makes of a format.
///
/// Without a plan the flag is set. With one it is set for a device table, and for a variation index
/// under which the plan leaves something to vary; for any other variation index it is cleared. If
/// there is no table, or it cannot be read, the flag stays as it is.
pub open spec fn updated_format(
    value: Option<Result<DeviceModel, ReadError>>,
    flag: u8,
    format: ValueFormat,
    plan: Option<Map<u32, (u32, i32)>>,
) -> ValueFormat {
    match plan {
        Some(plan) => match value {
            Some(Ok(device)) => if plan_keeps(plan, device) {
                format.with_spec(flag)
            } else {
                format.without_spec(flag)
            },
            _ => format,
        },
        None => format.with_spec(flag),
    }
}

/// Updates the flag of a field that leads to a device or variation index table.
pub fn update_var_flag(
    value: Option<Result<DeviceOrVariationIndex<'_>, ReadError>>,
    flag: u8,
    format: &mut ValueFormat,
    plan: Option<&Plan>,
)
    ensures
        *final(format) == updated_format(view_device(value), flag, *old(format), view_plan(plan)),
{
    match plan {
        Some(plan) => {
            if let Some(Ok(device)) = value {
                let keep = match device {
                    DeviceOrVariationIndex::Device(_) => true,
                    DeviceOrVariationIndex::VariationIndex { .. } => match plan.entry(&device) {
                        Some((first, _)) => first != NO_VARIATION_INDEX,
                        None => false,
                    },
                };
                *format = if keep {
                    format.with(flag)
                } else {
                    format.without(flag)
                };
            }
        },
        None => {
            *format = format.with(flag);
        },
    }
}

/// Whether a value is worth keeping.
pub open spec fn keeps_value(value: Option<i16>, strip_empty: bool) -> bool {
    value matches Some(v) && (!strip_empty || v != 0)
}

/// Whether an offset to a device or variation index table is worth keeping.
pub open spec fn keeps_device(
    device: Option<Result<DeviceModel, ReadError>>,
    strip_hints: bool,
    plan: Option<Map<u32, (u32, i32)>>,
) -> bool {
    !strip_hints && match plan {
        Some(plan) => device matches Some(Ok(device)) && plan_keeps(plan, device),
        None => device is Some,
    }
}

/// Whether field `k` of a record is worth keeping.
pub open spec fn keeps_field(
    record: RecordModel,
    k: int,
    strip_hints: bool,
    strip_empty: bool,
    plan: Option<Map<u32, (u32, i32)>>,
) -> bool {
    if k < 4 {
        keeps_value(record.value(k), strip_empty)
    } else {
        keeps_device(record.device(k), strip_hints, plan)
    }
}

/// Whether a format has those of the first `n` fields of a record that are worth keeping, and no
/// other fields.
pub open spec fn keeps_fields(
    format: ValueFormat,
    record: RecordModel,
    n: int,
    strip_hints: bool,
    strip_empty: bool,
    plan: Option<Map<u32, (u32, i32)>>,
) -> bool {
    forall|k: int|
        0 <= k < FIELD_COUNT ==> (#[trigger] format.has(k) <==> k < n && keeps_field(
            record,
            k,
            strip_hints,
            strip_empty,
            plan,
        ))
}

/// Adds the flag of a field that holds a value, if the value is worth keeping.
fn update_value_flag(value: Option<i16>, strip_empty: bool, flag: u8, format: &mut ValueFormat)
    ensures
        *final(format) == if keeps_value(value, strip_empty) {
            old(format).with_spec(flag)
        } else {
            *old(format)
        },
{
    if let Some(v) = value {
        if !strip_empty || v != 0 {
            *format = format.with(flag);
        }
    }
}

/// Decides which fields of a value record are worth keeping.
///
/// Values are kept if they are present and, with `strip_empty`, not zero. Offsets to device and
/// variation index tables are dropped with `strip_hints`. Otherwise they are kept if they are not
/// null and, given a plan, lead to a device table or to a variation index under which the plan
/// leaves something to vary.
pub fn compute_effective_format(
    value_record: &ValueRecord<'_>,
    strip_hints: bool,
    strip_empty: bool,
    plan: Option<&Plan>,
) -> (r: ValueFormat)
    ensures
        forall|k: int|
            0 <= k < FIELD_COUNT ==> (#[trigger] r.has(k) <==> keeps_field(
                value_record@,
                k,
                strip_hints,
                strip_empty,
                view_plan(plan),
            )),
{
    let ghost record = value_record@;
    let ghost p = view_plan(plan);
    let mut value_format = ValueFormat::empty();
    let ghost before = value_format;

    update_value_flag(
        value_record.x_placement(),
        strip_empty,
        ValueFormat::X_PLACEMENT,
        &mut value_format,
    );
    proof {
        lemma_next_field(before, value_format, record, 0, strip_hints, strip_empty, p);
    }
    let ghost before = value_format;
    update_value_flag(
        value_record.y_placement(),
        strip_empty,
        ValueFormat::Y_PLACEMENT,
        &mut value_format,
    );
    proof {
        lemma_next_field(before, value_format, record, 1, strip_hints, strip_empty, p);
    }
    let ghost before = value_format;
    update_value_flag(
        value_record.x_advance(),
        strip_empty,
        ValueFormat::X_ADVANCE,
        &mut value_format,
    );
    proof {
        lemma_next_field(before, value_format, record, 2, strip_hints, strip_empty, p);
    }
    let ghost before = value_format;
    update_value_flag(
        value_record.y_advance(),
        strip_empty,
        ValueFormat::Y_ADVANCE,
        &mut value_format,
    );
    proof {
        lemma_next_field(before, value_format, record, 3, strip_hints, strip_empty, p);
    }

    if !strip_hints {
        let ghost before = value_format;
        if let Some(device) = value_record.x_placement_device() {
            update_var_flag(
                Some(device),
                ValueFormat::X_PLACEMENT_DEVICE,
                &mut value_format,
                plan,
            );
        }
        proof {
            lemma_next_field(before, value_format, record, 4, strip_hints, strip_empty, p);
        }
        let ghost before = value_format;
        if let Some(device) = value_record.y_placement_device() {
            update_var_flag(
                Some(device),
                ValueFormat::Y_PLACEMENT_DEVICE,
                &mut value_format,
                plan,
            );
        }
        proof {
            lemma_next_field(before, value_format, record, 5, strip_hints, strip_empty, p);
        }
        let ghost before = value_format;
        if let Some(device) = value_record.x_advance_device() {
            update_var_flag(
                Some(device),
                ValueFormat::X_ADVANCE_DEVICE,
                &mut value_format,
                plan,
            );
        }
        proof {
            lemma_next_field(before, value_format, record, 6, strip_hints, strip_empty, p);
        }
        let ghost before = value_format;
        if let Some(device) = value_record.y_advance_device() {
            update_var_flag(
                Some(device),
                ValueFormat::Y_ADVANCE_DEVICE,
                &mut value_format,
                plan,
            );
        }
        proof {
            lemma_next_field(before, value_format, record, 7, strip_hints, strip_empty, p);
        }
    }
    value_format
}

/// Adding field `k` to a format that lacks it, or not, takes the fields that are accounted for one
/// further.
proof fn lemma_next_field(
    before: ValueFormat,
    after: ValueFormat,
    record: RecordModel,
    k: int,
    strip_hints: bool,
    strip_empty: bool,
    plan: Option<Map<u32, (u32, i32)>>,
)
    requires
        0 <= k < FIELD_COUNT,
        keeps_fields(before, record, k, strip_hints, strip_empty, plan),
        keeps_field(record, k, strip_hints, strip_empty, plan) ==> after == before.with_spec(
            field_flag(k),
        ),
        !keeps_field(record, k, strip_hints, strip_empty, plan) ==> after == before || after
            == before.without_spec(field_flag(k)),
    ensures
        keeps_fields(after, record, k + 1, strip_hints, strip_empty, plan),
{
    assert forall|j: int| 0 <= j < FIELD_COUNT implies (#[trigger] after.has(j) <==> j < k + 1
        && keeps_field(record, j, strip_hints, strip_empty, plan)) by {
        lemma_with(before, k, j);
        lemma_without(before, k, j);
        assert(before.has(j) <==> j < k && keeps_field(record, j, strip_hints, strip_empty, plan));
    }
}

/// Only fields that the record has are worth keeping.
pub proof fn law_kept_fields_are_present(
    record: RecordModel,
    k: int,
    strip_hints: bool,
    strip_empty: bool,
    plan: Option<Map<u32, (u32, i32)>>,
)
    requires
        keeps_field(record, k, strip_hints, strip_empty, plan),
    ensures
        record.format.has(k),
{
}

/// Stripping hints, stripping empty values and following a plan can each only drop fields.
pub proof fn law_options_only_drop_fields(
    record: RecordModel,
    k: int,
    strip_hints: bool,
    strip_empty: bool,
    plan: Option<Map<u32, (u32, i32)>>,
)
    requires
        keeps_field(record, k, strip_hints, strip_empty, plan),
    ensures
        keeps_field(record, k, false, strip_empty, plan),
        keeps_field(record, k, strip_hints, false, plan),
        keeps_field(record, k, strip_hints, strip_empty, None),
{
}

/// A value that is dropped is missing or, with `strip_empty`, zero: dropping it does not change
/// what the record does.
pub proof fn law_dropped_values_are_empty(
    record: RecordModel,
    k: int,
    strip_hints: bool,
    strip_empty: bool,
    plan: Option<Map<u32, (u32, i32)>>,
)
    requires
        0 <= k < 4,
        !keeps_field(record, k, strip_hints, strip_empty, plan),
    ensures
        record.value(k) is None || (strip_empty && record.value(k) == Some(0i16)),
{
}

/// Stripping hints leaves no offset to a device or variation index table.
pub proof fn law_no_hints_after_stripping(
    record: RecordModel,
    k: int,
    strip_empty: bool,
    plan: Option<Map<u32, (u32, i32)>>,
)
    requires
        4 <= k < FIELD_COUNT,
    ensures
        !keeps_field(record, k, true, strip_empty, plan),
{
}

/// Unless hints are stripped, an offset to a device table is kept, under a plan or without one.
pub proof fn law_device_tables_are_kept(
    record: RecordModel,
    k: int,
    strip_empty: bool,
    plan: Option<Map<u32, (u32, i32)>>,
)
    requires
        4 <= k < FIELD_COUNT,
        record.device(k) matches Some(Ok(DeviceModel::Device(_))),
    ensures
        keeps_field(record, k, false, strip_empty, plan),
{
}

/// Unless hints are stripped, an offset that leads to a variation index is kept under a plan if and
/// only if the plan has an entry for 65536 times the outer index plus the inner index, and the
/// entry's index is not [`NO_VARIATION_INDEX`]. The entry's delta plays no role.
pub proof fn law_variation_indices_are_kept_by_index(
    record: RecordModel,
    k: int,
    strip_empty: bool,
    plan: Map<u32, (u32, i32)>,
    outer: u16,
    inner: u16,
    ix: u32,
)
    requires
        4 <= k < FIELD_COUNT,
        record.device(k) == Some(
            Ok::<DeviceModel, ReadError>(DeviceModel::VariationIndex { outer, inner }),
        ),
        ix == outer * 65536 + inner,
    ensures
        keeps_field(record, k, false, strip_empty, Some(plan)) <==> plan.contains_key(ix)
            && plan[ix].0 != 0xFFFF_FFFF,
{
}

/// Two plans that replace the same variation indices by the same indices keep the same fields,
/// whatever their deltas.
pub proof fn law_deltas_do_not_decide_fields(
    record: RecordModel,
    k: int,
    strip_hints: bool,
    strip_empty: bool,
    a: Map<u32, (u32, i32)>,
    b: Map<u32, (u32, i32)>,
)
    requires
        forall|ix: u32| #[trigger] a.contains_key(ix) <==> b.contains_key(ix),
        forall|ix: u32| #[trigger] a.contains_key(ix) ==> a[ix].0 == b[ix].0,
    ensures
        keeps_field(record, k, strip_hints, strip_empty, Some(a)) == keeps_field(
            record,
            k,
            strip_hints,
            strip_empty,
            Some(b),
        ),
{
    if let Some(Ok(DeviceModel::VariationIndex { outer, inner })) = record.device(k) {
        let ix = combined_index_spec(outer, inner);
        assert(a.contains_key(ix) <==> b.contains_key(ix));
    }
}

/// A null offset is never kept. One that leads nowhere is kept without a plan, unless hints are
/// stripped, and dropped with one. Without a plan, any table is kept unless hints are stripped.
pub proof fn law_offsets_without_a_plan(
    record: RecordModel,
    k: int,
    strip_hints: bool,
    strip_empty: bool,
    plan: Map<u32, (u32, i32)>,
)
    requires
        4 <= k < FIELD_COUNT,
    ensures
        record.device(k) is None ==> !keeps_field(record, k, strip_hints, strip_empty, None)
            && !keeps_field(record, k, strip_hints, strip_empty, Some(plan)),
        record.device(k) is Some ==> (keeps_field(record, k, strip_hints, strip_empty, None)
            <==> !strip_hints),
        record.device(k) matches Some(Err(_)) ==> !keeps_field(
            record,
            k,
            strip_hints,
            strip_empty,
            Some(plan),
        ),
{
}

/// A value that is there is kept, unless empty values are stripped and it is zero; one that is not
/// there is not. Hints and plans have no say in it.
pub proof fn law_values_are_kept(
    record: RecordModel,
    k: int,
    v: i16,
    strip_hints: bool,
    strip_empty: bool,
    plan: Option<Map<u32, (u32, i32)>>,
)
    requires
        0 <= k < 4,
    ensures
        record.value(k) == Some(v) && v != 0 ==> keeps_field(
            record,
            k,
            strip_hints,
            strip_empty,
            plan,
        ),
        record.value(k) == Some(0i16) ==> (keeps_field(record, k, strip_hints, strip_empty, plan)
            <==> !strip_empty),
        record.value(k) is None ==> !keeps_field(record, k, strip_hints, strip_empty, plan),
{
}

/// Updating the flag of a field leaves the other fields alone. The flag is set without a plan and
/// for device tables; for a variation index it shows whether the plan has an entry for 65536 times
/// the outer index plus the inner index with an index other than [`NO_VARIATION_INDEX`], and where
/// there is nothing to read it stays as it was.
pub proof fn law_update_decides_one_flag(
    value: Option<Result<DeviceModel, ReadError>>,
    k: int,
    j: int,
    format: ValueFormat,
    plan: Map<u32, (u32, i32)>,
    ix: u32,
)
    requires
        0 <= k < FIELD_COUNT,
        0 <= j < FIELD_COUNT,
        value matches Some(Ok(DeviceModel::VariationIndex { outer, inner })) ==> ix == outer * 65536
            + inner,
    ensures
        ({
            let free = updated_format(value, field_flag(k), format, None);
            let planned = updated_format(value, field_flag(k), format, Some(plan));
            &&& j != k ==> free.has(j) == format.has(j) && planned.has(j) == format.has(j)
            &&& free.has(k)
            &&& match value {
                Some(Ok(DeviceModel::Device(_))) => planned.has(k),
                Some(Ok(DeviceModel::VariationIndex { .. })) => planned.has(k) <==> (
                plan.contains_key(ix) && plan[ix].0 != 0xFFFF_FFFF),
                _ => planned == format,
            }
        }),
{
    lemma_with(format, k, j);
    lemma_with(format, k, k);
    lemma_without(format, k, j);
    lemma_without(format, k, k);
}

} // verus!
