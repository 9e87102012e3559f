//! What holds of a value record that has been written.
use super::effective_format::keeps_field;
use super::plan::plan_entry;
use super::subset::{
    adjusted_value, adjusted_value_of, field_op, field_ops, law_record_size, lemma_fields_before,
    lemma_record_size, low_half, phase_from, ActionModel, Event, FieldModel, Phase, RunModel,
};
use super::value_format::{ValueFormat, FIELD_COUNT, FIELD_LEN};
use super::value_record::{DeviceModel, RecordModel};
use crate::error::ReadError;
use vstd::prelude::*;

verus! {

/// What a run comes to after a number of events.
pub open spec fn run_after<E>(run: RunModel<E>, events: Seq<Event<E>>) -> RunModel<E>
    decreases events.len(),
{
    if events.len() == 0 {
        run
    } else {
        run_after(run.after(events[0]), events.drop_first())
    }
}

/// What a caller reports who can append every field from the `i`th on, at `positions`, and for
/// whom writing the tables comes to `outcomes`.
pub open spec fn answers<E>(
    ops: Seq<FieldModel>,
    i: int,
    positions: Seq<usize>,
    outcomes: Seq<Result<(), E>>,
) -> Seq<Event<E>>
    decreases ops.len() - i,
{
    if i >= ops.len() {
        Seq::empty()
    } else {
        let rest = answers(ops, i + 1, positions, outcomes);
        if ops[i] matches FieldModel::Offset(Some(_)) {
            seq![Event::Embedded(Ok(positions[i])), Event::Serialized(outcomes[i])] + rest
        } else {
            seq![Event::Embedded(Ok(positions[i]))] + rest
        }
    }
}

/// A run in which every field can be appended succeeds, whatever comes of the tables.
pub proof fn law_run_succeeds<E>(
    run: RunModel<E>,
    i: int,
    positions: Seq<usize>,
    outcomes: Seq<Result<(), E>>,
)
    requires
        run.wf(),
        0 <= i <= run.ops.len(),
        run.phase == phase_from::<E>(run.ops.len(), i),
    ensures
        run_after(run, answers(run.ops, i, positions, outcomes)).action() == ActionModel::<
            E,
        >::Finish(Ok(())),
    decreases run.ops.len() - i,
{
    let events = answers(run.ops, i, positions, outcomes);
    if i < run.ops.len() {
        let rest = answers(run.ops, i + 1, positions, outcomes);
        let next = run.after(events[0]);
        if run.ops[i] matches FieldModel::Offset(Some(_)) {
            let after = next.after(events[1]);
            assert(events.drop_first().drop_first() =~= rest);
            assert(events.drop_first()[0] == events[1]);
            law_run_succeeds(after, i + 1, positions, outcomes);
            reveal_with_fuel(run_after, 3);
        } else {
            assert(events.drop_first() =~= rest);
            law_run_succeeds(next, i + 1, positions, outcomes);
        }
    }
}

/// A field is appended before the table that it leads to is written, and the table is linked from
/// where the field is.
pub proof fn law_table_is_linked_from_its_field<E>(run: RunModel<E>, i: usize, pos: usize)
    requires
        run.wf(),
        run.phase == Phase::<E>::Embed(i),
    ensures
        run.action() == match run.ops[i as int] {
            FieldModel::Value(value) => ActionModel::<E>::EmbedValue(value),
            FieldModel::Offset(_) => ActionModel::EmbedOffset,
        },
        run.ops[i as int] matches FieldModel::Offset(Some(device)) ==> run.after(
            Event::Embedded(Ok(pos)),
        ).action() == (ActionModel::<E>::SerializeDevice { device, offset_pos: pos }),
{
}

/// A field that cannot be appended ends the run: the error is reported, and stays whatever is
/// heard after that.
pub proof fn law_refused_field_ends_run<E>(
    run: RunModel<E>,
    i: usize,
    error: E,
    events: Seq<Event<E>>,
)
    requires
        run.wf(),
        run.phase == Phase::<E>::Embed(i),
    ensures
        run_after(run.after(Event::Embedded(Err(error))), events).action() == ActionModel::<
            E,
        >::Finish(Err(error)),
{
    lemma_failure_stays(run.after(Event::Embedded(Err(error))), error, events);
}

proof fn lemma_failure_stays<E>(run: RunModel<E>, error: E, events: Seq<Event<E>>)
    requires
        run.phase == Phase::Failed(error),
    ensures
        run_after(run, events).phase == Phase::Failed(error),
    decreases events.len(),
{
    if events.len() > 0 {
        lemma_failure_stays(run.after(events[0]), error, events.drop_first());
    }
}

/// A table that cannot be written is dropped: the run goes on as if it had been written.
pub proof fn law_refused_table_is_dropped<E>(run: RunModel<E>, i: usize, pos: usize, error: E)
    requires
        run.wf(),
        run.phase == Phase::<E>::Serialize(i, pos),
    ensures
        run.after(Event::Serialized(Err(error))) == run.after(Event::Serialized(Ok(()))),
{
}

/// Every event keeps a run in order.
pub proof fn law_runs_stay_in_order<E>(run: RunModel<E>, events: Seq<Event<E>>)
    requires
        run.wf(),
    ensures
        run_after(run, events).wf(),
        run_after(run, events).ops == run.ops,
    decreases events.len(),
{
    if events.len() > 0 {
        law_runs_stay_in_order(run.after(events[0]), events.drop_first());
    }
}

/// The fields are written in the order of their flags: each lands where a record of the format has
/// it.
pub proof fn law_fields_land_in_place(
    record: RecordModel,
    format: ValueFormat,
    plan: Map<u32, (u32, i32)>,
    k: int,
)
    requires
        0 <= k < FIELD_COUNT,
        format.has(k),
    ensures
        0 <= format.fields_before(k) < field_ops(record, format, FIELD_COUNT as int, plan).len(),
        field_ops(record, format, FIELD_COUNT as int, plan)[format.fields_before(k)] == field_op(
            record,
            k,
            plan,
        ),
{
    lemma_fields_before(format, k, k);
    lemma_fields_land_in_place(record, format, plan, k, FIELD_COUNT as int);
}

proof fn lemma_fields_land_in_place(
    record: RecordModel,
    format: ValueFormat,
    plan: Map<u32, (u32, i32)>,
    k: int,
    n: int,
)
    requires
        0 <= k < n,
        format.has(k),
    ensures
        0 <= format.fields_before(k) < field_ops(record, format, n, plan).len(),
        field_ops(record, format, n, plan).len() == format.fields_before(n),
        field_ops(record, format, n, plan)[format.fields_before(k)] == field_op(record, k, plan),
    decreases n,
{
    lemma_fields_before(format, k, n - 1);
    lemma_record_size(record, format, n - 1, plan);
    if k < n - 1 {
        lemma_fields_land_in_place(record, format, plan, k, n - 1);
    }
}

/// The 16 bits that are appended for a field: a value in two's complement, or a null offset.
pub open spec fn field_word(op: FieldModel) -> int {
    match op {
        FieldModel::Value(value) => if value < 0 {
            value + 0x1_0000
        } else {
            value as int
        },
        FieldModel::Offset(_) => 0,
    }
}

/// The bytes that are appended for a record, most significant byte of each field first. Offsets
/// are null until tables are linked.
pub open spec fn record_bytes(ops: Seq<FieldModel>) -> Seq<u8> {
    Seq::new(
        FIELD_LEN as nat * ops.len(),
        |i: int|
            if i % 2 == 0 {
                (field_word(ops[i / 2]) / 256) as u8
            } else {
                (field_word(ops[i / 2]) % 256) as u8
            },
    )
}

/// A record reads back as it was written: where the bytes of a record stand, a record of the new
/// format has the adjusted values of the fields that the format has, no other values, and no
/// tables but those that are linked later.
pub proof fn law_record_reads_back(
    record: RecordModel,
    plan: Map<u32, (u32, i32)>,
    written: RecordModel,
    k: int,
)
    requires
        0 <= k < FIELD_COUNT,
        ({
            let bytes = record_bytes(
                field_ops(record, written.format, FIELD_COUNT as int, plan),
            );
            &&& 0 <= written.offset
            &&& written.offset + bytes.len() <= written.data.len()
            &&& written.data.subrange(written.offset, written.offset + bytes.len()) == bytes
        }),
    ensures
        k < 4 ==> written.value(k) == if written.format.has(k) {
            Some(adjusted_value(record, k, plan))
        } else {
            None
        },
        k >= 4 ==> written.device(k) is None,
{
    let format = written.format;
    let ops = field_ops(record, format, FIELD_COUNT as int, plan);
    let bytes = record_bytes(ops);
    if format.has(k) {
        law_fields_land_in_place(record, format, plan, k);
        let n = format.fields_before(k);
        let pos = written.field_pos(k);
        let end = written.offset + bytes.len();
        assert(pos == written.offset + 2 * n);
        assert(bytes[2 * n] == (field_word(ops[n]) / 256) as u8);
        assert(bytes[2 * n + 1] == (field_word(ops[n]) % 256) as u8);
        assert(written.data.subrange(written.offset, end)[2 * n] == written.data[pos]);
        assert(written.data.subrange(written.offset, end)[2 * n + 1] == written.data[pos + 1]);
    }
}

/// The value that a reader goes by: a missing value counts as zero.
pub open spec fn value_or_zero(value: Option<i16>) -> i16 {
    match value {
        Some(v) => v,
        None => 0,
    }
}

/// A record that is written with the fields worth keeping gives a reader the adjusted values of
/// the record at hand, except where a value was not worth keeping and yet the plan has a delta
/// for it.
pub proof fn law_reader_gets_adjusted_values(
    record: RecordModel,
    strip_hints: bool,
    strip_empty: bool,
    format_plan: Option<Map<u32, (u32, i32)>>,
    plan: Map<u32, (u32, i32)>,
    written: RecordModel,
    k: int,
)
    requires
        0 <= k < 4,
        written.format.has(k) <==> keeps_field(record, k, strip_hints, strip_empty, format_plan),
        ({
            let bytes = record_bytes(
                field_ops(record, written.format, FIELD_COUNT as int, plan),
            );
            &&& 0 <= written.offset
            &&& written.offset + bytes.len() <= written.data.len()
            &&& written.data.subrange(written.offset, written.offset + bytes.len()) == bytes
        }),
        keeps_field(record, k, strip_hints, strip_empty, format_plan) || adjusted_value(
            record,
            k,
            plan,
        ) == 0,
    ensures
        value_or_zero(written.value(k)) == adjusted_value(record, k, plan),
{
    law_record_reads_back(record, plan, written, k);
}

/// Without a delta in the plan, the adjusted value is the value.
pub proof fn law_values_without_deltas_stay(
    record: RecordModel,
    k: int,
    plan: Map<u32, (u32, i32)>,
)
    requires
        !(record.device(k + 4) matches Some(Ok(device)) && plan_entry(plan, device) is Some),
    ensures
        adjusted_value(record, k, plan) == value_or_zero(record.value(k)),
{
}

/// The bytes of a record are as many as its format implies.
pub proof fn law_record_takes_its_bytes(
    record: RecordModel,
    format: ValueFormat,
    plan: Map<u32, (u32, i32)>,
)
    ensures
        record_bytes(field_ops(record, format, FIELD_COUNT as int, plan)).len() == FIELD_LEN
            * format.fields_before(FIELD_COUNT as int),
{
    law_record_size(record, format, plan);
}

/// Whether the bytes that are appended for `record` in the format of `written` stand where
/// `written` is.
pub open spec fn is_written(
    record: RecordModel,
    plan: Map<u32, (u32, i32)>,
    written: RecordModel,
) -> bool {
    let bytes = record_bytes(field_ops(record, written.format, FIELD_COUNT as int, plan));
    &&& 0 <= written.offset
    &&& written.offset + bytes.len() <= written.data.len()
    &&& written.data.subrange(written.offset, written.offset + bytes.len()) == bytes
}

/// For each value field that is written: if the field's table is a variation index that the plan
/// has an entry for, a reader finds the value at hand, or zero, plus the entry's delta. A sum that
/// does not fit is the nearest value that does, and of a delta that does not fit 16 bits only the
/// lower 16 count.
pub proof fn law_reader_finds_the_sum(
    record: RecordModel,
    plan: Map<u32, (u32, i32)>,
    written: RecordModel,
    k: int,
    outer: u16,
    inner: u16,
    ix: u32,
    carry: int,
)
    requires
        0 <= k < 4,
        written.format.has(k),
        is_written(record, plan, written),
        record.device(k + 4) == Some(
            Ok::<DeviceModel, ReadError>(DeviceModel::VariationIndex { outer, inner }),
        ),
        ix == outer * 65536 + inner,
        plan.contains_key(ix),
        -0x8000 <= plan[ix].1 + 0x1_0000 * carry < 0x8000,
    ensures
        ({
            let value = if record.value(k) is Some {
                record.value(k)->0 as int
            } else {
                0
            };
            let sum = value + plan[ix].1 + 0x1_0000 * carry;
            &&& written.value(k) is Some
            &&& -0x8000 <= sum < 0x8000 ==> written.value(k)->0 == sum
            &&& sum < -0x8000 ==> written.value(k)->0 == -0x8000
            &&& sum >= 0x8000 ==> written.value(k)->0 == 0x7FFF
        }),
{
    law_record_reads_back(record, plan, written, k);
    let delta = plan[ix].1;
    vstd::arithmetic::div_mod::lemma_mod_multiples_vanish(carry, delta + 0x8000, 0x1_0000);
    assert(low_half(delta) == delta + 0x1_0000 * carry);
}

/// For each value field that is written: if the field has no table, or one that cannot be read, or
/// a device table, or a variation index that the plan has no entry for, a reader finds the value at
/// hand, or zero.
pub proof fn law_reader_finds_the_value(
    record: RecordModel,
    plan: Map<u32, (u32, i32)>,
    written: RecordModel,
    k: int,
)
    requires
        0 <= k < 4,
        written.format.has(k),
        is_written(record, plan, written),
        !(record.device(k + 4) matches Some(Ok(DeviceModel::VariationIndex { outer, inner }))
            && plan.contains_key((outer * 65536 + inner) as u32)),
    ensures
        written.value(k) == if record.value(k) is Some {
            record.value(k)
        } else {
            Some(0i16)
        },
{
    law_record_reads_back(record, plan, written, k);
}

/// A value field that the new format lacks is not written.
pub proof fn law_reader_finds_no_other_value(
    record: RecordModel,
    plan: Map<u32, (u32, i32)>,
    written: RecordModel,
    k: int,
)
    requires
        0 <= k < 4,
        !written.format.has(k),
        is_written(record, plan, written),
    ensures
        written.value(k) is None,
{
}

/// The delta of a value is applied by the flag of its field, and any other flags give zero.
pub proof fn law_flags_choose_the_value(
    record: RecordModel,
    plan: Map<u32, (u32, i32)>,
    flag: u8,
    written: RecordModel,
    k: int,
)
    requires
        0 <= k < 4,
        written.format.has(k),
        is_written(record, plan, written),
    ensures
        k == 0 && flag == 0x01 || k == 1 && flag == 0x02 || k == 2 && flag == 0x04 || k == 3 && flag
            == 0x08 ==> written.value(k) == Some(adjusted_value_of(record, flag, plan)),
        flag != 0x01 && flag != 0x02 && flag != 0x04 && flag != 0x08 ==> adjusted_value_of(
            record,
            flag,
            plan,
        ) == 0,
{
    law_record_reads_back(record, plan, written, k);
}

/// Each offset that is written leads to the table that the same offset of the record at hand leads
/// to, and stays null if that is null or leads nowhere.
pub proof fn law_offsets_keep_their_tables(
    record: RecordModel,
    format: ValueFormat,
    plan: Map<u32, (u32, i32)>,
    k: int,
)
    requires
        4 <= k < FIELD_COUNT,
        format.has(k),
    ensures
        ({
            let ops = field_ops(record, format, FIELD_COUNT as int, plan);
            let op = ops[format.fields_before(k)];
            &&& record.device(k) matches Some(Ok(device)) ==> op == FieldModel::Offset(Some(device))
            &&& !(record.device(k) matches Some(Ok(_))) ==> op == FieldModel::Offset(None)
        }),
{
    law_fields_land_in_place(record, format, plan, k);
}

/// What is done in the course of a number of events, from the action at hand to the one after the
/// last event.
pub open spec fn actions_during<E>(run: RunModel<E>, events: Seq<Event<E>>) -> Seq<ActionModel<E>>
    decreases events.len(),
{
    if events.len() == 0 {
        seq![run.action()]
    } else {
        seq![run.action()] + actions_during(run.after(events[0]), events.drop_first())
    }
}

/// What has to be done for the fields from the `i`th on: each is appended, and right after an
/// offset with a table comes the table, to be linked from where the offset is.
pub open spec fn actions_for<E>(
    ops: Seq<FieldModel>,
    i: int,
    positions: Seq<usize>,
) -> Seq<ActionModel<E>>
    decreases ops.len() - i,
{
    if i >= ops.len() {
        seq![ActionModel::Finish(Ok(()))]
    } else {
        let rest = actions_for(ops, i + 1, positions);
        match ops[i] {
            FieldModel::Value(value) => seq![ActionModel::EmbedValue(value)] + rest,
            FieldModel::Offset(None) => seq![ActionModel::EmbedOffset] + rest,
            FieldModel::Offset(Some(device)) => seq![
                ActionModel::EmbedOffset,
                ActionModel::SerializeDevice { device, offset_pos: positions[i] },
            ] + rest,
        }
    }
}

/// A run whose fields can all be appended does, in order, what has to be done for each field, no
/// more and no less, whatever comes of the tables, and then succeeds.
pub proof fn law_run_writes_every_field<E>(
    ops: Seq<FieldModel>,
    positions: Seq<usize>,
    outcomes: Seq<Result<(), E>>,
)
    requires
        ops.len() <= FIELD_COUNT,
    ensures
        actions_during(
            RunModel::<E> { ops, phase: phase_from(ops.len(), 0) },
            answers(ops, 0, positions, outcomes),
        ) == actions_for::<E>(ops, 0, positions),
{
    lemma_run_writes_every_field(ops, 0, positions, outcomes);
}

proof fn lemma_run_writes_every_field<E>(
    ops: Seq<FieldModel>,
    i: int,
    positions: Seq<usize>,
    outcomes: Seq<Result<(), E>>,
)
    requires
        ops.len() <= FIELD_COUNT,
        0 <= i <= ops.len(),
    ensures
        actions_during(
            RunModel::<E> { ops, phase: phase_from(ops.len(), i) },
            answers(ops, i, positions, outcomes),
        ) == actions_for::<E>(ops, i, positions),
    decreases ops.len() - i,
{
    let run = RunModel::<E> { ops, phase: phase_from(ops.len(), i) };
    let events = answers(ops, i, positions, outcomes);
    if i < ops.len() {
        let rest = answers(ops, i + 1, positions, outcomes);
        let next = run.after(events[0]);
        lemma_run_writes_every_field(ops, i + 1, positions, outcomes);
        let last = RunModel::<E> { ops, phase: phase_from(ops.len(), i + 1) };
        if ops[i] matches FieldModel::Offset(Some(_)) {
            assert(events.drop_first().drop_first() =~= rest);
            assert(events.drop_first()[0] == events[1]);
            assert(next.after(events[1]) == last);
            assert(actions_during(next, events.drop_first()) == seq![next.action()]
                + actions_during(last, rest));
            assert(actions_during(run, events) =~= actions_for::<E>(ops, i, positions));
        } else {
            assert(events.drop_first() =~= rest);
            assert(next == last);
            assert(actions_during(run, events) =~= actions_for::<E>(ops, i, positions));
        }
    }
}

/// A run that is about to append the `i`th field, and cannot, fails with the error and does nothing
/// else.
pub proof fn law_run_stops_at_a_refused_field<E>(
    ops: Seq<FieldModel>,
    i: int,
    error: E,
)
    requires
        0 <= i < ops.len() <= FIELD_COUNT,
    ensures
        actions_during(
            RunModel::<E> { ops, phase: phase_from(ops.len(), i) },
            seq![Event::Embedded(Err(error))],
        ) == seq![
            match ops[i] {
                FieldModel::Value(value) => ActionModel::EmbedValue(value),
                FieldModel::Offset(_) => ActionModel::EmbedOffset,
            },
            ActionModel::Finish(Err(error)),
        ],
{
    let run = RunModel::<E> { ops, phase: phase_from(ops.len(), i) };
    let events = seq![Event::<E>::Embedded(Err(error))];
    let failed = run.after(events[0]);
    assert(events.drop_first().len() == 0);
    assert(actions_during(failed, events.drop_first()) == seq![failed.action()]);
}

/// An event that does not answer the action at hand changes nothing, and neither does any event
/// once the run is over.
pub proof fn law_events_out_of_turn_change_nothing<E>(
    run: RunModel<E>,
    embedded: Result<usize, E>,
    serialized: Result<(), E>,
)
    ensures
        !(run.action() matches ActionModel::SerializeDevice { .. }) ==> run.after(
            Event::Serialized(serialized),
        ) == run,
        run.action() matches ActionModel::SerializeDevice { .. } ==> run.after(
            Event::Embedded(embedded),
        ) == run,
        run.action() matches ActionModel::Finish(_) ==> run.after(Event::Embedded(embedded)) == run,
{
}

} // verus!
