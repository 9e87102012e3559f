use skeravar::error::ReadError;
use skeravar::gpos::effective_format::{compute_effective_format, update_var_flag};
use skeravar::gpos::plan::{combined_index, Plan, NO_VARIATION_INDEX};
use skeravar::gpos::subset::{
    apply_value_delta, subset_fields, Action, Event, FieldOp, SubsetRun,
};
use skeravar::gpos::value_format::ValueFormat;
use skeravar::gpos::value_record::{DeviceOrVariationIndex, ValueRecord};
use std::collections::HashMap;
use write_fonts::read::collections::IntSet;
use write_fonts::read::tables::gpos::ValueFormat as Flags;

/// All eight fields, a variation index table at 16 and a device table at 22.
const FULL: [u8; 30] = [
    0x00, 0x0A, 0xFF, 0xEC, 0x00, 0x00, 0x01, 0x00, // values 10, -20, 0, 256
    0x00, 0x10, 0x00, 0x16, 0x00, 0x00, 0x00, 0x19, // offsets 16, 22, 0, 25
    0x00, 0x02, 0x00, 0x03, 0x80, 0x00, // variation index 2, 3
    0x00, 0x0C, 0x00, 0x0D, 0x00, 0x01, 0x12, 0x34, // device
];

const ALL: ValueFormat = ValueFormat { bits: 0xFF };

fn plan(entries: &[(u32, (u32, i32))]) -> Plan {
    let mut layout_varidx_delta_map = HashMap::new();
    for (index, entry) in entries {
        layout_varidx_delta_map.insert(*index, *entry);
    }
    Plan { layout_varidx_delta_map }
}

fn describe(device: Option<Result<DeviceOrVariationIndex<'_>, ReadError>>) -> String {
    match device {
        None => "none".to_string(),
        Some(Err(error)) => format!("{error:?}"),
        Some(Ok(DeviceOrVariationIndex::Device(data))) => format!("device {data:?}"),
        Some(Ok(DeviceOrVariationIndex::VariationIndex { outer, inner })) => {
            format!("index {outer} {inner}")
        }
    }
}

fn describe_field(op: &FieldOp<'_>) -> String {
    match op {
        FieldOp::Value(value) => format!("value {value}"),
        FieldOp::Offset(device) => format!("offset {}", describe(device.map(Ok))),
    }
}

fn describe_action(action: &Action<'_, u8>) -> String {
    match action {
        Action::EmbedValue(value) => format!("value {value}"),
        Action::EmbedOffset => "offset".to_string(),
        Action::SerializeDevice { device, offset_pos } => {
            format!("{} from {offset_pos}", describe(Some(Ok(*device))))
        }
        Action::Finish(outcome) => format!("{outcome:?}"),
    }
}

#[test]
fn formats_are_sets_of_flags() {
    let format = ValueFormat::empty();
    assert!(format.is_empty());
    let format = format.with(ValueFormat::Y_PLACEMENT).with(ValueFormat::X_ADVANCE_DEVICE);
    assert_eq!(format, ValueFormat { bits: 0x42 });
    assert!(!format.is_empty());
    assert!(format.contains(ValueFormat::Y_PLACEMENT));
    assert!(!format.contains(ValueFormat::X_PLACEMENT));
    assert!(!format.contains(ValueFormat::X_PLACEMENT | ValueFormat::Y_PLACEMENT));
    assert!(format.intersects(ValueFormat::X_PLACEMENT | ValueFormat::Y_PLACEMENT));
    assert!(format.intersects(ValueFormat::ANY_DEVICE_OR_VARIDX));
    let format = format.without(ValueFormat::X_ADVANCE_DEVICE);
    assert_eq!(format, ValueFormat { bits: 0x02 });
    assert!(!format.intersects(ValueFormat::ANY_DEVICE_OR_VARIDX));
}

#[test]
fn flags_are_those_of_the_table_format() {
    let pairs = [
        (ValueFormat::X_PLACEMENT, Flags::X_PLACEMENT),
        (ValueFormat::Y_PLACEMENT, Flags::Y_PLACEMENT),
        (ValueFormat::X_ADVANCE, Flags::X_ADVANCE),
        (ValueFormat::Y_ADVANCE, Flags::Y_ADVANCE),
        (ValueFormat::X_PLACEMENT_DEVICE, Flags::X_PLACEMENT_DEVICE),
        (ValueFormat::Y_PLACEMENT_DEVICE, Flags::Y_PLACEMENT_DEVICE),
        (ValueFormat::X_ADVANCE_DEVICE, Flags::X_ADVANCE_DEVICE),
        (ValueFormat::Y_ADVANCE_DEVICE, Flags::Y_ADVANCE_DEVICE),
        (ValueFormat::ANY_DEVICE_OR_VARIDX, Flags::ANY_DEVICE_OR_VARIDX),
    ];
    for (flag, expected) in pairs {
        assert_eq!(flag as u16, expected.bits());
    }
    assert_eq!(NO_VARIATION_INDEX, skrifa::raw::tables::variations::NO_VARIATION_INDEX);
}

#[test]
fn all_fields_are_read() {
    let record = ValueRecord::new(&FULL, 0, ALL);
    assert_eq!(record.format(), ALL);
    assert_eq!(record.x_placement(), Some(10));
    assert_eq!(record.y_placement(), Some(-20));
    assert_eq!(record.x_advance(), Some(0));
    assert_eq!(record.y_advance(), Some(256));
    assert_eq!(describe(record.x_placement_device()), "index 2 3");
    let device = format!("device {:?}", &FULL[22..]);
    assert_eq!(describe(record.y_placement_device()), device);
    assert_eq!(describe(record.x_advance_device()), "none");
    // The header of a table at 25 would end beyond the data.
    assert_eq!(describe(record.y_advance_device()), "OutOfBounds");
}

#[test]
fn absent_fields_take_no_room() {
    let format = ValueFormat { bits: ValueFormat::Y_PLACEMENT | ValueFormat::X_PLACEMENT_DEVICE };
    let record = ValueRecord::new(&FULL, 6, format);
    assert_eq!(record.x_placement(), None);
    assert_eq!(record.y_placement(), Some(256));
    assert_eq!(record.x_advance(), None);
    assert_eq!(record.y_advance(), None);
    assert_eq!(describe(record.x_placement_device()), "index 2 3");
    assert_eq!(describe(record.y_placement_device()), "none");
    assert_eq!(describe(record.x_advance_device()), "none");
    assert_eq!(describe(record.y_advance_device()), "none");
}

#[test]
fn fields_follow_one_another_in_every_format() {
    let data: Vec<u8> = (0..20).map(|i| if i % 2 == 0 { 0x11 } else { i }).collect();
    for bits in 0..=255u8 {
        let record = ValueRecord::new(&data, 2, ValueFormat { bits });
        let values = [
            record.x_placement(),
            record.y_placement(),
            record.x_advance(),
            record.y_advance(),
        ];
        let mut pos = 2;
        for (k, value) in values.iter().enumerate() {
            if bits & (1 << k) != 0 {
                assert_eq!(*value, Some(0x1100 + pos + 1));
                pos += 2;
            } else {
                assert_eq!(*value, None);
            }
        }
    }
}

#[test]
fn records_that_are_cut_off() {
    let record = ValueRecord::new(&FULL[..3], 0, ALL);
    assert_eq!(record.x_placement(), Some(10));
    assert_eq!(record.y_placement(), None);
    assert_eq!(describe(record.x_placement_device()), "OutOfBounds");
    let record = ValueRecord::new(&FULL, 0xFFFF_FFEF, ALL);
    assert_eq!(record.x_placement(), None);
    assert_eq!(describe(record.y_advance_device()), "OutOfBounds");
}

#[test]
fn effective_format_without_plan() {
    let record = ValueRecord::new(&FULL, 0, ALL);
    // Null offsets are dropped, broken ones are kept.
    assert_eq!(compute_effective_format(&record, false, false, None).bits, 0xBF);
    assert_eq!(compute_effective_format(&record, false, true, None).bits, 0xBB);
    assert_eq!(compute_effective_format(&record, true, false, None).bits, 0x0F);
    assert_eq!(compute_effective_format(&record, true, true, None).bits, 0x0B);
}

#[test]
fn effective_format_with_plan() {
    let record = ValueRecord::new(&FULL, 0, ALL);
    let index = combined_index(2, 3);
    assert_eq!(index, 0x20003);
    let kept = plan(&[(index, (7, 5))]);
    // The variation index is in the plan, and the device table is kept under any plan.
    assert_eq!(compute_effective_format(&record, false, false, Some(&kept)).bits, 0x3F);
    assert_eq!(compute_effective_format(&record, true, true, Some(&kept)).bits, 0x0B);
    let pinned = plan(&[(index, (NO_VARIATION_INDEX, 5))]);
    assert_eq!(compute_effective_format(&record, false, false, Some(&pinned)).bits, 0x2F);
    let empty = plan(&[]);
    assert_eq!(compute_effective_format(&record, false, true, Some(&empty)).bits, 0x2B);
}

#[test]
fn effective_format_is_part_of_the_format() {
    let kept = plan(&[(0x20003, (7, 5))]);
    for bits in 0..=255u8 {
        let record = ValueRecord::new(&FULL, 0, ValueFormat { bits });
        for strip_hints in [false, true] {
            for strip_empty in [false, true] {
                let free = compute_effective_format(&record, strip_hints, strip_empty, None);
                assert_eq!(free.bits & !bits, 0);
                let planned =
                    compute_effective_format(&record, strip_hints, strip_empty, Some(&kept));
                assert_eq!(planned.bits & !free.bits, 0);
                if strip_hints {
                    assert_eq!(free.bits & ValueFormat::ANY_DEVICE_OR_VARIDX, 0);
                }
            }
        }
    }
}

#[test]
fn variation_flags_are_updated() {
    let flag = ValueFormat::X_PLACEMENT_DEVICE;
    let index = Some(Ok(DeviceOrVariationIndex::VariationIndex { outer: 2, inner: 3 }));
    let device = Some(Ok(DeviceOrVariationIndex::Device(&FULL[22..])));
    let other = Some(Ok(DeviceOrVariationIndex::VariationIndex { outer: 3, inner: 2 }));
    let broken = Some(Err(ReadError::OutOfBounds));
    let kept = plan(&[(0x20003, (7, 5))]);
    let pinned = plan(&[(0x20003, (NO_VARIATION_INDEX, 5))]);
    let cases = [
        (index, None, 0x01, 0x11),
        (device, None, 0x01, 0x11),
        (broken, None, 0x01, 0x11),
        (None, None, 0x01, 0x11),
        (index, Some(&kept), 0x01, 0x11),
        (other, Some(&kept), 0x11, 0x01),
        (index, Some(&pinned), 0x11, 0x01),
        (device, Some(&kept), 0x01, 0x11),
        (device, Some(&pinned), 0x11, 0x11),
        (broken, Some(&kept), 0x11, 0x11),
        (None, Some(&kept), 0x01, 0x01),
    ];
    for (value, plan, before, after) in cases {
        let mut format = ValueFormat { bits: before };
        update_var_flag(value, flag, &mut format, plan);
        assert_eq!(format.bits, after);
    }
}

#[test]
fn deltas_are_applied_to_values() {
    let record = ValueRecord::new(&FULL, 0, ALL);
    let p = plan(&[(0x20003, (7, 5)), (0x0C000D, (1, 100))]);
    assert_eq!(apply_value_delta(&record, ValueFormat::X_PLACEMENT, &p), 15);
    // Device tables carry no delta of the plan.
    assert_eq!(apply_value_delta(&record, ValueFormat::Y_PLACEMENT, &p), -20);
    assert_eq!(apply_value_delta(&record, ValueFormat::X_ADVANCE, &p), 0);
    assert_eq!(apply_value_delta(&record, ValueFormat::Y_ADVANCE, &p), 256);
    assert_eq!(apply_value_delta(&record, ValueFormat::X_PLACEMENT_DEVICE, &p), 0);
    assert_eq!(apply_value_delta(&record, 0x03, &p), 0);
    assert_eq!(apply_value_delta(&record, ValueFormat::X_PLACEMENT, &plan(&[])), 10);
    // The delta counts even if nothing is left to vary.
    let p = plan(&[(0x20003, (NO_VARIATION_INDEX, -5))]);
    assert_eq!(apply_value_delta(&record, ValueFormat::X_PLACEMENT, &p), 5);
}

#[test]
fn deltas_saturate_and_are_cut_to_sixteen_bits() {
    let record = ValueRecord::new(&FULL, 0, ALL);
    for (delta, expected) in [
        (32767, 32767),
        (32757, 32767),
        (32756, 32766),
        (-32768, -32758),
        (32768, -32758),
        (0x10001, 11),
        (-0x10001, 9),
    ] {
        let p = plan(&[(0x20003, (7, delta))]);
        assert_eq!(apply_value_delta(&record, ValueFormat::X_PLACEMENT, &p), expected);
    }
}

#[test]
fn missing_values_count_as_zero() {
    let format = ValueFormat { bits: ValueFormat::X_PLACEMENT_DEVICE };
    let record = ValueRecord::new(&FULL, 8, format);
    let p = plan(&[(0x20003, (7, 5))]);
    assert_eq!(apply_value_delta(&record, ValueFormat::X_PLACEMENT, &p), 5);
    assert_eq!(apply_value_delta(&record, ValueFormat::Y_PLACEMENT, &p), 0);
}

#[test]
fn fields_of_a_subset_record() {
    let record = ValueRecord::new(&FULL, 0, ALL);
    let p = plan(&[(0x20003, (7, 5))]);
    let fields: Vec<String> = subset_fields(&record, &p, ALL).iter().map(describe_field).collect();
    let device = format!("offset device {:?}", &FULL[22..]);
    let expected = [
        "value 15",
        "value -20",
        "value 0",
        "value 256",
        "offset index 2 3",
        device.as_str(),
        "offset none",
        "offset none",
    ];
    assert_eq!(fields, expected);
    assert!(subset_fields(&record, &p, ValueFormat::empty()).is_empty());
}

#[test]
fn record_has_the_size_of_its_format() {
    let p = plan(&[(0x20003, (7, 5))]);
    for source in [0u8, 0x0F, 0x15, 0xFF] {
        let record = ValueRecord::new(&FULL, 0, ValueFormat { bits: source });
        for bits in 0..=255u8 {
            let fields = subset_fields(&record, &p, ValueFormat { bits });
            assert_eq!(fields.len(), bits.count_ones() as usize);
        }
    }
}

#[test]
fn record_reads_back_as_written() {
    let record = ValueRecord::new(&FULL, 0, ALL);
    let p = plan(&[(0x20003, (7, 5))]);
    let values = [15, -20, 0, 256];
    for bits in 0..=255u8 {
        let mut bytes = vec![0xEE; 3];
        for field in subset_fields(&record, &p, ValueFormat { bits }) {
            match field {
                FieldOp::Value(value) => bytes.extend_from_slice(&value.to_be_bytes()),
                FieldOp::Offset(_) => bytes.extend_from_slice(&[0, 0]),
            }
        }
        let written = ValueRecord::new(&bytes, 3, ValueFormat { bits });
        let read = [
            written.x_placement(),
            written.y_placement(),
            written.x_advance(),
            written.y_advance(),
        ];
        for k in 0..4 {
            let expected = if bits & (1 << k) != 0 { Some(values[k]) } else { None };
            assert_eq!(read[k], expected);
        }
        assert_eq!(describe(written.x_placement_device()), "none");
        assert_eq!(describe(written.y_advance_device()), "none");
    }
}

#[test]
fn run_performs_the_actions_in_order() {
    let record = ValueRecord::new(&FULL, 0, ALL);
    let p = plan(&[(0x20003, (7, 5))]);
    let format = ValueFormat { bits: 0x53 };
    for outcome in [Ok(()), Err(9u8)] {
        let mut run = SubsetRun::start(&record, &p, format);
        assert_eq!(describe_action(&run.action()), "value 15");
        run.handle(Event::Embedded(Ok(100)));
        assert_eq!(describe_action(&run.action()), "value -20");
        run.handle(Event::Embedded(Ok(102)));
        assert_eq!(describe_action(&run.action()), "offset");
        run.handle(Event::Embedded(Ok(104)));
        assert_eq!(describe_action(&run.action()), "index 2 3 from 104");
        // A table that cannot be written is dropped.
        run.handle(Event::Serialized(outcome));
        assert_eq!(describe_action(&run.action()), "offset");
        run.handle(Event::Embedded(Ok(106)));
        assert_eq!(describe_action(&run.action()), "Ok(())");
    }
}

#[test]
fn refused_field_ends_the_run() {
    let record = ValueRecord::new(&FULL, 0, ALL);
    let p = plan(&[]);
    for failing in 0..2 {
        let mut run = SubsetRun::start(&record, &p, ValueFormat { bits: 0x41 });
        for _ in 0..failing {
            run.handle(Event::Embedded(Ok(0)));
        }
        run.handle(Event::Embedded(Err(3u8)));
        assert_eq!(describe_action(&run.action()), "Err(3)");
        run.handle(Event::Embedded(Ok(0)));
        assert_eq!(describe_action(&run.action()), "Err(3)");
    }
}

#[test]
fn run_of_an_empty_format_is_done_at_once() {
    let record = ValueRecord::new(&FULL, 0, ALL);
    let run: SubsetRun<u8> = SubsetRun::start(&record, &plan(&[]), ValueFormat::empty());
    assert_eq!(describe_action(&run.action()), "Ok(())");
}

#[test]
fn events_out_of_turn_change_nothing() {
    let record = ValueRecord::new(&FULL, 0, ALL);
    let mut run = SubsetRun::start(&record, &plan(&[]), ValueFormat { bits: 0x10 });
    run.handle(Event::Serialized(Err(1u8)));
    assert_eq!(describe_action(&run.action()), "offset");
    run.handle(Event::Embedded(Ok(4)));
    run.handle(Event::Embedded(Err(2u8)));
    assert_eq!(describe_action(&run.action()), "index 2 3 from 4");
    run.handle(Event::Serialized(Ok(())));
    assert_eq!(describe_action(&run.action()), "Ok(())");
}

#[test]
fn variation_indices_are_collected() {
    let record = ValueRecord::new(&FULL, 0, ALL);
    assert_eq!(record.devices().len(), 2);
    let mut set: IntSet<u32> = IntSet::empty();
    set.insert(77);
    record.collect_variation_indices(&mut set);
    let members: Vec<u32> = set.iter().collect();
    assert_eq!(members, [77, 0x20003]);
    record.collect_variation_indices(&mut set);
    assert_eq!(set.len(), 2);
}

#[test]
fn records_without_offsets_have_nothing_to_collect() {
    let record = ValueRecord::new(&FULL, 0, ValueFormat { bits: 0x0F });
    assert!(record.devices().is_empty());
    let mut set: IntSet<u32> = IntSet::empty();
    record.collect_variation_indices(&mut set);
    assert!(set.is_empty());
    // A device table refers to no variation index.
    let record = ValueRecord::new(&FULL, 10, ValueFormat { bits: 0x20 });
    assert_eq!(record.devices().len(), 1);
    record.collect_variation_indices(&mut set);
    assert!(set.is_empty());
}

#[test]
fn inverted_sets_keep_their_members() {
    let record = ValueRecord::new(&FULL, 0, ALL);
    let mut set: IntSet<u32> = IntSet::all();
    set.remove(0x20003);
    set.remove(5);
    record.collect_variation_indices(&mut set);
    assert!(set.contains(0x20003));
    assert!(!set.contains(5));
}

#[test]
fn reader_gets_adjusted_values() {
    let p = plan(&[(0x20003, (7, 5))]);
    let record = ValueRecord::new(&FULL, 0, ALL);
    for strip_hints in [false, true] {
        for strip_empty in [false, true] {
            let format = compute_effective_format(&record, strip_hints, strip_empty, Some(&p));
            let mut bytes = Vec::new();
            for field in subset_fields(&record, &p, format) {
                match field {
                    FieldOp::Value(value) => bytes.extend_from_slice(&value.to_be_bytes()),
                    FieldOp::Offset(_) => bytes.extend_from_slice(&[0, 0]),
                }
            }
            let written = ValueRecord::new(&bytes, 0, format);
            assert_eq!(written.x_placement().unwrap_or_default(), 15);
            assert_eq!(written.y_placement().unwrap_or_default(), -20);
            assert_eq!(written.x_advance().unwrap_or_default(), 0);
            assert_eq!(written.y_advance().unwrap_or_default(), 256);
        }
    }
    // A zero is stripped even if the plan has a delta for it.
    let mut data = FULL;
    data[1] = 0;
    let record = ValueRecord::new(&data, 0, ALL);
    assert_eq!(apply_value_delta(&record, ValueFormat::X_PLACEMENT, &p), 5);
    let format = compute_effective_format(&record, false, true, Some(&p));
    assert!(!format.contains(ValueFormat::X_PLACEMENT));
}
