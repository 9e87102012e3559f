//! Collection of the variation indices that value records refer to.
use super::plan::{combined_index, combined_index_spec};
use super::value_format::{ValueFormat, FIELD_COUNT};
use super::value_record::{
    view_device, DeviceModel, DeviceOrVariationIndex, RecordModel, ValueRecord,
};
use crate::error::ReadError;
use vstd::prelude::*;
use write_fonts::read::collections::IntSet;

verus! {

/// `IntSet`, of which only the members matter.
#[verifier::external_type_specification]
#[verifier::external_body]
#[verifier::reject_recursive_types(T)]
pub struct ExIntSet<T>(IntSet<T>);

/// The members of a set of variation indices.
pub uninterp spec fn members(set: IntSet<u32>) -> Set<u32>;

/// `IntSet::insert`: adds a member. It also tells whether the member is new, which plays no role.
#[verifier::external_body]
fn insert_index(set: &mut IntSet<u32>, index: u32)
    ensures
        members(*final(set)) == members(*old(set)).insert(index),
{
    set.insert(index);
}

/// What a list of tables holds.
pub open spec fn view_devices(devices: Seq<DeviceOrVariationIndex<'_>>) -> Seq<DeviceModel> {
    Seq::new(devices.len(), |i: int| devices[i]@)
}

/// The tables that those of the first `n` fields lead to that hold offsets, in order. Null offsets
/// and offsets that lead nowhere are passed over.
pub open spec fn devices_spec(record: RecordModel, n: int) -> Seq<DeviceModel>
    decreases n,
{
    if n <= 4 {
        Seq::empty()
    } else {
        match record.device(n - 1) {
            Some(Ok(device)) => devices_spec(record, n - 1).push(device),
            _ => devices_spec(record, n - 1),
        }
    }
}

/// `set` with the variation index added that a table refers to, if it does.
pub open spec fn with_index(set: Set<u32>, device: DeviceModel) -> Set<u32> {
    match device {
        DeviceModel::VariationIndex { outer, inner } => set.insert(
            combined_index_spec(outer, inner),
        ),
        DeviceModel::Device(_) => set,
    }
}

/// `set` with the variation indices added that the first `n` tables refer to.
pub open spec fn with_indices(set: Set<u32>, devices: Seq<DeviceModel>, n: int) -> Set<u32>
    decreases n,
{
    if n <= 0 {
        set
    } else {
        with_index(with_indices(set, devices, n - 1), devices[n - 1])
    }
}

impl<'a> DeviceOrVariationIndex<'a> {
    /// Adds the variation index that the table refers to. A device table refers to none.
    pub fn collect_variation_indices(&self, varidx_set: &mut IntSet<u32>)
        ensures
            members(*final(varidx_set)) == with_index(members(*old(varidx_set)), self@),
    {
        if let DeviceOrVariationIndex::VariationIndex { outer, inner } = *self {
            insert_index(varidx_set, combined_index(outer, inner));
        }
    }
}

/// Appends a table, if there is one that can be read.
fn push_device<'a>(
    devices: &mut Vec<DeviceOrVariationIndex<'a>>,
    device: Option<Result<DeviceOrVariationIndex<'a>, ReadError>>,
)
    ensures
        view_devices(final(devices)@) == match view_device(device) {
            Some(Ok(device)) => view_devices(old(devices)@).push(device),
            _ => view_devices(old(devices)@),
        },
{
    if let Some(Ok(device)) = device {
        devices.push(device);
        assert(view_devices(devices@) =~= view_devices(old(devices)@).push(device@));
    }
}

impl<'a> ValueRecord<'a> {
    /// The device and variation index tables that the record refers to, in the order of its
    /// fields.
    pub fn devices(&self) -> (r: Vec<DeviceOrVariationIndex<'a>>)
        ensures
            view_devices(r@) == devices_spec(self@, FIELD_COUNT as int),
    {
        let mut devices: Vec<DeviceOrVariationIndex<'a>> = Vec::new();
        proof {
            assert(view_devices(devices@) =~= devices_spec(self@, 4));
            reveal_with_fuel(devices_spec, 5);
        }
        if !self.format().intersects(ValueFormat::ANY_DEVICE_OR_VARIDX) {
            return devices;
        }
        push_device(&mut devices, self.x_placement_device());
        push_device(&mut devices, self.y_placement_device());
        push_device(&mut devices, self.x_advance_device());
        push_device(&mut devices, self.y_advance_device());
        devices
    }

    /// Adds the variation indices that the tables of the record refer to.
    pub fn collect_variation_indices(&self, varidx_set: &mut IntSet<u32>)
        ensures
            members(*final(varidx_set)) == with_indices(
                members(*old(varidx_set)),
                devices_spec(self@, FIELD_COUNT as int),
                devices_spec(self@, FIELD_COUNT as int).len() as int,
            ),
    {
        let devices = self.devices();
        let mut i: usize = 0;
        while i < devices.len()
            invariant
                i <= devices@.len(),
                members(*varidx_set) == with_indices(
                    members(*old(varidx_set)),
                    view_devices(devices@),
                    i as int,
                ),
            decreases devices@.len() - i,
        {
            devices[i].collect_variation_indices(varidx_set);
            i += 1;
        }
    }
}

/// Whether field `k` leads to a table that refers to a variation index.
pub open spec fn leads_to(record: RecordModel, k: int, index: u32) -> bool {
    record.device(k) matches Some(Ok(DeviceModel::VariationIndex { outer, inner }))
        && combined_index_spec(outer, inner) == index
}

/// Collecting adds the variation indices that fields of the record lead to, and nothing else.
pub proof fn law_collects_what_is_referred_to(set: Set<u32>, record: RecordModel, index: u32)
    ensures
        with_indices(
            set,
            devices_spec(record, FIELD_COUNT as int),
            devices_spec(record, FIELD_COUNT as int).len() as int,
        ).contains(index) <==> set.contains(index) || exists|k: int|
            4 <= k < FIELD_COUNT && #[trigger] leads_to(record, k, index),
{
    lemma_collects_from(set, record, FIELD_COUNT as int, index);
}

proof fn lemma_collects_from(set: Set<u32>, record: RecordModel, n: int, index: u32)
    requires
        n <= FIELD_COUNT,
    ensures
        with_indices(
            set,
            devices_spec(record, n),
            devices_spec(record, n).len() as int,
        ).contains(index) <==> set.contains(index) || exists|k: int|
            4 <= k < n && #[trigger] leads_to(record, k, index),
    decreases n,
{
    if n > 4 {
        lemma_collects_from(set, record, n - 1, index);
        let before = devices_spec(record, n - 1);
        if let Some(Ok(device)) = record.device(n - 1) {
            lemma_prefix(set, before, before.push(device), before.len() as int);
        }
        if leads_to(record, n - 1, index) {
            assert(exists|k: int| 4 <= k < n && #[trigger] leads_to(record, k, index));
        }
    }
}

proof fn lemma_prefix(set: Set<u32>, a: Seq<DeviceModel>, b: Seq<DeviceModel>, n: int)
    requires
        n <= a.len() <= b.len(),
        forall|i: int| 0 <= i < n ==> a[i] == b[i],
    ensures
        with_indices(set, a, n) == with_indices(set, b, n),
    decreases n,
{
    if n > 0 {
        lemma_prefix(set, a, b, n - 1);
    }
}

/// A record without fields that hold offsets adds nothing.
pub proof fn law_nothing_to_collect(record: RecordModel)
    requires
        forall|k: int| 4 <= k < FIELD_COUNT ==> !record.format.has(k),
    ensures
        devices_spec(record, FIELD_COUNT as int) == Seq::<DeviceModel>::empty(),
{
    reveal_with_fuel(devices_spec, 5);
}

/// Collecting adds 65536 times the outer index plus the inner index for every variation index that
/// a field leads to, keeps what was there, and adds nothing else.
pub proof fn law_collects_each_variation_index(
    set: Set<u32>,
    record: RecordModel,
    k: int,
    outer: u16,
    inner: u16,
    ix: u32,
    other: u32,
)
    requires
        4 <= k < FIELD_COUNT,
        record.device(k) == Some(
            Ok::<DeviceModel, ReadError>(DeviceModel::VariationIndex { outer, inner }),
        ),
        ix == outer * 65536 + inner,
    ensures
        ({
            let devices = devices_spec(record, FIELD_COUNT as int);
            let after = with_indices(set, devices, devices.len() as int);
            &&& after.contains(ix)
            &&& set.contains(other) ==> after.contains(other)
            &&& after.contains(other) && !set.contains(other) ==> exists|j: int|
                4 <= j < FIELD_COUNT && (#[trigger] record.device(j) matches Some(
                    Ok(DeviceModel::VariationIndex { outer: o, inner: i }),
                ) && other == o * 65536 + i)
        }),
{
    law_collects_what_is_referred_to(set, record, ix);
    law_collects_what_is_referred_to(set, record, other);
    assert(leads_to(record, k, ix));
    let devices = devices_spec(record, FIELD_COUNT as int);
    if with_indices(set, devices, devices.len() as int).contains(other) && !set.contains(other) {
        let j = choose|j: int| 4 <= j < FIELD_COUNT && #[trigger] leads_to(record, j, other);
        assert(record.device(j) matches Some(Ok(DeviceModel::VariationIndex { outer: o, inner: i }))
            && other == o * 65536 + i);
    }
}

/// Collecting from one table adds its variation index, if it is one.
pub proof fn law_collects_from_one_table(
    set: Set<u32>,
    outer: u16,
    inner: u16,
    ix: u32,
    data: Seq<u8>,
)
    requires
        ix == outer * 65536 + inner,
    ensures
        with_index(set, DeviceModel::VariationIndex { outer, inner }) == set.insert(ix),
        with_index(set, DeviceModel::Device(data)) == set,
{
}

/// The tables of a record come in the order of its fields, none is left out, and none is added.
pub proof fn law_devices_come_in_order(record: RecordModel, n: int)
    requires
        4 <= n < FIELD_COUNT,
    ensures
        devices_spec(record, 4).len() == 0,
        record.device(n) matches Some(Ok(device)) ==> devices_spec(record, n + 1) == devices_spec(
            record,
            n,
        ).push(device),
        !(record.device(n) matches Some(Ok(_))) ==> devices_spec(record, n + 1) == devices_spec(
            record,
            n,
        ),
{
}

} // verus!
