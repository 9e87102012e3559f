//! What a subsetting plan says about variations.
use super::value_record::{DeviceModel, DeviceOrVariationIndex};
use std::collections::HashMap;
use vstd::prelude::*;

verus! {

/// The variation index that stands for no variation.
pub const NO_VARIATION_INDEX: u32 = 0xFFFF_FFFF;

/// The part of a subsetting plan that value records depend on.
pub struct Plan {
    /// For each variation index in use, the index that replaces it, or [`NO_VARIATION_INDEX`] if
    /// nothing is left to vary, and the delta to apply to the value that it adjusts.
    pub layout_varidx_delta_map: HashMap<u32, (u32, i32)>,
}

impl View for Plan {
    type V = Map<u32, (u32, i32)>;

    open spec fn view(&self) -> Map<u32, (u32, i32)> {
        self.layout_varidx_delta_map@
    }
}

/// What an optional plan says.
pub open spec fn view_plan(plan: Option<&Plan>) -> Option<Map<u32, (u32, i32)>> {
    match plan {
        Some(plan) => Some(plan@),
        None => None,
    }
}

/// The two levels of a variation index as one: the outer index in the upper half, the inner index
/// in the lower.
pub open spec fn combined_index_spec(outer: u16, inner: u16) -> u32 {
    (outer * 0x1_0000 + inner) as u32
}

/// What a plan says about a device or variation index table, if anything.
pub open spec fn plan_entry(plan: Map<u32, (u32, i32)>, device: DeviceModel) -> Option<
    (u32, i32),
> {
    match device {
        DeviceModel::VariationIndex { outer, inner } => {
            let ix = combined_index_spec(outer, inner);
            if plan.contains_key(ix) {
                Some(plan[ix])
            } else {
                None
            }
        },
        DeviceModel::Device(_) => None,
    }
}

/// Combines the two levels of a variation index into one.
pub fn combined_index(outer: u16, inner: u16) -> (r: u32)
    ensures
        r == combined_index_spec(outer, inner),
{
    let upper: u32 = outer as u32;
    let lower: u32 = inner as u32;
    assert((upper << 16) | lower == upper * 0x1_0000 + lower) by (bit_vector)
        requires
            upper <= 0xFFFF,
            lower <= 0xFFFF,
    ;
    (upper << 16) | lower
}

impl Plan {
    /// What the plan says about a device or variation index table, if anything.
    pub fn entry(&self, device: &DeviceOrVariationIndex<'_>) -> (r: Option<(u32, i32)>)
        ensures
            r == plan_entry(self@, device@),
    {
        match *device {
            DeviceOrVariationIndex::Device(_) => None,
            DeviceOrVariationIndex::VariationIndex { outer, inner } => {
                match self.layout_varidx_delta_map.get(&combined_index(outer, inner)) {
                    Some(entry) => Some(*entry),
                    None => None,
                }
            },
        }
    }
}

/// What a plan says about a variation index is what it maps 65536 times the outer index plus the
/// inner index to. About device tables it says nothing.
pub proof fn law_plan_speaks_of_variation_indices(
    plan: Map<u32, (u32, i32)>,
    outer: u16,
    inner: u16,
    ix: u32,
    data: Seq<u8>,
)
    requires
        ix == outer * 65536 + inner,
    ensures
        combined_index_spec(outer, inner) == ix,
        plan.contains_key(ix) ==> plan_entry(plan, DeviceModel::VariationIndex { outer, inner })
            == Some(plan[ix]),
        !plan.contains_key(ix) ==> plan_entry(
            plan,
            DeviceModel::VariationIndex { outer, inner },
        ) is None,
        plan_entry(plan, DeviceModel::Device(data)) is None,
{
}

/// Different variation indices stay different when their two levels are combined.
pub proof fn law_combined_indices_are_unique(
    outer1: u16,
    inner1: u16,
    outer2: u16,
    inner2: u16,
)
    requires
        combined_index_spec(outer1, inner1) == combined_index_spec(outer2, inner2),
    ensures
        outer1 == outer2,
        inner1 == inner2,
{
}

} // verus!
