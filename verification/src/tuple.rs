//! Tuple variations and how strongly they apply at a location in the design space.
//!
//! Locations and the corners of a tuple's region are given as raw F2DOT14 values.
use vstd::prelude::*;

verus! {

/// An explicit delta for a single point or component of a glyph.
#[derive(Clone, Copy, Debug, PartialEq, Eq, Structural)]
pub struct GlyphDelta {
    /// The point or component index.
    pub position: u16,
    pub x_delta: i32,
    pub y_delta: i32,
}

/// One tuple of a glyph's variation data.
#[derive(Clone, Debug)]
pub struct TupleVariation {
    /// The location at which the tuple applies in full.
    pub peak: Vec<i16>,
    /// Where the region that the tuple applies in starts, if the tuple states one.
    pub intermediate_start: Option<Vec<i16>>,
    /// Where the region that the tuple applies in ends, if the tuple states one.
    pub intermediate_end: Option<Vec<i16>>,
    /// Whether the tuple has deltas for all points of the glyph.
    pub all_points: bool,
    /// The explicit deltas, in order.
    pub deltas: Vec<GlyphDelta>,
}

/// What a [`TupleVariation`] holds.
#[verifier::ext_equal]
pub struct TupleModel {
    pub peak: Seq<i16>,
    pub intermediate_start: Option<Seq<i16>>,
    pub intermediate_end: Option<Seq<i16>>,
    pub all_points: bool,
    pub deltas: Seq<GlyphDelta>,
}

/// The contents of an optional vector.
pub open spec fn view_option(v: Option<Vec<i16>>) -> Option<Seq<i16>> {
    match v {
        Some(v) => Some(v@),
        None => None,
    }
}

impl View for TupleVariation {
    type V = TupleModel;

    open spec fn view(&self) -> TupleModel {
        TupleModel {
            peak: self.peak@,
            intermediate_start: view_option(self.intermediate_start),
            intermediate_end: view_option(self.intermediate_end),
            all_points: self.all_points,
            deltas: self.deltas@,
        }
    }
}

/// What a list of tuples holds.
pub open spec fn view_tuples(tuples: Seq<TupleVariation>) -> Seq<TupleModel> {
    Seq::new(tuples.len(), |i: int| tuples[i]@)
}

/// The variation data of a glyph, read for a location in the design space.
#[derive(Clone, Debug)]
pub struct GlyphVariationData {
    /// The tuples, in order.
    pub tuples: Vec<TupleVariation>,
    /// For each tuple, whether the table reader finds it well formed and active at the location.
    /// Tuples beyond the end of the list are not.
    pub active: Vec<bool>,
}

/// What a [`GlyphVariationData`] holds.
#[verifier::ext_equal]
pub struct GlyphModel {
    pub tuples: Seq<TupleModel>,
    pub active: Seq<bool>,
}

impl View for GlyphVariationData {
    type V = GlyphModel;

    open spec fn view(&self) -> GlyphModel {
        GlyphModel { tuples: view_tuples(self.tuples@), active: self.active@ }
    }
}

/// A quotient of two integers.
#[derive(Clone, Copy, Debug, PartialEq, Eq, Structural)]
pub struct Ratio {
    pub num: i32,
    pub den: i32,
}

/// A factor to scale deltas by.
///
/// Factors are products of ratios, multiplied one after another in a type that may be wider than
/// the factor itself. Each operation is a function of its operands alone, named by the spec
/// function beside it. Nothing else is assumed, and the spec functions are never called.
pub trait Scalar: Copy {
    /// What products are computed in.
    type Product: Copy;

    /// The value of `one`.
    spec fn one_spec() -> Self::Product;

    /// The value of `times_ratio`.
    spec fn times_ratio_spec(product: Self::Product, ratio: Ratio) -> Self::Product;

    /// The value of `narrowed`.
    spec fn narrowed_spec(product: Self::Product) -> Option<Self>;

    /// The empty product.
    fn one() -> (r: Self::Product)
        ensures
            r == Self::one_spec(),
    ;

    /// The product with one more ratio.
    fn times_ratio(product: Self::Product, ratio: Ratio) -> (r: Self::Product)
        ensures
            r == Self::times_ratio_spec(product, ratio),
    ;

    /// The factor that a product amounts to, or `None` if it is zero.
    fn narrowed(product: Self::Product) -> (r: Option<Self>)
        ensures
            r == Self::narrowed_spec(product),
    ;
}

/// The product of the first `n` ratios, in order.
pub open spec fn product_of<S: Scalar>(ratios: Seq<Ratio>, n: int) -> S::Product
    decreases n,
{
    if n <= 0 {
        S::one_spec()
    } else {
        S::times_ratio_spec(product_of::<S>(ratios, n - 1), ratios[n - 1])
    }
}

/// What a location on one axis does to a tuple.
#[derive(Clone, Copy, Debug, PartialEq, Eq, Structural)]
pub enum AxisEffect {
    /// The tuple does not apply.
    Excluded,
    /// The axis leaves the tuple at full strength.
    Full,
    /// The axis weakens the tuple.
    Partial(Ratio),
}

/// What the coordinate `coord` does to a tuple that peaks at `peak`.
///
/// An axis that the tuple does not peak on has no say. On any other, a coordinate at the default
/// excludes the tuple and one at the peak leaves it in full. In between, the tuple fades linearly
/// towards the edges of its `region`, which without one reaches from the default to the peak, and
/// beyond the edges it is excluded. A region that does not contain the peak, or that straddles
/// the default, is invalid and has no say.
pub open spec fn axis_effect_spec(peak: i16, coord: i16, region: Option<(i16, i16)>) -> AxisEffect {
    if peak == 0 {
        AxisEffect::Full
    } else if coord == 0 {
        AxisEffect::Excluded
    } else if coord == peak {
        AxisEffect::Full
    } else {
        match region {
            Some((start, end)) => if start > peak || peak > end || (start < 0 && end > 0) {
                AxisEffect::Full
            } else if coord < start || coord > end {
                AxisEffect::Excluded
            } else if coord < peak {
                AxisEffect::Partial(
                    Ratio { num: (coord - start) as i32, den: (peak - start) as i32 },
                )
            } else {
                AxisEffect::Partial(Ratio { num: (end - coord) as i32, den: (end - peak) as i32 })
            },
            None => if (peak < 0 && peak <= coord <= 0) || (peak > 0 && 0 <= coord <= peak) {
                AxisEffect::Partial(Ratio { num: coord as i32, den: peak as i32 })
            } else {
                AxisEffect::Excluded
            },
        }
    }
}

/// The value on axis `i`, which is zero if none is given.
pub open spec fn axis_value(values: Seq<i16>, i: int) -> i16 {
    if 0 <= i < values.len() {
        values[i]
    } else {
        0
    }
}

/// The region of a tuple on axis `i`, if the tuple states both ends of one.
pub open spec fn axis_region(tuple: TupleModel, i: int) -> Option<(i16, i16)> {
    match (tuple.intermediate_start, tuple.intermediate_end) {
        (Some(start), Some(end)) => Some((axis_value(start, i), axis_value(end, i))),
        _ => None,
    }
}

/// What the location does to a tuple on axis `i`.
pub open spec fn tuple_axis_effect(tuple: TupleModel, coords: Seq<i16>, i: int) -> AxisEffect {
    axis_effect_spec(tuple.peak[i], axis_value(coords, i), axis_region(tuple, i))
}

/// Whether no axis excludes a tuple.
pub open spec fn tuple_applies(tuple: TupleModel, coords: Seq<i16>) -> bool {
    forall|i: int|
        0 <= i < tuple.peak.len() ==> !(#[trigger] tuple_axis_effect(tuple, coords, i) is Excluded)
}

/// The ratios by which the first `n` axes weaken a tuple, in order.
pub open spec fn tuple_ratios(tuple: TupleModel, coords: Seq<i16>, n: int) -> Seq<Ratio>
    decreases n,
{
    if n <= 0 {
        Seq::empty()
    } else {
        let before = tuple_ratios(tuple, coords, n - 1);
        match tuple_axis_effect(tuple, coords, n - 1) {
            AxisEffect::Partial(ratio) => before.push(ratio),
            _ => before,
        }
    }
}

/// The factor by which a tuple's deltas are scaled at a location: the product of the ratios of
/// all axes, or `None` if the tuple is not active or has no effect.
pub open spec fn tuple_scalar_spec<S: Scalar>(
    tuple: TupleModel,
    active: bool,
    coords: Seq<i16>,
) -> Option<S> {
    if active && tuple_applies(tuple, coords) {
        let ratios = tuple_ratios(tuple, coords, tuple.peak.len() as int);
        S::narrowed_spec(product_of::<S>(ratios, ratios.len() as int))
    } else {
        None
    }
}

impl GlyphModel {
    /// [`tuple_scalar_spec`] for tuple `k`.
    pub open spec fn scalar_spec<S: Scalar>(self, k: int, coords: Seq<i16>) -> Option<S> {
        tuple_scalar_spec(self.tuples[k], k < self.active.len() && self.active[k], coords)
    }
}

/// Decides what the coordinate `coord` does to a tuple that peaks at `peak`.
pub fn axis_effect(peak: i16, coord: i16, region: Option<(i16, i16)>) -> (r: AxisEffect)
    ensures
        r == axis_effect_spec(peak, coord, region),
{
    if peak == 0 {
        return AxisEffect::Full;
    }
    if coord == 0 {
        return AxisEffect::Excluded;
    }
    if coord == peak {
        return AxisEffect::Full;
    }
    let peak: i32 = peak as i32;
    let coord: i32 = coord as i32;
    match region {
        Some((start, end)) => {
            let start: i32 = start as i32;
            let end: i32 = end as i32;
            if start > peak || peak > end || (start < 0 && end > 0) {
                AxisEffect::Full
            } else if coord < start || coord > end {
                AxisEffect::Excluded
            } else if coord < peak {
                AxisEffect::Partial(Ratio { num: coord - start, den: peak - start })
            } else {
                AxisEffect::Partial(Ratio { num: end - coord, den: end - peak })
            }
        },
        None => {
            let low: i32 = if peak < 0 {
                peak
            } else {
                0
            };
            let high: i32 = if peak > 0 {
                peak
            } else {
                0
            };
            if coord < low || coord > high {
                AxisEffect::Excluded
            } else {
                AxisEffect::Partial(Ratio { num: coord, den: peak })
            }
        },
    }
}

/// The value on axis `i`, which is zero if none is given.
fn value_at(values: &[i16], i: usize) -> (r: i16)
    ensures
        r == axis_value(values@, i as int),
{
    if i < values.len() {
        values[i]
    } else {
        0
    }
}

/// Computes the factor by which a tuple's deltas are scaled at the location `coords`.
///
/// Missing trailing coordinates stand for the default. `active` is what the table reader says of
/// the tuple. Returns `None` if that is false or if the tuple has no effect at the location.
pub fn tuple_scalar<S: Scalar>(tuple: &TupleVariation, active: bool, coords: &[i16]) -> (r: Option<
    S,
>)
    ensures
        r == tuple_scalar_spec::<S>(tuple@, active, coords@),
{
    if !active {
        return None;
    }
    let mut product = S::one();
    let mut i: usize = 0;
    while i < tuple.peak.len()
        invariant
            i <= tuple.peak@.len(),
            product == product_of::<S>(
                tuple_ratios(tuple@, coords@, i as int),
                tuple_ratios(tuple@, coords@, i as int).len() as int,
            ),
            forall|j: int|
                0 <= j < i ==> !(#[trigger] tuple_axis_effect(tuple@, coords@, j) is Excluded),
        decreases tuple.peak@.len() - i,
    {
        let region = match (&tuple.intermediate_start, &tuple.intermediate_end) {
            (Some(start), Some(end)) => Some(
                (value_at(start.as_slice(), i), value_at(end.as_slice(), i)),
            ),
            _ => None,
        };
        let effect = axis_effect(tuple.peak[i], value_at(coords, i), region);
        assert(effect == tuple_axis_effect(tuple@, coords@, i as int));
        match effect {
            AxisEffect::Excluded => {
                return None;
            },
            AxisEffect::Full => {},
            AxisEffect::Partial(ratio) => {
                proof {
                    let before = tuple_ratios(tuple@, coords@, i as int);
                    lemma_product_of_prefix::<S>(before, ratio, before.len() as int);
                }
                product = S::times_ratio(product, ratio);
            },
        }
        i += 1;
    }
    S::narrowed(product)
}

/// A product of some ratios does not depend on the ratios after them.
pub proof fn lemma_product_of_prefix<S: Scalar>(ratios: Seq<Ratio>, ratio: Ratio, n: int)
    requires
        n <= ratios.len(),
    ensures
        product_of::<S>(ratios.push(ratio), n) == product_of::<S>(ratios, n),
    decreases n,
{
    if n > 0 {
        lemma_product_of_prefix::<S>(ratios, ratio, n - 1);
    }
}

impl GlyphVariationData {
    /// Computes the factor by which the deltas of tuple `k` are scaled at the location `coords`,
    /// or `None` if the tuple has no effect there.
    pub fn scalar<S: Scalar>(&self, k: usize, coords: &[i16]) -> (r: Option<S>)
        requires
            k < self.tuples@.len(),
        ensures
            r == self@.scalar_spec::<S>(k as int, coords@),
    {
        let active = k < self.active.len() && self.active[k];
        tuple_scalar(&self.tuples[k], active, coords)
    }
}

/// Every ratio lies between zero and one: a location can only weaken a tuple.
pub proof fn law_ratios_only_weaken(tuple: TupleModel, coords: Seq<i16>, k: int)
    requires
        0 <= k < tuple_ratios(tuple, coords, tuple.peak.len() as int).len(),
    ensures
        ({
            let r = tuple_ratios(tuple, coords, tuple.peak.len() as int)[k];
            (r.den > 0 && 0 <= r.num < r.den) || (r.den < 0 && r.den < r.num <= 0)
        }),
{
    lemma_ratios_only_weaken(tuple, coords, tuple.peak.len() as int, k);
}

proof fn lemma_ratios_only_weaken(tuple: TupleModel, coords: Seq<i16>, n: int, k: int)
    requires
        0 <= k < tuple_ratios(tuple, coords, n).len(),
    ensures
        ({
            let r = tuple_ratios(tuple, coords, n)[k];
            (r.den > 0 && 0 <= r.num < r.den) || (r.den < 0 && r.den < r.num <= 0)
        }),
    decreases n,
{
    if n > 0 && k < tuple_ratios(tuple, coords, n - 1).len() {
        lemma_ratios_only_weaken(tuple, coords, n - 1, k);
    }
}

/// At its peak an active tuple applies in full: no axis weakens it.
pub proof fn law_full_at_peak<S: Scalar>(tuple: TupleModel, coords: Seq<i16>)
    requires
        forall|i: int|
            0 <= i < tuple.peak.len() ==> (#[trigger] tuple.peak[i]) == 0 || axis_value(coords, i)
                == tuple.peak[i],
    ensures
        tuple_ratios(tuple, coords, tuple.peak.len() as int) == Seq::<Ratio>::empty(),
        tuple_scalar_spec::<S>(tuple, true, coords) == S::narrowed_spec(S::one_spec()),
{
    lemma_full_at_peak(tuple, coords, tuple.peak.len() as int);
}

proof fn lemma_full_at_peak(tuple: TupleModel, coords: Seq<i16>, n: int)
    requires
        n <= tuple.peak.len(),
        forall|i: int|
            0 <= i < tuple.peak.len() ==> (#[trigger] tuple.peak[i]) == 0 || axis_value(coords, i)
                == tuple.peak[i],
    ensures
        tuple_ratios(tuple, coords, n) == Seq::<Ratio>::empty(),
    decreases n,
{
    if n > 0 {
        lemma_full_at_peak(tuple, coords, n - 1);
        assert(tuple.peak[n - 1] == 0 || axis_value(coords, n - 1) == tuple.peak[n - 1]);
    }
}

/// A tuple has no effect where an axis that it peaks on is at its default, and so none at the
/// default location.
pub proof fn law_no_effect_at_default<S: Scalar>(
    tuple: TupleModel,
    active: bool,
    coords: Seq<i16>,
    i: int,
)
    requires
        0 <= i < tuple.peak.len(),
        tuple.peak[i] != 0,
        axis_value(coords, i) == 0,
    ensures
        tuple_scalar_spec::<S>(tuple, active, coords) is None,
{
    assert(tuple_axis_effect(tuple, coords, i) is Excluded);
}

/// Whether a region has a say on an axis: it contains the peak and does not straddle the default.
pub open spec fn region_is_valid(peak: i16, region: Option<(i16, i16)>) -> bool {
    match region {
        Some((start, end)) => start <= peak <= end && !(start < 0 < end),
        None => true,
    }
}

/// Where a region starts. Without one stated, it reaches from the default to the peak.
pub open spec fn region_start(peak: i16, region: Option<(i16, i16)>) -> int {
    match region {
        Some((start, _)) => start as int,
        None => if peak < 0 {
            peak as int
        } else {
            0
        },
    }
}

/// Where a region ends. Without one stated, it reaches from the default to the peak.
pub open spec fn region_end(peak: i16, region: Option<(i16, i16)>) -> int {
    match region {
        Some((_, end)) => end as int,
        None => if peak < 0 {
            0
        } else {
            peak as int
        },
    }
}

/// On both sides of its peak and for either sign of it, a tuple fades linearly towards the edges
/// of its region: the distance to the edge on the coordinate's side is to the whole length of that
/// side as the ratio says. Only at the peak does it apply in full, and only beyond the edges is it
/// excluded.
pub proof fn law_axis_fades_linearly(peak: i16, coord: i16, region: Option<(i16, i16)>)
    requires
        peak != 0,
        coord != 0,
        region_is_valid(peak, region),
    ensures
        ({
            let start = region_start(peak, region);
            let end = region_end(peak, region);
            match axis_effect_spec(peak, coord, region) {
                AxisEffect::Full => coord == peak,
                AxisEffect::Excluded => coord < start || coord > end,
                AxisEffect::Partial(ratio) => {
                    &&& start <= coord <= end
                    &&& ratio.den != 0
                    &&& coord < peak && ratio.num * (peak - start) == ratio.den * (coord - start)
                        || coord > peak && ratio.num * (end - peak) == ratio.den * (end - coord)
                },
            }
        }),
{
    let start = region_start(peak, region);
    let end = region_end(peak, region);
    assert((coord - start) * (peak - start) == (peak - start) * (coord - start))
        by (nonlinear_arith);
    assert((end - coord) * (end - peak) == (end - peak) * (end - coord)) by (nonlinear_arith);
    assert(coord * (0 - peak) == peak * (0 - coord)) by (nonlinear_arith);
}

/// An axis that a tuple does not peak on, or on which its region is invalid, has no say; on any
/// axis that it peaks on, the default excludes the tuple.
pub proof fn law_axis_without_a_say(peak: i16, coord: i16, region: Option<(i16, i16)>)
    ensures
        peak == 0 ==> axis_effect_spec(peak, coord, region) is Full,
        peak != 0 && coord == 0 ==> axis_effect_spec(peak, coord, region) is Excluded,
        coord != 0 && !region_is_valid(peak, region) ==> axis_effect_spec(
            peak,
            coord,
            region,
        ) is Full,
{
}

/// `tuple` with one more axis, on which it peaks at `peak`.
pub open spec fn with_axis(tuple: TupleModel, peak: i16) -> TupleModel {
    TupleModel { peak: tuple.peak.push(peak), ..tuple }
}

/// A further axis leaves what the axes before it do to a tuple alone.
pub proof fn lemma_with_axis(tuple: TupleModel, peak: i16, coords: Seq<i16>)
    ensures
        ({
            let n = tuple.peak.len() as int;
            let wider = with_axis(tuple, peak);
            let effect = tuple_axis_effect(wider, coords, n);
            let ratios = tuple_ratios(tuple, coords, n);
            &&& tuple_applies(wider, coords) <==> tuple_applies(tuple, coords)
                && !(effect is Excluded)
            &&& tuple_ratios(wider, coords, n + 1) == match effect {
                AxisEffect::Partial(ratio) => ratios.push(ratio),
                _ => ratios,
            }
        }),
{
    let n = tuple.peak.len() as int;
    let wider = with_axis(tuple, peak);
    assert forall|i: int| 0 <= i < n implies #[trigger] tuple_axis_effect(wider, coords, i)
        == tuple_axis_effect(tuple, coords, i) by {}
    if tuple_applies(wider, coords) {
        assert(!(tuple_axis_effect(wider, coords, n) is Excluded));
        assert forall|i: int| 0 <= i < n implies !(#[trigger] tuple_axis_effect(
            tuple,
            coords,
            i,
        ) is Excluded) by {
            assert(!(tuple_axis_effect(wider, coords, i) is Excluded));
        }
    }
    lemma_same_ratios(tuple, wider, coords, n);
}

proof fn lemma_same_ratios(a: TupleModel, b: TupleModel, coords: Seq<i16>, n: int)
    requires
        forall|i: int|
            0 <= i < n ==> #[trigger] tuple_axis_effect(a, coords, i) == tuple_axis_effect(
                b,
                coords,
                i,
            ),
    ensures
        tuple_ratios(a, coords, n) == tuple_ratios(b, coords, n),
    decreases n,
{
    if n > 0 {
        lemma_same_ratios(a, b, coords, n - 1);
        assert(tuple_axis_effect(a, coords, n - 1) == tuple_axis_effect(b, coords, n - 1));
    }
}

/// A tuple that the reader does not find active has no effect; any other applies by its own terms.
pub proof fn law_reader_decides_activity<S: Scalar>(glyph: GlyphModel, k: int, coords: Seq<i16>)
    requires
        0 <= k < glyph.tuples.len(),
    ensures
        k >= glyph.active.len() ==> glyph.scalar_spec::<S>(k, coords) is None,
        k < glyph.active.len() && !glyph.active[k] ==> glyph.scalar_spec::<S>(k, coords) is None,
        k < glyph.active.len() && glyph.active[k] ==> glyph.scalar_spec::<S>(k, coords)
            == tuple_scalar_spec::<S>(glyph.tuples[k], true, coords),
{
}

} // verus!
