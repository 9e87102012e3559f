//! 16.16 fixed point coordinates and scalars.
use crate::coord::{CoordFrom, PointCoord};
use crate::tuple::{
    law_ratios_only_weaken, lemma_product_of_prefix, lemma_with_axis, product_of, region_end,
    region_is_valid, region_start, tuple_axis_effect, tuple_ratios, tuple_scalar_spec, with_axis,
    AxisEffect, Ratio, Scalar, TupleModel,
};
use skrifa::raw::types;
use vstd::prelude::*;

verus! {

/// A 16.16 fixed point number.
#[derive(Clone, Copy, Debug, PartialEq, Eq, Structural)]
pub struct Fixed {
    pub bits: i32,
}

/// The raw value of one.
pub const ONE_BITS: i32 = 0x10000;

/// The 32 bit integer that is congruent to `x` modulo two to the 32nd.
pub open spec fn wrap(x: int) -> i32 {
    ((x + 0x8000_0000) % 0x1_0000_0000 - 0x8000_0000) as i32
}

/// The magnitude of an integer.
pub open spec fn magnitude(x: int) -> int {
    if x < 0 {
        -x
    } else {
        x
    }
}

/// `a * b` divided by 65536, rounded to the nearest integer with ties away from zero.
pub open spec fn product_bits(a: i32, b: i32) -> i32 {
    let ab = a * b;
    wrap((ab + 0x8000 - (if ab < 0 { 1int } else { 0 })) / 0x10000)
}

/// `s * a / b`, computed on magnitudes, rounded to the nearest integer with ties away from zero,
/// and given the sign that the operands call for. The magnitude of a quotient by zero is
/// 0x7FFFFFFF.
pub open spec fn quotient_bits(s: int, a: int, b: int) -> i32 {
    let q = if b == 0 {
        0x7FFF_FFFF
    } else {
        (magnitude(s) * magnitude(a) + magnitude(b) / 2) / magnitude(b)
    };
    wrap(
        if ((s < 0) != (a < 0)) != (b < 0) {
            -q
        } else {
            q
        },
    )
}

/// `types::Fixed::from_i32`: shifts the integer into the upper half, dropping what does not fit.
#[verifier::external_body]
fn bits_from_i32(value: i32) -> (r: i32)
    ensures
        r == wrap(value * 0x10000),
{
    types::Fixed::from_i32(value).to_bits()
}

/// The product of two `types::Fixed`: the exact product of the raw values divided by 65536 and
/// rounded, ties away from zero, wrapping on overflow.
#[verifier::external_body]
fn multiply_bits(a: i32, b: i32) -> (r: i32)
    ensures
        r == product_bits(a, b),
{
    (types::Fixed::from_bits(a) * types::Fixed::from_bits(b)).to_bits()
}

/// The quotient of two `types::Fixed`: 65536 times the first raw value divided by the second and
/// rounded, ties away from zero, wrapping on overflow; by zero, the largest value with the sign
/// of the dividend.
#[verifier::external_body]
fn divide_bits(a: i32, b: i32) -> (r: i32)
    ensures
        r == quotient_bits(a as int, 0x10000, b as int),
{
    (types::Fixed::from_bits(a) / types::Fixed::from_bits(b)).to_bits()
}

/// `types::Fixed::mul_div`: the exact product of the first two raw values divided by the third
/// and rounded, ties away from zero, wrapping on overflow; by zero, the largest value with the
/// sign of the product.
#[verifier::external_body]
fn multiply_divide_bits(s: i32, a: i32, b: i32) -> (r: i32)
    ensures
        r == quotient_bits(s as int, a as int, b as int),
{
    let (a, b) = (types::Fixed::from_bits(a), types::Fixed::from_bits(b));
    types::Fixed::from_bits(s).mul_div(a, b).to_bits()
}

impl PointCoord for Fixed {
    open spec fn zero_spec() -> Self {
        Fixed { bits: 0 }
    }

    open spec fn from_i32_spec(value: i32) -> Self {
        Fixed { bits: wrap(value * 0x10000) }
    }

    open spec fn plus_spec(self, rhs: Self) -> Self {
        Fixed { bits: wrap(self.bits + rhs.bits) }
    }

    open spec fn minus_spec(self, rhs: Self) -> Self {
        Fixed { bits: wrap(self.bits - rhs.bits) }
    }

    open spec fn times_spec(self, rhs: Self) -> Self {
        Fixed { bits: product_bits(self.bits, rhs.bits) }
    }

    open spec fn over_spec(self, rhs: Self) -> Self {
        Fixed { bits: quotient_bits(self.bits as int, 0x10000, rhs.bits as int) }
    }

    open spec fn same_spec(self, rhs: Self) -> bool {
        self.bits == rhs.bits
    }

    open spec fn at_most_spec(self, rhs: Self) -> bool {
        self.bits <= rhs.bits
    }

    open spec fn at_least_spec(self, rhs: Self) -> bool {
        self.bits >= rhs.bits
    }

    open spec fn above_spec(self, rhs: Self) -> bool {
        self.bits > rhs.bits
    }

    fn zero() -> Self {
        Fixed { bits: 0 }
    }

    fn from_i32(value: i32) -> Self {
        Fixed { bits: bits_from_i32(value) }
    }

    fn plus(self, rhs: Self) -> Self {
        Fixed { bits: self.bits.wrapping_add(rhs.bits) }
    }

    fn minus(self, rhs: Self) -> Self {
        Fixed { bits: self.bits.wrapping_sub(rhs.bits) }
    }

    fn times(self, rhs: Self) -> Self {
        Fixed { bits: multiply_bits(self.bits, rhs.bits) }
    }

    fn over(self, rhs: Self) -> Self {
        Fixed { bits: divide_bits(self.bits, rhs.bits) }
    }

    fn same(self, rhs: Self) -> bool {
        self.bits == rhs.bits
    }

    fn at_most(self, rhs: Self) -> bool {
        self.bits <= rhs.bits
    }

    fn at_least(self, rhs: Self) -> bool {
        self.bits >= rhs.bits
    }

    fn above(self, rhs: Self) -> bool {
        self.bits > rhs.bits
    }
}

impl CoordFrom<Fixed> for Fixed {
    open spec fn coord_from_spec(value: Fixed) -> Self {
        value
    }

    fn coord_from(value: Fixed) -> Self {
        value
    }
}

impl Scalar for Fixed {
    type Product = Fixed;

    open spec fn one_spec() -> Fixed {
        Fixed { bits: ONE_BITS }
    }

    open spec fn times_ratio_spec(product: Fixed, ratio: Ratio) -> Fixed {
        Fixed { bits: quotient_bits(product.bits as int, ratio.num as int, ratio.den as int) }
    }

    open spec fn narrowed_spec(product: Fixed) -> Option<Self> {
        if product.bits != 0 {
            Some(product)
        } else {
            None
        }
    }

    fn one() -> Fixed {
        Fixed { bits: ONE_BITS }
    }

    fn times_ratio(product: Fixed, ratio: Ratio) -> Fixed {
        Fixed { bits: multiply_divide_bits(product.bits, ratio.num, ratio.den) }
    }

    fn narrowed(product: Fixed) -> Option<Self> {
        if product.bits != 0 {
            Some(product)
        } else {
            None
        }
    }
}

/// Adding a displacement and taking it away again gives it back: sums wrap and lose nothing.
pub proof fn law_displacement_survives(p: Fixed, d: Fixed)
    ensures
        p.plus_spec(d).minus_spec(p) == d,
        p.plus_spec(d.minus_spec(p)) == d,
{
}

/// Displacements add up in any order: sums wrap and lose nothing.
pub proof fn law_displacements_add_up(base: Fixed, target: Fixed, origin: Fixed, d: Fixed)
    ensures
        base.plus_spec(target.minus_spec(origin)).plus_spec(d) == base.plus_spec(
            target.plus_spec(d).minus_spec(origin),
        ),
{
    let (b, t, o, e) = (base.bits as int, target.bits as int, origin.bits as int, d.bits as int);
    lemma_wrap_once(e, b + wrap(t - o));
    lemma_wrap_once(b + e, t - o);
    lemma_wrap_once(b, wrap(t + e) - o);
    lemma_wrap_once(b - o, t + e);
}

/// Wrapping a summand makes no difference to a wrapped sum.
pub proof fn lemma_wrap_once(a: int, x: int)
    ensures
        wrap(a + wrap(x)) == wrap(a + x),
{
    let m = 0x1_0000_0000;
    let q = (x + 0x8000_0000) / m;
    assert(wrap(x) == x + m * -q);
    vstd::arithmetic::div_mod::lemma_mod_multiples_vanish(-q, a + x + 0x8000_0000, m);
}

/// A location never strengthens a tuple: its factor is positive and at most one.
pub proof fn law_factor_is_at_most_one(tuple: TupleModel, active: bool, coords: Seq<i16>)
    ensures
        tuple_scalar_spec::<Fixed>(tuple, active, coords) matches Some(factor) ==> 0 < factor.bits
            <= ONE_BITS,
{
    let ratios = tuple_ratios(tuple, coords, tuple.peak.len() as int);
    assert forall|k: int| 0 <= k < ratios.len() implies weakens(#[trigger] ratios[k]) by {
        law_ratios_only_weaken(tuple, coords, k);
    }
    lemma_product_at_most_one(ratios, ratios.len() as int);
}

/// Whether a ratio lies between zero and one.
spec fn weakens(r: Ratio) -> bool {
    (r.den > 0 && 0 <= r.num < r.den) || (r.den < 0 && r.den < r.num <= 0)
}

proof fn lemma_product_at_most_one(ratios: Seq<Ratio>, n: int)
    requires
        n <= ratios.len(),
        forall|k: int| 0 <= k < ratios.len() ==> weakens(#[trigger] ratios[k]),
    ensures
        0 <= product_of::<Fixed>(ratios, n).bits <= ONE_BITS,
    decreases n,
{
    if n > 0 {
        lemma_product_at_most_one(ratios, n - 1);
        let s = product_of::<Fixed>(ratios, n - 1).bits as int;
        let r = ratios[n - 1];
        assert(weakens(r));
        let num = magnitude(r.num as int);
        let den = magnitude(r.den as int);
        let q = (s * num + den / 2) / den;
        assert(0 <= q <= s) by (nonlinear_arith)
            requires
                0 <= s,
                0 <= num < den,
                q == (s * num + den / 2) / den,
        ;
        assert(num == 0 ==> q == 0) by (nonlinear_arith)
            requires
                0 < den,
                q == (s * num + den / 2) / den,
        ;
    }
}

/// A tuple without axes applies in full if it is active, and not at all if it is not.
pub proof fn law_tuple_without_axes(tuple: TupleModel, active: bool, coords: Seq<i16>)
    requires
        tuple.peak.len() == 0,
    ensures
        tuple_scalar_spec::<Fixed>(tuple, active, coords) == if active {
            Some(Fixed { bits: 0x10000 })
        } else {
            None
        },
{
}

/// Every axis has its say in the factor of a tuple. Whatever the axes before it come to, one more
/// axis leaves the factor alone if the tuple does not peak on it, if the region is invalid there or
/// if the coordinate is at the peak. It excludes the tuple if the coordinate is at the default or
/// beyond the region. Anywhere else it multiplies the factor by the distance of the coordinate
/// from the edge of the region over the distance of the peak from that edge, rounded to the
/// nearest, and a factor that is rounded to zero is none.
pub proof fn law_every_axis_has_its_say(
    tuple: TupleModel,
    peak: i16,
    active: bool,
    coords: Seq<i16>,
)
    ensures
        ({
            let n = tuple.peak.len() as int;
            let coord = if n < coords.len() {
                coords[n]
            } else {
                0
            };
            let region = match (tuple.intermediate_start, tuple.intermediate_end) {
                (Some(start), Some(end)) => Some(
                    (
                        if n < start.len() {
                            start[n]
                        } else {
                            0
                        },
                        if n < end.len() {
                            end[n]
                        } else {
                            0
                        },
                    ),
                ),
                _ => None,
            };
            let start = region_start(peak, region);
            let end = region_end(peak, region);
            let before = tuple_scalar_spec::<Fixed>(tuple, active, coords);
            let after = tuple_scalar_spec::<Fixed>(with_axis(tuple, peak), active, coords);
            if peak == 0 {
                after == before
            } else if coord == 0 {
                after is None
            } else if coord == peak || !region_is_valid(peak, region) {
                after == before
            } else if coord < start || coord > end {
                after is None
            } else if coord < peak {
                is_scaled(before, coord - start, peak - start, after)
            } else {
                is_scaled(before, end - coord, end - peak, after)
            }
        }),
{
    let n = tuple.peak.len() as int;
    let wider = with_axis(tuple, peak);
    lemma_with_axis(tuple, peak, coords);
    let effect = tuple_axis_effect(wider, coords, n);
    let ratios = tuple_ratios(tuple, coords, n);
    if let AxisEffect::Partial(ratio) = effect {
        lemma_product_of_prefix::<Fixed>(ratios, ratio, ratios.len() as int);
        assert forall|k: int| 0 <= k < ratios.len() implies weakens(#[trigger] ratios[k]) by {
            law_ratios_only_weaken(tuple, coords, k);
        }
        lemma_product_at_most_one(ratios, ratios.len() as int);
        let f = product_of::<Fixed>(ratios, ratios.len() as int).bits as int;
        lemma_rounded_quotient(f, ratio);
    }
}

/// Whether a factor is another one times `num / den`, rounded to the nearest: nothing stays
/// nothing, and what is rounded to zero is nothing.
pub open spec fn is_scaled(
    before: Option<Fixed>,
    num: int,
    den: int,
    after: Option<Fixed>,
) -> bool {
    match (before, after) {
        (None, after) => after is None,
        (Some(f), None) => 2 * (f.bits * num) < den,
        (Some(f), Some(g)) => g.bits > 0 && -den <= 2 * (g.bits * den - f.bits * num) <= den,
    }
}

proof fn lemma_rounded_quotient(f: int, ratio: Ratio)
    requires
        0 <= f <= ONE_BITS,
        weakens(ratio),
    ensures
        ({
            let q = quotient_bits(f, ratio.num as int, ratio.den as int);
            let num = magnitude(ratio.num as int);
            let den = magnitude(ratio.den as int);
            &&& 0 <= q <= f
            &&& -den <= 2 * (q * den - f * num) <= den
            &&& q == 0 ==> 2 * (f * num) < den || f == 0
        }),
{
    let num = magnitude(ratio.num as int);
    let den = magnitude(ratio.den as int);
    let q = (f * num + den / 2) / den;
    assert(0 <= q <= f && (num == 0 ==> q == 0) && -den <= 2 * (q * den - f * num) <= den && (q == 0
        ==> 2 * (f * num) < den)) by (nonlinear_arith)
        requires
            0 <= f,
            0 <= num < den,
            q == (f * num + den / 2) / den,
    ;
}

} // verus!
