use skeravar::coord::{CoordFrom, PointCoord};
use skeravar::fixed::Fixed;
use skeravar::tuple::{
    axis_effect, tuple_scalar, AxisEffect, GlyphVariationData, Ratio, Scalar, TupleVariation,
};

/// A single precision scalar that is computed in double precision.
#[derive(Clone, Copy, Debug, PartialEq)]
struct Single(f32);

impl Scalar for Single {
    type Product = f64;

    fn one_spec() -> f64 {
        Self::one()
    }

    fn times_ratio_spec(product: f64, ratio: Ratio) -> f64 {
        Self::times_ratio(product, ratio)
    }

    fn narrowed_spec(product: f64) -> Option<Self> {
        Self::narrowed(product)
    }

    fn one() -> f64 {
        1.0
    }

    fn times_ratio(product: f64, ratio: Ratio) -> f64 {
        product * (ratio.num as f64 / ratio.den as f64)
    }

    fn narrowed(product: f64) -> Option<Self> {
        let scalar = product as f32;
        if scalar != 0.0 {
            Some(Single(scalar))
        } else {
            None
        }
    }
}

fn tuple(peak: &[i16], region: Option<(&[i16], &[i16])>) -> TupleVariation {
    TupleVariation {
        peak: peak.to_vec(),
        intermediate_start: region.map(|r| r.0.to_vec()),
        intermediate_end: region.map(|r| r.1.to_vec()),
        all_points: true,
        deltas: Vec::new(),
    }
}

fn partial(num: i32, den: i32) -> AxisEffect {
    AxisEffect::Partial(Ratio { num, den })
}

#[test]
fn axis_without_peak_has_no_say() {
    assert_eq!(axis_effect(0, 100, None), AxisEffect::Full);
    assert_eq!(axis_effect(0, 0, Some((-5, 5))), AxisEffect::Full);
}

#[test]
fn axis_fades_towards_the_default() {
    assert_eq!(axis_effect(16384, 8192, None), partial(8192, 16384));
    assert_eq!(axis_effect(16384, -1, None), AxisEffect::Excluded);
    assert_eq!(axis_effect(16384, 0, None), AxisEffect::Excluded);
    assert_eq!(axis_effect(16384, 16384, None), AxisEffect::Full);
    assert_eq!(axis_effect(8192, 8193, None), AxisEffect::Excluded);
    assert_eq!(axis_effect(-16384, -8192, None), partial(-8192, -16384));
    assert_eq!(axis_effect(-8192, -8193, None), AxisEffect::Excluded);
    assert_eq!(axis_effect(-8192, 1, None), AxisEffect::Excluded);
}

#[test]
fn axis_fades_towards_the_edges_of_its_region() {
    let region = Some((4096, 16384));
    assert_eq!(axis_effect(8192, 6144, region), partial(2048, 4096));
    assert_eq!(axis_effect(8192, 12288, region), partial(4096, 8192));
    assert_eq!(axis_effect(8192, 4096, region), partial(0, 4096));
    assert_eq!(axis_effect(8192, 16384, region), partial(0, 8192));
    assert_eq!(axis_effect(8192, 4095, region), AxisEffect::Excluded);
    assert_eq!(axis_effect(8192, 16385, region), AxisEffect::Excluded);
    assert_eq!(axis_effect(8192, 8192, region), AxisEffect::Full);
}

#[test]
fn invalid_region_has_no_say() {
    assert_eq!(axis_effect(100, 50, Some((101, 200))), AxisEffect::Full);
    assert_eq!(axis_effect(100, 50, Some((0, 99))), AxisEffect::Full);
    assert_eq!(axis_effect(100, 50, Some((-1, 200))), AxisEffect::Full);
    assert_eq!(axis_effect(100, 0, Some((-1, 200))), AxisEffect::Excluded);
}

#[test]
fn region_at_the_limits_of_the_range() {
    let region = Some((i16::MIN, 0));
    assert_eq!(axis_effect(-1, i16::MIN, region), partial(0, 32767));
    let region = Some((0, i16::MAX));
    assert_eq!(axis_effect(1, i16::MAX, region), partial(0, 32766));
}

#[test]
fn tuple_applies_in_full_at_its_peak() {
    let t = tuple(&[16384, 0, -8192], None);
    let at_peak: Option<Fixed> = tuple_scalar(&t, true, &[16384, 77, -8192]);
    assert_eq!(at_peak, Some(Fixed { bits: 0x10000 }));
    let at_peak: Option<Single> = tuple_scalar(&t, true, &[16384, 77, -8192]);
    assert_eq!(at_peak, Some(Single(1.0)));
}

#[test]
fn tuple_has_no_effect_at_the_default() {
    let t = tuple(&[16384], None);
    assert_eq!(tuple_scalar::<Fixed>(&t, true, &[0]), None);
    assert_eq!(tuple_scalar::<Fixed>(&t, true, &[]), None);
    assert_eq!(tuple_scalar::<Single>(&t, true, &[]), None);
}

#[test]
fn inactive_tuple_has_no_effect() {
    let t = tuple(&[16384], None);
    assert_eq!(tuple_scalar::<Fixed>(&t, false, &[16384]), None);
    assert_eq!(tuple_scalar::<Fixed>(&t, true, &[16384]), Some(Fixed { bits: 0x10000 }));
}

#[test]
fn ratios_of_all_axes_multiply() {
    let t = tuple(&[16384, 16384], None);
    let scalar: Option<Fixed> = tuple_scalar(&t, true, &[8192, 4096]);
    assert_eq!(scalar, Some(Fixed { bits: 0x2000 }));
    let scalar: Option<Single> = tuple_scalar(&t, true, &[8192, 4096]);
    assert_eq!(scalar, Some(Single(0.125)));
    // Thirds do not come out even: double precision, narrowed once at the end.
    let t = tuple(&[3, 7], None);
    let scalar: Option<Single> = tuple_scalar(&t, true, &[1, 3]);
    assert_eq!(scalar, Some(Single((1.0f64 / 3.0 * (3.0f64 / 7.0)) as f32)));
    let scalar: Option<Fixed> = tuple_scalar(&t, true, &[1, 3]);
    assert_eq!(scalar, Some(Fixed { bits: 9362 }));
}

#[test]
fn zero_scalar_is_no_scalar() {
    let t = tuple(&[8192], Some((&[4096], &[16384])));
    assert_eq!(tuple_scalar::<Fixed>(&t, true, &[4096]), None);
    assert_eq!(tuple_scalar::<Single>(&t, true, &[4096]), None);
    assert_eq!(tuple_scalar::<Single>(&t, true, &[16384]), None);
    // Too small for 16.16, but not for single precision.
    let t = tuple(&[16384, 16384], None);
    assert_eq!(tuple_scalar::<Fixed>(&t, true, &[1, 1]), None);
    let tiny = Single((1.0f64 / 16384.0 / 16384.0) as f32);
    assert_eq!(tuple_scalar::<Single>(&t, true, &[1, 1]), Some(tiny));
}

#[test]
fn region_with_one_end_is_no_region() {
    let mut t = tuple(&[8192], Some((&[4096], &[16384])));
    t.intermediate_end = None;
    let scalar: Option<Fixed> = tuple_scalar(&t, true, &[2048]);
    assert_eq!(scalar, Some(Fixed { bits: 0x4000 }));
}

#[test]
fn short_region_ends_in_zeros() {
    // The second axis has the region 0..0, which lacks the peak and so has no say.
    let t = tuple(&[8192, 8192], Some((&[0], &[16384])));
    let scalar: Option<Fixed> = tuple_scalar(&t, true, &[4096, 100]);
    assert_eq!(scalar, Some(Fixed { bits: 0x8000 }));
}

#[test]
fn missing_activity_means_inactive() {
    let data = GlyphVariationData {
        tuples: vec![tuple(&[16384], None), tuple(&[16384], None), tuple(&[16384], None)],
        active: vec![true, false],
    };
    assert_eq!(data.scalar::<Fixed>(0, &[16384]), Some(Fixed { bits: 0x10000 }));
    assert_eq!(data.scalar::<Fixed>(1, &[16384]), None);
    assert_eq!(data.scalar::<Fixed>(2, &[16384]), None);
}

#[test]
fn fixed_point_arithmetic() {
    let one = Fixed { bits: 0x10000 };
    let half = Fixed { bits: 0x8000 };
    assert_eq!(Fixed::from_i32(1), one);
    assert_eq!(Fixed::from_i32(-3), Fixed { bits: -0x30000 });
    assert_eq!(Fixed::from_i32(0x8001), Fixed { bits: -0x7fff0000 });
    assert_eq!(Fixed::zero(), Fixed { bits: 0 });
    assert_eq!(one.plus(half), Fixed { bits: 0x18000 });
    assert_eq!(half.minus(one), Fixed { bits: -0x8000 });
    assert_eq!(Fixed { bits: i32::MAX }.plus(Fixed { bits: 1 }), Fixed { bits: i32::MIN });
    assert_eq!(Fixed { bits: i32::MIN }.minus(Fixed { bits: 1 }), Fixed { bits: i32::MAX });
    assert_eq!(half.times(half), Fixed { bits: 0x4000 });
    // Halves round away from zero.
    assert_eq!(Fixed { bits: 1 }.times(half), Fixed { bits: 1 });
    assert_eq!(Fixed { bits: -1 }.times(half), Fixed { bits: -1 });
    assert_eq!(Fixed { bits: -3 }.times(Fixed { bits: 0x4000 }), Fixed { bits: -1 });
    assert_eq!(Fixed { bits: i32::MIN }.times(Fixed { bits: i32::MIN }), Fixed { bits: 0 });
    assert_eq!(one.over(Fixed::from_i32(3)), Fixed { bits: 21845 });
    assert_eq!(Fixed::from_i32(-2).over(Fixed::from_i32(3)), Fixed { bits: -43691 });
    assert_eq!(one.over(Fixed::zero()), Fixed { bits: i32::MAX });
    assert_eq!(Fixed { bits: -1 }.over(Fixed::zero()), Fixed { bits: -i32::MAX });
    assert!(half.at_most(one) && !one.at_most(half) && one.at_most(one));
    assert!(one.at_least(half) && !half.at_least(one) && one.at_least(one));
    assert!(one.above(half) && !one.above(one));
    assert!(one.same(one) && !one.same(half));
    assert_eq!(<Fixed as CoordFrom<Fixed>>::coord_from(half), half);
}

#[test]
fn displacements_survive_wrapping() {
    let p = Fixed { bits: i32::MAX - 3 };
    let d = Fixed { bits: 100 };
    assert_eq!(p.plus(d).minus(p), d);
    let origin = Fixed { bits: i32::MIN + 1 };
    let base = Fixed { bits: -50 };
    let sum = base.plus(p.minus(origin)).plus(d);
    assert_eq!(sum, base.plus(p.plus(d).minus(origin)));
}

#[test]
fn factors_are_positive_and_at_most_one() {
    for peak in [-16384, -5, 1, 7, 16384] {
        let t = tuple(&[peak, 9], None);
        for coord in [-16384, -3, 0, 1, 5, 16384] {
            if let Some(factor) = tuple_scalar::<Fixed>(&t, true, &[coord, 4]) {
                assert!(0 < factor.bits && factor.bits <= 0x10000);
            }
        }
    }
}
