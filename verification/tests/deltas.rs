use skeravar::coord::{CoordFrom, Point, PointCoord};
use skeravar::deltas::{
    composite_deltas, composite_glyph, composite_glyph_from, simple_deltas, simple_glyph,
    simple_glyph_from, SimpleGlyph, PHANTOM_POINT_COUNT,
};
use skeravar::error::ReadError;
use skeravar::fixed::Fixed;
use skeravar::flags::PointFlags;
use skeravar::gvar::{Gvar, HEADER_LEN};
use skeravar::tuple::{GlyphDelta, GlyphVariationData, Ratio, Scalar, TupleVariation};

/// A single precision coordinate, scaled by products in double precision.
#[derive(Clone, Copy, Debug, PartialEq)]
struct Single(f32);

impl PointCoord for Single {
    fn zero_spec() -> Self {
        Self::zero()
    }
    fn from_i32_spec(value: i32) -> Self {
        Self::from_i32(value)
    }
    fn plus_spec(self, rhs: Self) -> Self {
        self.plus(rhs)
    }
    fn minus_spec(self, rhs: Self) -> Self {
        self.minus(rhs)
    }
    fn times_spec(self, rhs: Self) -> Self {
        self.times(rhs)
    }
    fn over_spec(self, rhs: Self) -> Self {
        self.over(rhs)
    }
    fn same_spec(self, rhs: Self) -> bool {
        self.same(rhs)
    }
    fn at_most_spec(self, rhs: Self) -> bool {
        self.at_most(rhs)
    }
    fn at_least_spec(self, rhs: Self) -> bool {
        self.at_least(rhs)
    }
    fn above_spec(self, rhs: Self) -> bool {
        self.above(rhs)
    }
    fn zero() -> Self {
        Single(0.0)
    }
    fn from_i32(value: i32) -> Self {
        Single(value as f32)
    }
    fn plus(self, rhs: Self) -> Self {
        Single(self.0 + rhs.0)
    }
    fn minus(self, rhs: Self) -> Self {
        Single(self.0 - rhs.0)
    }
    fn times(self, rhs: Self) -> Self {
        Single(self.0 * rhs.0)
    }
    fn over(self, rhs: Self) -> Self {
        Single(self.0 / rhs.0)
    }
    fn same(self, rhs: Self) -> bool {
        self.0 == rhs.0
    }
    fn at_most(self, rhs: Self) -> bool {
        self.0 <= rhs.0
    }
    fn at_least(self, rhs: Self) -> bool {
        self.0 >= rhs.0
    }
    fn above(self, rhs: Self) -> bool {
        self.0 > rhs.0
    }
}

impl CoordFrom<Single> for Single {
    fn coord_from_spec(value: Single) -> Self {
        value
    }
    fn coord_from(value: Single) -> Self {
        value
    }
}

impl Scalar for Single {
    type Product = f64;

    fn one_spec() -> f64 {
        Self::one()
    }
    fn times_ratio_spec(product: f64, ratio: Ratio) -> f64 {
        Self::times_ratio(product, ratio)
    }
    fn narrowed_spec(product: f64) -> Option<Self> {
        Self::narrowed(product)
    }
    fn one() -> f64 {
        1.0
    }
    fn times_ratio(product: f64, ratio: Ratio) -> f64 {
        product * (ratio.num as f64 / ratio.den as f64)
    }
    fn narrowed(product: f64) -> Option<Self> {
        let scalar = product as f32;
        if scalar != 0.0 {
            Some(Single(scalar))
        } else {
            None
        }
    }
}

fn fixed(x: f64, y: f64) -> Point<Fixed> {
    let bits = |v: f64| Fixed { bits: (v * 65536.0) as i32 };
    Point { x: bits(x), y: bits(y) }
}

fn single(x: f32, y: f32) -> Point<Single> {
    Point { x: Single(x), y: Single(y) }
}

fn push_u16(bytes: &mut Vec<u8>, value: u16) {
    bytes.extend_from_slice(&value.to_be_bytes());
}

fn push_u32(bytes: &mut Vec<u8>, value: u32) {
    bytes.extend_from_slice(&value.to_be_bytes());
}

/// A `gvar` table with one axis and the given shared tuples and glyph variation data.
fn gvar_table(shared: &[i16], glyphs: &[Vec<u8>]) -> Vec<u8> {
    let offsets_len = 4 * (glyphs.len() as u32 + 1);
    let shared_offset = HEADER_LEN as u32 + offsets_len;
    let data_offset = shared_offset + 2 * shared.len() as u32;
    let mut bytes = Vec::new();
    push_u32(&mut bytes, 0x00010000);
    push_u16(&mut bytes, 1);
    push_u16(&mut bytes, shared.len() as u16);
    push_u32(&mut bytes, shared_offset);
    push_u16(&mut bytes, glyphs.len() as u16);
    push_u16(&mut bytes, 1);
    push_u32(&mut bytes, data_offset);
    let mut end = 0;
    push_u32(&mut bytes, end);
    for glyph in glyphs {
        end += glyph.len() as u32;
        push_u32(&mut bytes, end);
    }
    for &value in shared {
        push_u16(&mut bytes, value as u16);
    }
    for glyph in glyphs {
        bytes.extend_from_slice(glyph);
    }
    bytes
}

/// Glyph variation data with tuples that have embedded peaks and private point numbers, each given
/// by its peak and its serialized data.
fn glyph_data(tuples: &[(i16, Vec<u8>)]) -> Vec<u8> {
    let mut bytes = Vec::new();
    push_u16(&mut bytes, tuples.len() as u16);
    push_u16(&mut bytes, 4 + 6 * tuples.len() as u16);
    for (peak, data) in tuples {
        push_u16(&mut bytes, data.len() as u16);
        push_u16(&mut bytes, 0xA000);
        push_u16(&mut bytes, *peak as u16);
    }
    for (_, data) in tuples {
        bytes.extend_from_slice(data);
    }
    bytes
}

/// The serialized deltas of a tuple: point numbers, or none for all points, then x and y deltas.
fn serialized(points: &[u8], x: &[i8], y: &[i8]) -> Vec<u8> {
    let mut bytes = vec![points.len() as u8];
    if !points.is_empty() {
        bytes.push(points.len() as u8 - 1);
        let mut last = 0;
        for &point in points {
            bytes.push(point - last);
            last = point;
        }
    }
    for values in [x, y] {
        bytes.push(values.len() as u8 - 1);
        bytes.extend(values.iter().map(|v| *v as u8));
    }
    bytes
}

/// A square with four phantom points.
fn square() -> Vec<Point<Fixed>> {
    [(0, 0), (10, 0), (10, 10), (0, 10), (0, 0), (12, 0), (0, 0), (0, 0)]
        .iter()
        .map(|p| fixed(p.0 as f64, p.1 as f64))
        .collect()
}

fn square_single() -> Vec<Point<Single>> {
    [(0, 0), (10, 0), (10, 10), (0, 10), (0, 0), (12, 0), (0, 0), (0, 0)]
        .iter()
        .map(|p| single(p.0 as f32, p.1 as f32))
        .collect()
}

fn sparse_table() -> Vec<u8> {
    let data = serialized(&[0, 2, 5], &[10, 20, 7], &[0, 10, 0]);
    gvar_table(&[], &[glyph_data(&[(16384, data)])])
}

fn dense_table() -> Vec<u8> {
    let x = [10, -20, 3, 4, 0, 5, 0, 0];
    let y = [1, 2, 0, -4, 0, 0, 6, 0];
    gvar_table(&[], &[glyph_data(&[(16384, serialized(&[], &x, &y))])])
}

fn tuple(all_points: bool, deltas: &[(u16, i32, i32)]) -> TupleVariation {
    TupleVariation {
        peak: vec![16384],
        intermediate_start: None,
        intermediate_end: None,
        all_points,
        deltas: deltas
            .iter()
            .map(|d| GlyphDelta { position: d.0, x_delta: d.1, y_delta: d.2 })
            .collect(),
    }
}

fn data_of(tuples: Vec<TupleVariation>) -> GlyphVariationData {
    let active = vec![true; tuples.len()];
    GlyphVariationData { tuples, active }
}

#[test]
fn table_must_hold_its_header() {
    let bytes = [0u8; HEADER_LEN];
    assert!(Gvar::read(&bytes).is_ok());
    assert_eq!(Gvar::read(&bytes[..HEADER_LEN - 1]).err(), Some(ReadError::OutOfBounds));
    assert_eq!(Gvar::read(&[]).err(), Some(ReadError::OutOfBounds));
}

#[test]
fn tuples_are_read_from_the_table() {
    let bytes = sparse_table();
    let gvar = Gvar::read(&bytes).unwrap();
    let data = gvar.glyph_variation_data(0, &[16384]).unwrap().unwrap();
    assert_eq!(data.active, vec![true]);
    assert_eq!(data.tuples.len(), 1);
    let tuple = &data.tuples[0];
    assert_eq!(tuple.peak, vec![16384]);
    assert_eq!(tuple.intermediate_start, None);
    assert_eq!(tuple.intermediate_end, None);
    assert!(!tuple.all_points);
    let expected = [
        GlyphDelta { position: 0, x_delta: 10, y_delta: 0 },
        GlyphDelta { position: 2, x_delta: 20, y_delta: 10 },
        GlyphDelta { position: 5, x_delta: 7, y_delta: 0 },
    ];
    assert_eq!(tuple.deltas, expected);
    let bytes = dense_table();
    let gvar = Gvar::read(&bytes).unwrap();
    let data = gvar.glyph_variation_data(0, &[]).unwrap().unwrap();
    assert_eq!(data.active, vec![false]);
    assert!(data.tuples[0].all_points);
    assert_eq!(data.tuples[0].deltas.len(), 8);
    assert_eq!(data.tuples[0].deltas[3], GlyphDelta { position: 3, x_delta: 4, y_delta: -4 });
}

#[test]
fn intermediate_regions_are_read_from_the_table() {
    let data = serialized(&[], &[8], &[0]);
    let mut glyph = Vec::new();
    push_u16(&mut glyph, 1);
    push_u16(&mut glyph, 14);
    push_u16(&mut glyph, data.len() as u16);
    push_u16(&mut glyph, 0xE000);
    push_u16(&mut glyph, 8192);
    push_u16(&mut glyph, 4096);
    push_u16(&mut glyph, 16384);
    glyph.extend_from_slice(&data);
    let bytes = gvar_table(&[], &[glyph]);
    let gvar = Gvar::read(&bytes).unwrap();
    let data = gvar.glyph_variation_data(0, &[6144]).unwrap().unwrap();
    assert_eq!(data.active, vec![true]);
    assert_eq!(data.tuples[0].intermediate_start, Some(vec![4096]));
    assert_eq!(data.tuples[0].intermediate_end, Some(vec![16384]));
    let outside = gvar.glyph_variation_data(0, &[4095]).unwrap().unwrap();
    assert_eq!(outside.active, vec![false]);
    let mut deltas = [fixed(0.0, 0.0)];
    composite_glyph::<Fixed, Fixed>(&gvar, 0, &[6144], &mut deltas).unwrap();
    assert_eq!(deltas, [fixed(4.0, 0.0)]);
    composite_glyph::<Fixed, Fixed>(&gvar, 0, &[4095], &mut deltas).unwrap();
    assert_eq!(deltas, [fixed(0.0, 0.0)]);
}

#[test]
fn shared_peaks_are_read_from_the_table() {
    let data = serialized(&[], &[8], &[2]);
    for (index, active) in [(1u16, true), (2, false)] {
        let mut glyph = Vec::new();
        push_u16(&mut glyph, 1);
        push_u16(&mut glyph, 8);
        push_u16(&mut glyph, data.len() as u16);
        push_u16(&mut glyph, 0x2000 | index);
        glyph.extend_from_slice(&data);
        let bytes = gvar_table(&[5, 8192], &[glyph]);
        let gvar = Gvar::read(&bytes).unwrap();
        // A shared tuple that does not exist leaves the tuple without a peak and inactive.
        let found = gvar.glyph_variation_data(0, &[8192]).unwrap().unwrap();
        assert_eq!(found.active, vec![active]);
        assert_eq!(found.tuples[0].peak.len(), active as usize);
        let mut deltas = [fixed(1.0, 1.0)];
        composite_glyph::<Fixed, Fixed>(&gvar, 0, &[8192], &mut deltas).unwrap();
        let expected = if active { fixed(8.0, 2.0) } else { fixed(0.0, 0.0) };
        assert_eq!(deltas, [expected]);
    }
}

#[test]
fn composite_deltas_at_the_peak_and_halfway() {
    let bytes = dense_table();
    let gvar = Gvar::read(&bytes).unwrap();
    let mut deltas = [fixed(9.0, 9.0); 3];
    assert_eq!(composite_glyph::<Fixed, Fixed>(&gvar, 0, &[16384], &mut deltas), Ok(()));
    assert_eq!(deltas, [fixed(10.0, 1.0), fixed(-20.0, 2.0), fixed(3.0, 0.0)]);
    assert_eq!(composite_glyph::<Fixed, Fixed>(&gvar, 0, &[8192], &mut deltas), Ok(()));
    assert_eq!(deltas, [fixed(5.0, 0.5), fixed(-10.0, 1.0), fixed(1.5, 0.0)]);
}

#[test]
fn composite_deltas_in_single_precision() {
    let bytes = dense_table();
    let gvar = Gvar::read(&bytes).unwrap();
    let mut deltas = [single(9.0, 9.0); 2];
    assert_eq!(composite_glyph::<Single, Single>(&gvar, 0, &[5461], &mut deltas), Ok(()));
    let scalar = (5461.0f64 / 16384.0) as f32;
    assert_eq!(deltas, [single(10.0 * scalar, scalar), single(-20.0 * scalar, 2.0 * scalar)]);
}

#[test]
fn composite_glyph_takes_sparse_tuples_at_their_word() {
    let bytes = sparse_table();
    let gvar = Gvar::read(&bytes).unwrap();
    let mut deltas = [fixed(9.0, 9.0); 4];
    assert_eq!(composite_glyph::<Fixed, Fixed>(&gvar, 0, &[16384], &mut deltas), Ok(()));
    let zero = fixed(0.0, 0.0);
    assert_eq!(deltas, [fixed(10.0, 0.0), zero, fixed(20.0, 10.0), zero]);
}

#[test]
fn composite_glyph_without_data_has_zero_deltas() {
    let bytes = gvar_table(&[], &[Vec::new()]);
    let gvar = Gvar::read(&bytes).unwrap();
    assert!(gvar.glyph_variation_data(0, &[16384]).unwrap().is_none());
    for glyph in [0, 1, 70000] {
        let mut deltas = [fixed(9.0, 9.0); 2];
        assert_eq!(composite_glyph::<Fixed, Fixed>(&gvar, glyph, &[16384], &mut deltas), Ok(()));
        assert_eq!(deltas, [fixed(0.0, 0.0); 2]);
    }
}

#[test]
fn deltas_add_up_over_tuples() {
    let data = data_of(vec![
        tuple(true, &[(0, 4, 0), (1, 8, 8)]),
        tuple(false, &[(1, 1, 2), (7, 9, 9), (1, 1, 0)]),
    ]);
    let mut deltas = [fixed(1.0, 0.0), fixed(0.0, 0.0)];
    composite_deltas::<Fixed, Fixed>(&data, &[8192], &mut deltas);
    assert_eq!(deltas, [fixed(3.0, 0.0), fixed(5.0, 5.0)]);
}

#[test]
fn simple_glyph_infers_missing_deltas() {
    let bytes = sparse_table();
    let gvar = Gvar::read(&bytes).unwrap();
    let points = square();
    let mut flags = vec![PointFlags { bits: 1 }; 8];
    let mut buffer = vec![fixed(0.0, 0.0); 8];
    let mut deltas = vec![fixed(9.0, 9.0); 8];
    let glyph = SimpleGlyph { points: &points, flags: &mut flags, contours: &[3] };
    let outcome =
        simple_glyph::<Fixed, Fixed, Fixed>(&gvar, 0, &[16384], glyph, &mut buffer, &mut deltas);
    assert_eq!(outcome, Ok(()));
    let zero = fixed(0.0, 0.0);
    let expected = [
        fixed(10.0, 0.0),
        fixed(20.0, 0.0),
        fixed(20.0, 10.0),
        fixed(10.0, 10.0),
        zero,
        fixed(7.0, 0.0),
        zero,
        zero,
    ];
    assert_eq!(deltas, expected);
    let marked: Vec<bool> = flags.iter().map(|f| f.has_delta()).collect();
    assert_eq!(marked, [true, false, true, false, false, true, false, false]);
    assert!(flags.iter().all(|f| f.without_delta() == PointFlags { bits: 1 }));
}

#[test]
fn simple_glyph_in_single_precision() {
    let bytes = sparse_table();
    let gvar = Gvar::read(&bytes).unwrap();
    let points = square_single();
    let mut flags = vec![PointFlags { bits: 0 }; 8];
    let mut buffer = vec![single(0.0, 0.0); 8];
    let mut deltas = vec![single(9.0, 9.0); 8];
    let glyph = SimpleGlyph { points: &points, flags: &mut flags, contours: &[3] };
    let outcome =
        simple_glyph::<Single, Single, Single>(&gvar, 0, &[8192], glyph, &mut buffer, &mut deltas);
    assert_eq!(outcome, Ok(()));
    let expected = [single(5.0, 0.0), single(10.0, 0.0), single(10.0, 5.0), single(5.0, 5.0)];
    assert_eq!(deltas[..4], expected);
    assert_eq!(deltas[5], single(3.5, 0.0));
}

#[test]
fn dense_tuples_need_no_inference() {
    let bytes = dense_table();
    let gvar = Gvar::read(&bytes).unwrap();
    let points = square();
    let mut flags = vec![PointFlags { bits: 5 }; 8];
    let mut buffer = vec![fixed(2.0, 3.0); 8];
    let mut deltas = vec![fixed(9.0, 9.0); 8];
    let glyph = SimpleGlyph { points: &points, flags: &mut flags, contours: &[3] };
    let outcome =
        simple_glyph::<Fixed, Fixed, Fixed>(&gvar, 0, &[4096], glyph, &mut buffer, &mut deltas);
    assert_eq!(outcome, Ok(()));
    let mut composite = vec![fixed(9.0, 9.0); 8];
    assert_eq!(composite_glyph::<Fixed, Fixed>(&gvar, 0, &[4096], &mut composite), Ok(()));
    assert_eq!(deltas, composite);
    assert_eq!(deltas[0], fixed(2.5, 0.25));
    assert_eq!(flags, vec![PointFlags { bits: 5 }; 8]);
    assert_eq!(buffer, vec![fixed(2.0, 3.0); 8]);
}

#[test]
fn short_buffers_are_an_error() {
    let bytes = sparse_table();
    let gvar = Gvar::read(&bytes).unwrap();
    let points = square();
    for (point_count, buffer_len) in [(8, 7), (3, 8), (0, 0)] {
        let mut flags = vec![PointFlags { bits: 1 }; 8];
        let mut buffer = vec![fixed(2.0, 3.0); buffer_len];
        let mut deltas = vec![fixed(9.0, 9.0); 8];
        let glyph =
            SimpleGlyph { points: &points[..point_count], flags: &mut flags, contours: &[3] };
        let outcome =
            simple_glyph::<Fixed, Fixed, Fixed>(&gvar, 0, &[16384], glyph, &mut buffer, &mut deltas);
        assert_eq!(outcome, Err(ReadError::InvalidArrayLen));
        assert_eq!(deltas, vec![fixed(9.0, 9.0); 8]);
        assert_eq!(flags, vec![PointFlags { bits: 1 }; 8]);
    }
    assert_eq!(PHANTOM_POINT_COUNT, 4);
}

#[test]
fn contours_beyond_the_points_are_an_error() {
    let bytes = sparse_table();
    let gvar = Gvar::read(&bytes).unwrap();
    let points = square();
    let mut flags = vec![PointFlags { bits: 0 }; 8];
    let mut buffer = vec![fixed(0.0, 0.0); 8];
    let mut deltas = vec![fixed(9.0, 9.0); 8];
    let glyph = SimpleGlyph { points: &points, flags: &mut flags, contours: &[8] };
    let outcome =
        simple_glyph::<Fixed, Fixed, Fixed>(&gvar, 0, &[16384], glyph, &mut buffer, &mut deltas);
    assert_eq!(outcome, Err(ReadError::OutOfBounds));
    assert_eq!(deltas, vec![fixed(0.0, 0.0); 8]);
}

#[test]
fn unreadable_data_leaves_everything_as_it_is() {
    let bytes = sparse_table();
    let gvar = Gvar::read(&bytes).unwrap();
    assert!(gvar.glyph_variation_data(1, &[16384]).is_none());
    let points = square();
    let mut flags = vec![PointFlags { bits: 4 }; 8];
    let mut buffer = vec![fixed(2.0, 3.0); 8];
    let mut deltas = vec![fixed(9.0, 9.0); 8];
    let glyph = SimpleGlyph { points: &points, flags: &mut flags, contours: &[3] };
    let outcome =
        simple_glyph::<Fixed, Fixed, Fixed>(&gvar, 1, &[16384], glyph, &mut buffer, &mut deltas);
    assert_eq!(outcome, Ok(()));
    assert_eq!(deltas, vec![fixed(9.0, 9.0); 8]);
    assert_eq!(flags, vec![PointFlags { bits: 4 }; 8]);
    assert_eq!(buffer, vec![fixed(2.0, 3.0); 8]);
}

#[test]
fn missing_data_clears_the_deltas() {
    let bytes = gvar_table(&[], &[Vec::new()]);
    let gvar = Gvar::read(&bytes).unwrap();
    let points = square();
    let mut flags = vec![PointFlags { bits: 4 }; 8];
    let mut buffer = vec![fixed(2.0, 3.0); 8];
    let mut deltas = vec![fixed(9.0, 9.0); 8];
    let glyph = SimpleGlyph { points: &points, flags: &mut flags, contours: &[3] };
    let outcome =
        simple_glyph::<Fixed, Fixed, Fixed>(&gvar, 0, &[16384], glyph, &mut buffer, &mut deltas);
    assert_eq!(outcome, Ok(()));
    assert_eq!(deltas, vec![fixed(0.0, 0.0); 8]);
    assert_eq!(flags, vec![PointFlags { bits: 4 }; 8]);
    assert_eq!(buffer, vec![fixed(2.0, 3.0); 8]);
}

#[test]
fn no_tuple_applies_at_the_default() {
    for bytes in [sparse_table(), dense_table()] {
        let gvar = Gvar::read(&bytes).unwrap();
        let points = square();
        let mut flags = vec![PointFlags { bits: 4 }; 8];
        let mut buffer = vec![fixed(2.0, 3.0); 8];
        let mut deltas = vec![fixed(9.0, 9.0); 8];
        let glyph = SimpleGlyph { points: &points, flags: &mut flags, contours: &[3] };
        let outcome =
            simple_glyph::<Fixed, Fixed, Fixed>(&gvar, 0, &[0], glyph, &mut buffer, &mut deltas);
        assert_eq!(outcome, Ok(()));
        assert_eq!(deltas, vec![fixed(0.0, 0.0); 8]);
        assert_eq!(flags, vec![PointFlags { bits: 4 }; 8]);
        assert_eq!(buffer, vec![fixed(2.0, 3.0); 8]);
    }
}

#[test]
fn buffer_and_markers_are_scratch_space() {
    let points = square();
    let data = data_of(vec![
        tuple(false, &[(0, 10, 0), (2, 20, 10)]),
        tuple(false, &[(1, -3, 5)]),
    ]);
    let mut outcomes = Vec::new();
    for (bits, len, junk) in [(0u8, 8, 0.0), (4, 8, 77.0), (4, 11, -5.0)] {
        let mut flags = vec![PointFlags { bits }; 8];
        let mut buffer = vec![fixed(junk, junk); len];
        let mut deltas = vec![fixed(0.0, 0.0); 8];
        let outcome = simple_deltas::<Fixed, Fixed, Fixed>(
            &data,
            &[16384],
            &points,
            &mut flags,
            &[3],
            &mut buffer,
            &mut deltas,
        );
        assert_eq!(outcome, Ok(()));
        outcomes.push(deltas);
    }
    assert_eq!(outcomes[0][1], fixed(17.0, 5.0));
    assert_eq!(outcomes[0][3], fixed(7.0, 15.0));
    assert_eq!(outcomes[1], outcomes[0]);
    assert_eq!(outcomes[2], outcomes[0]);
}

#[test]
fn explicit_deltas_of_one_point_add_up() {
    let points = square();
    let data = data_of(vec![tuple(false, &[(0, 10, 0), (0, 1, 1), (2, 20, 10), (6, 3, 3)])]);
    let mut flags = vec![PointFlags { bits: 0 }; 8];
    let mut buffer = vec![fixed(0.0, 0.0); 8];
    let mut deltas = vec![fixed(0.5, 0.0); 8];
    let outcome = simple_deltas::<Fixed, Fixed, Fixed>(
        &data,
        &[8192],
        &points,
        &mut flags,
        &[3],
        &mut buffer,
        &mut deltas,
    );
    assert_eq!(outcome, Ok(()));
    assert_eq!(deltas[0], fixed(6.0, 0.5));
    assert_eq!(deltas[2], fixed(10.5, 5.0));
    assert_eq!(deltas[6], fixed(2.0, 1.5));
    assert_eq!(deltas[7], fixed(0.5, 0.0));
}

#[test]
fn earlier_tuples_count_when_a_later_one_fails() {
    let points = square();
    let data = data_of(vec![
        tuple(true, &[(0, 4, 4)]),
        tuple(false, &[(0, 10, 0)]),
        tuple(true, &[(0, 100, 100)]),
    ]);
    let mut flags = vec![PointFlags { bits: 0 }; 8];
    let mut buffer = vec![fixed(0.0, 0.0); 8];
    let mut deltas = vec![fixed(0.0, 0.0); 8];
    let outcome = simple_deltas::<Fixed, Fixed, Fixed>(
        &data,
        &[16384],
        &points,
        &mut flags,
        &[30],
        &mut buffer,
        &mut deltas,
    );
    assert_eq!(outcome, Err(ReadError::OutOfBounds));
    assert_eq!(deltas[0], fixed(4.0, 4.0));
    assert!(flags[0].has_delta());
    assert_eq!(buffer[0], fixed(10.0, 0.0));
}

#[test]
fn complete_glyphs_never_fail() {
    let points = square();
    for positions in [vec![], vec![0u16], vec![3], vec![1, 2], vec![0, 1, 2, 3], vec![9, 65535]] {
        let explicit: Vec<(u16, i32, i32)> = positions.iter().map(|p| (*p, 5, -5)).collect();
        let data = data_of(vec![tuple(false, &explicit)]);
        for contours in [vec![3u16], vec![1, 3], vec![3, 1], vec![7], vec![]] {
            let mut flags = vec![PointFlags { bits: 0 }; 8];
            let mut buffer = vec![fixed(0.0, 0.0); 8];
            let mut deltas = vec![fixed(0.0, 0.0); 8];
            let outcome = simple_deltas::<Fixed, Fixed, Fixed>(
                &data,
                &[16384],
                &points,
                &mut flags,
                &contours,
                &mut buffer,
                &mut deltas,
            );
            assert_eq!(outcome, Ok(()));
        }
    }
}

#[test]
fn fewer_deltas_than_points() {
    let points = square();
    let data = data_of(vec![tuple(false, &[(1, 6, 0)])]);
    let mut flags = vec![PointFlags { bits: 0 }; 8];
    let mut buffer = vec![fixed(0.0, 0.0); 8];
    let mut deltas = vec![fixed(0.0, 0.0); 2];
    let outcome = simple_deltas::<Fixed, Fixed, Fixed>(
        &data,
        &[16384],
        &points,
        &mut flags,
        &[3],
        &mut buffer,
        &mut deltas,
    );
    assert_eq!(outcome, Ok(()));
    assert_eq!(deltas, vec![fixed(6.0, 0.0); 2]);
}

#[test]
fn contours_without_explicit_deltas_stay() {
    let points = square();
    let data = data_of(vec![tuple(false, &[(0, 6, 2)])]);
    let mut flags = vec![PointFlags { bits: 0 }; 8];
    let mut buffer = vec![fixed(0.0, 0.0); 8];
    let mut deltas = vec![fixed(0.25, 0.0); 8];
    let outcome = simple_deltas::<Fixed, Fixed, Fixed>(
        &data,
        &[16384],
        &points,
        &mut flags,
        &[1, 3],
        &mut buffer,
        &mut deltas,
    );
    assert_eq!(outcome, Ok(()));
    assert_eq!(deltas[..2], [fixed(6.25, 2.0); 2]);
    assert_eq!(deltas[2..], [fixed(0.25, 0.0); 6]);
}

#[test]
fn what_was_found_decides() {
    let points = square();
    let data = data_of(vec![tuple(true, &[(0, 6, 2)])]);
    let nine = fixed(9.0, 9.0);
    let zero = fixed(0.0, 0.0);
    let delta = fixed(6.0, 2.0);
    let cases = [(None, nine, zero), (Some(None), zero, zero), (Some(Some(data)), delta, delta)];
    for (found, simple, composite) in cases {
        let mut flags = vec![PointFlags { bits: 0 }; 8];
        let mut buffer = vec![zero; 8];
        let mut deltas = vec![nine; 8];
        let glyph = SimpleGlyph { points: &points, flags: &mut flags, contours: &[3] };
        let outcome = simple_glyph_from::<Fixed, Fixed, Fixed>(
            &found,
            &[16384],
            glyph,
            &mut buffer,
            &mut deltas,
        );
        assert_eq!(outcome, Ok(()));
        assert_eq!(deltas[0], simple);
        let mut deltas = vec![nine; 2];
        composite_glyph_from::<Fixed, Fixed>(&found, &[16384], &mut deltas);
        assert_eq!(deltas, [composite, zero]);
    }
}
