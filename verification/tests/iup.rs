use skeravar::coord::{CoordFrom, Point, PointCoord};
use skeravar::fixed::Fixed;
use skeravar::flags::{PointFlags, HAS_DELTA};
use skeravar::iup::interpolate_deltas;

/// A single precision coordinate, scaled by products in double precision.
#[derive(Clone, Copy, Debug, PartialEq)]
struct Single(f32);

impl PointCoord for Single {
    fn zero_spec() -> Self {
        Self::zero()
    }
    fn from_i32_spec(value: i32) -> Self {
        Self::from_i32(value)
    }
    fn plus_spec(self, rhs: Self) -> Self {
        self.plus(rhs)
    }
    fn minus_spec(self, rhs: Self) -> Self {
        self.minus(rhs)
    }
    fn times_spec(self, rhs: Self) -> Self {
        self.times(rhs)
    }
    fn over_spec(self, rhs: Self) -> Self {
        self.over(rhs)
    }
    fn same_spec(self, rhs: Self) -> bool {
        self.same(rhs)
    }
    fn at_most_spec(self, rhs: Self) -> bool {
        self.at_most(rhs)
    }
    fn at_least_spec(self, rhs: Self) -> bool {
        self.at_least(rhs)
    }
    fn above_spec(self, rhs: Self) -> bool {
        self.above(rhs)
    }
    fn zero() -> Self {
        Single(0.0)
    }
    fn from_i32(value: i32) -> Self {
        Single(value as f32)
    }
    fn plus(self, rhs: Self) -> Self {
        Single(self.0 + rhs.0)
    }
    fn minus(self, rhs: Self) -> Self {
        Single(self.0 - rhs.0)
    }
    fn times(self, rhs: Self) -> Self {
        Single(self.0 * rhs.0)
    }
    fn over(self, rhs: Self) -> Self {
        Single(self.0 / rhs.0)
    }
    fn same(self, rhs: Self) -> bool {
        self.0 == rhs.0
    }
    fn at_most(self, rhs: Self) -> bool {
        self.0 <= rhs.0
    }
    fn at_least(self, rhs: Self) -> bool {
        self.0 >= rhs.0
    }
    fn above(self, rhs: Self) -> bool {
        self.0 > rhs.0
    }
}

impl CoordFrom<Single> for Single {
    fn coord_from_spec(value: Single) -> Self {
        value
    }
    fn coord_from(value: Single) -> Self {
        value
    }
}

fn point(x: i32, y: i32) -> Point<Fixed> {
    Point { x: Fixed::from_i32(x), y: Fixed::from_i32(y) }
}

fn points(coords: &[(i32, i32)]) -> Vec<Point<Fixed>> {
    coords.iter().map(|c| point(c.0, c.1)).collect()
}

fn singles(coords: &[(f32, f32)]) -> Vec<Point<Single>> {
    coords.iter().map(|c| Point { x: Single(c.0), y: Single(c.1) }).collect()
}

fn flags(len: usize, marked: &[usize]) -> Vec<PointFlags> {
    let mut flags = vec![PointFlags { bits: 1 }; len];
    for &i in marked {
        flags[i] = flags[i].with_delta();
    }
    flags
}

const SQUARE: [(i32, i32); 4] = [(0, 0), (10, 0), (10, 10), (0, 10)];

#[test]
fn markers_leave_other_bits_alone() {
    let f = PointFlags { bits: 0xF3 };
    assert!(!f.has_delta());
    assert_eq!(f.with_delta(), PointFlags { bits: 0xF3 | HAS_DELTA });
    assert!(f.with_delta().has_delta());
    assert_eq!(f.with_delta().without_delta(), f);
    assert_eq!(f.without_delta(), f);
}

#[test]
fn contour_without_deltas_stays() {
    let original = points(&SQUARE);
    let mut out = original.clone();
    assert_eq!(interpolate_deltas(&original, &flags(4, &[]), &[3], &mut out), Some(()));
    assert_eq!(out, original);
}

#[test]
fn single_delta_moves_the_contour() {
    let original = points(&SQUARE);
    let mut out = original.clone();
    out[1] = point(13, -4);
    assert_eq!(interpolate_deltas(&original, &flags(4, &[1]), &[3], &mut out), Some(()));
    assert_eq!(out, points(&[(3, -4), (13, -4), (13, 6), (3, 6)]));
}

#[test]
fn single_delta_of_zero_moves_nothing() {
    // The contour ends beyond the points, which only matters if they are to move.
    let original = points(&SQUARE);
    let mut out = original.clone();
    assert_eq!(interpolate_deltas(&original, &flags(9, &[1]), &[8], &mut out), Some(()));
    assert_eq!(out, original);
}

#[test]
fn points_move_with_the_nearer_reference_outside_and_are_interpolated_inside() {
    let original = points(&[(0, 0), (5, 5), (10, 10), (12, -1), (-2, 20)]);
    let mut out = original.clone();
    out[0] = point(10, 0);
    out[2] = point(30, 20);
    assert_eq!(interpolate_deltas(&original, &flags(5, &[0, 2]), &[4], &mut out), Some(()));
    assert_eq!(out, points(&[(10, 0), (20, 10), (30, 20), (32, -1), (8, 30)]));
}

#[test]
fn references_in_descending_order() {
    let original = points(&[(10, 10), (5, 5), (0, 0)]);
    let mut out = original.clone();
    out[0] = point(30, 20);
    out[2] = point(10, 0);
    assert_eq!(interpolate_deltas(&original, &flags(3, &[0, 2]), &[2], &mut out), Some(()));
    assert_eq!(out, points(&[(30, 20), (20, 10), (10, 0)]));
}

#[test]
fn points_before_the_first_delta_wrap_around() {
    let original = points(&[(0, 0), (5, 5), (10, 10), (20, 20)]);
    let mut out = original.clone();
    out[1] = point(6, 5);
    out[2] = point(10, 12);
    assert_eq!(interpolate_deltas(&original, &flags(4, &[1, 2]), &[3], &mut out), Some(()));
    assert_eq!(out, points(&[(1, 0), (6, 5), (10, 12), (20, 22)]));
}

#[test]
fn coincident_references_with_different_targets_place_nothing() {
    let original = points(&[(5, 0), (7, 3), (5, 10)]);
    let mut out = original.clone();
    out[0] = point(6, 0);
    out[2] = point(9, 10);
    assert_eq!(interpolate_deltas(&original, &flags(3, &[0, 2]), &[2], &mut out), Some(()));
    assert_eq!(out, points(&[(6, 0), (7, 3), (9, 10)]));
}

#[test]
fn coincident_references_with_the_same_target_move_everything() {
    let original = points(&[(5, 0), (7, 3), (3, 3), (5, 10)]);
    let mut out = original.clone();
    out[0] = point(9, 0);
    out[3] = point(9, 10);
    assert_eq!(interpolate_deltas(&original, &flags(4, &[0, 3]), &[3], &mut out), Some(()));
    assert_eq!(out, points(&[(9, 0), (11, 3), (7, 3), (9, 10)]));
}

#[test]
fn contours_are_independent() {
    let original = points(&[(0, 0), (1, 1), (2, 2), (3, 3), (4, 4)]);
    let mut out = original.clone();
    out[0] = point(100, 0);
    out[3] = point(3, 53);
    assert_eq!(interpolate_deltas(&original, &flags(5, &[0, 3]), &[1, 3], &mut out), Some(()));
    assert_eq!(out, points(&[(100, 0), (101, 1), (2, 52), (3, 53), (4, 4)]));
}

#[test]
fn points_beyond_the_contours_stay() {
    let original = points(&[(0, 0), (1, 1), (2, 2)]);
    let mut out = original.clone();
    out[0] = point(7, 7);
    out[2] = point(50, 60);
    assert_eq!(interpolate_deltas(&original, &flags(3, &[0, 2]), &[1], &mut out), Some(()));
    assert_eq!(out, points(&[(7, 7), (8, 8), (50, 60)]));
}

#[test]
fn contours_that_end_before_they_start_are_passed_over() {
    let original = points(&SQUARE);
    let mut out = original.clone();
    out[0] = point(1, 1);
    out[2] = point(20, 20);
    let contours = [1, 0, 1, 3];
    assert_eq!(interpolate_deltas(&original, &flags(4, &[0, 2]), &contours, &mut out), Some(()));
    assert_eq!(out, points(&[(1, 1), (11, 1), (20, 20), (10, 20)]));
}

#[test]
fn missing_flags_are_an_error() {
    let original = points(&SQUARE);
    let mut out = original.clone();
    assert_eq!(interpolate_deltas(&original, &flags(3, &[]), &[3], &mut out), None);
    assert_eq!(out, original);
    out[1] = point(11, 0);
    assert_eq!(interpolate_deltas(&original, &flags(3, &[1]), &[3], &mut out), None);
}

#[test]
fn missing_points_are_an_error() {
    let original = points(&SQUARE);
    let mut out = original.clone();
    out[0] = point(1, 0);
    assert_eq!(interpolate_deltas(&original, &flags(6, &[0]), &[5], &mut out), None);
    // The points after the reference do not exist, so none of them moves.
    assert_eq!(out, points(&[(1, 0), (10, 0), (10, 10), (0, 10)]));
    out[1] = point(12, 3);
    assert_eq!(interpolate_deltas(&original, &flags(6, &[1]), &[5], &mut out), None);
    // Those before it have moved by then.
    assert_eq!(out, points(&[(3, 3), (12, 3), (10, 10), (0, 10)]));
}

#[test]
fn single_precision_interpolation() {
    let original = singles(&[(0.0, 0.0), (1.0, 1.0), (3.0, 3.0)]);
    let mut out = original.clone();
    out[2] = Point { x: Single(4.0), y: Single(3.5) };
    assert_eq!(interpolate_deltas(&original, &flags(3, &[0, 2]), &[2], &mut out), Some(()));
    assert_eq!(out[1].x, Single(4.0f32 / 3.0));
    assert_eq!(out[1].y, Single(3.5f32 / 3.0));
}

#[test]
fn unordered_coordinates_are_interpolated() {
    // A coordinate that is not a number compares with nothing.
    let original = singles(&[(0.0, 0.0), (f32::NAN, 1.0), (2.0, 2.0)]);
    let mut out = original.clone();
    out[2] = Point { x: Single(3.0), y: Single(2.0) };
    assert_eq!(interpolate_deltas(&original, &flags(3, &[0, 2]), &[2], &mut out), Some(()));
    assert!(out[1].x.0.is_nan());
    assert_eq!(out[1].y, Single(1.0));
}

#[test]
fn coinciding_points_move_together() {
    let original = points(&[(0, 0), (10, 0), (0, 4), (10, 4)]);
    let mut out = original.clone();
    out[0] = point(-7, 1);
    out[3] = point(11, 9);
    assert_eq!(interpolate_deltas(&original, &flags(4, &[0, 3]), &[3], &mut out), Some(()));
    assert_eq!(out, points(&[(-7, 1), (11, 1), (-7, 9), (11, 9)]));
}

#[test]
fn spare_room_plays_no_role() {
    let original = points(&SQUARE);
    let mut short = original.clone();
    short[1] = point(13, -4);
    let mut long = short.clone();
    long.push(point(99, 99));
    assert_eq!(interpolate_deltas(&original, &flags(4, &[1]), &[3], &mut short), Some(()));
    assert_eq!(interpolate_deltas(&original, &flags(4, &[1]), &[3], &mut long), Some(()));
    assert_eq!(long[..4], short[..]);
    assert_eq!(long[4], point(99, 99));
}

#[test]
fn references_can_come_in_any_order() {
    let original = singles(&[(1.0, 7.0), (2.0, 6.5), (9.0, 6.0), (4.0, 6.25), (0.5, 9.0)]);
    let mut out = original.clone();
    out[0] = Point { x: Single(3.0), y: Single(7.5) };
    out[2] = Point { x: Single(8.0), y: Single(6.0) };
    let mut swapped = out.clone();
    let mut swapped_original = original.clone();
    swapped.swap(0, 2);
    swapped_original.swap(0, 2);
    let marked = flags(5, &[0, 2]);
    assert_eq!(interpolate_deltas(&original, &marked, &[4], &mut out), Some(()));
    assert_eq!(interpolate_deltas(&swapped_original, &marked, &[4], &mut swapped), Some(()));
    swapped.swap(0, 2);
    assert_eq!(swapped, out);
    assert_eq!(out[4], Point { x: Single(2.5), y: Single(9.5) });
}
