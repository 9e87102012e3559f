//! Coordinates, and what the algorithms of this crate ask of them.
use vstd::prelude::*;

verus! {

/// Arithmetic and comparison on point coordinates.
///
/// Each operation is a function of its operands alone, named by the spec function beside it.
/// Nothing else is assumed: no algebraic law, and no relation between the comparisons, so that
/// rounding types with unordered values qualify. The spec functions are never called.
pub trait PointCoord: Copy {
    /// The value of `zero`.
    spec fn zero_spec() -> Self;

    /// The value of `from_i32`.
    spec fn from_i32_spec(value: i32) -> Self;

    /// The value of `plus`.
    spec fn plus_spec(self, rhs: Self) -> Self;

    /// The value of `minus`.
    spec fn minus_spec(self, rhs: Self) -> Self;

    /// The value of `times`.
    spec fn times_spec(self, rhs: Self) -> Self;

    /// The value of `over`.
    spec fn over_spec(self, rhs: Self) -> Self;

    /// The value of `same`.
    spec fn same_spec(self, rhs: Self) -> bool;

    /// The value of `at_most`.
    spec fn at_most_spec(self, rhs: Self) -> bool;

    /// The value of `at_least`.
    spec fn at_least_spec(self, rhs: Self) -> bool;

    /// The value of `above`.
    spec fn above_spec(self, rhs: Self) -> bool;

    /// The zero coordinate.
    fn zero() -> (r: Self)
        ensures
            r == Self::zero_spec(),
    ;

    /// The coordinate that stands for an integer in font units.
    fn from_i32(value: i32) -> (r: Self)
        ensures
            r == Self::from_i32_spec(value),
    ;

    /// `self + rhs`
    fn plus(self, rhs: Self) -> (r: Self)
        ensures
            r == self.plus_spec(rhs),
    ;

    /// `self - rhs`
    fn minus(self, rhs: Self) -> (r: Self)
        ensures
            r == self.minus_spec(rhs),
    ;

    /// `self * rhs`
    fn times(self, rhs: Self) -> (r: Self)
        ensures
            r == self.times_spec(rhs),
    ;

    /// `self / rhs`
    fn over(self, rhs: Self) -> (r: Self)
        ensures
            r == self.over_spec(rhs),
    ;

    /// `self == rhs`
    fn same(self, rhs: Self) -> (r: bool)
        ensures
            r == self.same_spec(rhs),
    ;

    /// `self <= rhs`
    fn at_most(self, rhs: Self) -> (r: bool)
        ensures
            r == self.at_most_spec(rhs),
    ;

    /// `self >= rhs`
    fn at_least(self, rhs: Self) -> (r: bool)
        ensures
            r == self.at_least_spec(rhs),
    ;

    /// `self > rhs`
    fn above(self, rhs: Self) -> (r: bool)
        ensures
            r == self.above_spec(rhs),
    ;
}

/// Conversion into a coordinate type, from another coordinate type or from a scalar.
pub trait CoordFrom<T>: Sized {
    /// The value of `coord_from`.
    spec fn coord_from_spec(value: T) -> Self;

    /// Converts `value`.
    fn coord_from(value: T) -> (r: Self)
        ensures
            r == Self::coord_from_spec(value),
    ;
}

/// A point, or the displacement of one.
#[derive(Clone, Copy, Debug, PartialEq, Eq)]
pub struct Point<T> {
    pub x: T,
    pub y: T,
}

/// The origin.
pub open spec fn point_zero<D: PointCoord>() -> Point<D> {
    Point { x: D::zero_spec(), y: D::zero_spec() }
}

/// The componentwise sum of two points.
pub open spec fn point_plus<D: PointCoord>(a: Point<D>, b: Point<D>) -> Point<D> {
    Point { x: a.x.plus_spec(b.x), y: a.y.plus_spec(b.y) }
}

/// The componentwise difference of two points.
pub open spec fn point_minus<D: PointCoord>(a: Point<D>, b: Point<D>) -> Point<D> {
    Point { x: a.x.minus_spec(b.x), y: a.y.minus_spec(b.y) }
}

/// A point with both components converted.
pub open spec fn point_from<C, D: CoordFrom<C>>(p: Point<C>) -> Point<D> {
    Point { x: D::coord_from_spec(p.x), y: D::coord_from_spec(p.y) }
}

impl<D: PointCoord> Point<D> {
    /// The origin.
    pub fn zero() -> (r: Self)
        ensures
            r == point_zero::<D>(),
    {
        Point { x: D::zero(), y: D::zero() }
    }

    /// The componentwise sum of two points.
    pub fn plus(self, rhs: Self) -> (r: Self)
        ensures
            r == point_plus(self, rhs),
    {
        Point { x: self.x.plus(rhs.x), y: self.y.plus(rhs.y) }
    }

    /// The componentwise difference of two points.
    pub fn minus(self, rhs: Self) -> (r: Self)
        ensures
            r == point_minus(self, rhs),
    {
        Point { x: self.x.minus(rhs.x), y: self.y.minus(rhs.y) }
    }

    /// The point with both components converted from another coordinate type.
    pub fn converted<C: Copy>(p: Point<C>) -> (r: Self) where D: CoordFrom<C>
        ensures
            r == point_from::<C, D>(p),
    {
        Point { x: D::coord_from(p.x), y: D::coord_from(p.y) }
    }
}

} // verus!
