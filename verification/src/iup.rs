//! Inference of deltas for the points that a sparse tuple leaves out.
//!
//! Working contour by contour, a point without an explicit delta is placed between the nearest
//! points that have one, the way TrueType's IUP instruction does.
use crate::coord::{point_from, point_minus, point_plus, CoordFrom, Point, PointCoord};
use crate::flags::PointFlags;
use vstd::prelude::*;

verus! {

/// Whether point `i` carries an explicit delta.
pub open spec fn is_marked(flags: Seq<PointFlags>, i: int) -> bool {
    0 <= i < flags.len() && flags[i].marked()
}

/// The first marked point in `lo..=hi`, or `hi + 1` if there is none.
pub open spec fn first_mark(flags: Seq<PointFlags>, lo: int, hi: int) -> int
    decreases hi - lo + 1,
{
    if lo > hi {
        hi + 1
    } else if is_marked(flags, lo) {
        lo
    } else {
        first_mark(flags, lo + 1, hi)
    }
}

/// The last marked point in `lo..=hi`, or `lo - 1` if there is none.
pub open spec fn last_mark(flags: Seq<PointFlags>, lo: int, hi: int) -> int
    decreases hi - lo + 1,
{
    if lo > hi {
        lo - 1
    } else if is_marked(flags, hi) {
        hi
    } else {
        last_mark(flags, lo, hi - 1)
    }
}

/// The marked points that point `i` of the contour `first..=end` lies between, going round the
/// contour where there is none on one side.
pub open spec fn neighbours(flags: Seq<PointFlags>, first: int, end: int, i: int) -> (int, int) {
    let before = last_mark(flags, first, i - 1);
    let after = first_mark(flags, i + 1, end);
    (
        if before >= first {
            before
        } else {
            last_mark(flags, first, end)
        },
        if after <= end {
            after
        } else {
            first_mark(flags, first, end)
        },
    )
}

/// Whether point `i` has marked points on both sides without going round the contour.
pub open spec fn is_enclosed(flags: Seq<PointFlags>, first: int, end: int, i: int) -> bool {
    last_mark(flags, first, i - 1) >= first && first_mark(flags, i + 1, end) <= end
}

/// Whether two reference points, in ascending order of their original coordinates `in1` and
/// `in2`, place the points between them. References with the same original coordinate and
/// different targets do not: the inferred delta is then zero.
pub open spec fn places<D: PointCoord>(in1: D, in2: D, out1: D, out2: D) -> bool {
    !in1.same_spec(in2) || out1.same_spec(out2)
}

/// Where the coordinate `original` goes between two references that place it: outside their
/// range it moves along with the nearer one, inside it is interpolated.
pub open spec fn placed<D: PointCoord>(original: D, in1: D, in2: D, out1: D, out2: D) -> D {
    if original.at_most_spec(in1) {
        original.plus_spec(out1.minus_spec(in1))
    } else if original.at_least_spec(in2) {
        original.plus_spec(out2.minus_spec(in2))
    } else {
        let scale = if !in1.same_spec(in2) {
            out2.minus_spec(out1).over_spec(in2.minus_spec(in1))
        } else {
            D::zero_spec()
        };
        out1.plus_spec(original.minus_spec(in1).times_spec(scale))
    }
}

/// [`places`] for references in any order.
pub open spec fn refs_place<C: PointCoord, D: PointCoord + CoordFrom<C>>(
    in1: C,
    in2: C,
    out1: D,
    out2: D,
) -> bool {
    if in1.above_spec(in2) {
        places(D::coord_from_spec(in2), D::coord_from_spec(in1), out2, out1)
    } else {
        places(D::coord_from_spec(in1), D::coord_from_spec(in2), out1, out2)
    }
}

/// Where one coordinate of an unmarked point goes, given the original and target coordinates of
/// its two references in any order. `current` is kept if the references do not place it.
pub open spec fn inferred_coord<C: PointCoord, D: PointCoord + CoordFrom<C>>(
    original: C,
    in1: C,
    in2: C,
    out1: D,
    out2: D,
    current: D,
) -> D {
    if !refs_place(in1, in2, out1, out2) {
        current
    } else if in1.above_spec(in2) {
        placed(
            D::coord_from_spec(original),
            D::coord_from_spec(in2),
            D::coord_from_spec(in1),
            out2,
            out1,
        )
    } else {
        placed(
            D::coord_from_spec(original),
            D::coord_from_spec(in1),
            D::coord_from_spec(in2),
            out1,
            out2,
        )
    }
}

/// Where the unmarked point `i` goes between the references `r1` and `r2`.
pub open spec fn inferred_point<C: PointCoord, D: PointCoord + CoordFrom<C>>(
    points: Seq<Point<C>>,
    out: Seq<Point<D>>,
    r1: int,
    r2: int,
    i: int,
) -> Point<D> {
    Point {
        x: inferred_coord(
            points[i].x,
            points[r1].x,
            points[r2].x,
            out[r1].x,
            out[r2].x,
            out[i].x,
        ),
        y: inferred_coord(
            points[i].y,
            points[r1].y,
            points[r2].y,
            out[r1].y,
            out[r2].y,
            out[i].y,
        ),
    }
}

/// Whether the references `r1` and `r2` place the points between them in either coordinate.
pub open spec fn points_place<C: PointCoord, D: PointCoord + CoordFrom<C>>(
    points: Seq<Point<C>>,
    out: Seq<Point<D>>,
    r1: int,
    r2: int,
) -> bool {
    ||| refs_place(points[r1].x, points[r2].x, out[r1].x, out[r2].x)
    ||| refs_place(points[r1].y, points[r2].y, out[r1].y, out[r2].y)
}

/// Whether `i` is the index of a point that has both an original and a target position.
pub open spec fn has_point<C, D>(points: Seq<Point<C>>, out: Seq<Point<D>>, i: int) -> bool {
    0 <= i < points.len() && i < out.len()
}

/// Whether the points `..=hi` can be placed between the references `r1` and `r2`: the references
/// exist, and so do the points if they are to be placed at all.
pub open spec fn can_infer<C: PointCoord, D: PointCoord + CoordFrom<C>>(
    points: Seq<Point<C>>,
    out: Seq<Point<D>>,
    hi: int,
    r1: int,
    r2: int,
) -> bool {
    &&& has_point(points, out, r1)
    &&& has_point(points, out, r2)
    &&& points_place(points, out, r1, r2) ==> has_point(points, out, hi)
}

/// What two references that place the points between them amount to in one coordinate.
#[derive(Clone, Copy)]
struct Span<D> {
    in1: D,
    in2: D,
    out1: D,
    /// How far the lower reference moves.
    shift1: D,
    /// How far the upper reference moves.
    shift2: D,
    /// Target distance per original distance.
    scale: D,
}

impl<D: PointCoord> Span<D> {
    spec fn place_spec(self, original: D) -> D {
        if original.at_most_spec(self.in1) {
            original.plus_spec(self.shift1)
        } else if original.at_least_spec(self.in2) {
            original.plus_spec(self.shift2)
        } else {
            self.out1.plus_spec(original.minus_spec(self.in1).times_spec(self.scale))
        }
    }

    /// The span between two references in ascending order, unless they place nothing.
    fn ascending(in1: D, in2: D, out1: D, out2: D) -> (r: Option<Self>)
        ensures
            r is Some <==> places(in1, in2, out1, out2),
            r matches Some(span) ==> forall|original: D| #[trigger]
                span.place_spec(original) == placed(original, in1, in2, out1, out2),
    {
        let differ = !in1.same(in2);
        if differ || out1.same(out2) {
            let scale = if differ {
                out2.minus(out1).over(in2.minus(in1))
            } else {
                D::zero()
            };
            Some(Span { in1, in2, out1, shift1: out1.minus(in1), shift2: out2.minus(in2), scale })
        } else {
            None
        }
    }

    /// The span between two references in any order, unless they place nothing.
    fn between<C: PointCoord>(in1: C, in2: C, out1: D, out2: D) -> (r: Option<Self>) where
        D: CoordFrom<C>,

        ensures
            r is Some <==> refs_place::<C, D>(in1, in2, out1, out2),
            r matches Some(span) ==> forall|original: C, current: D|
                span.place_spec(D::coord_from_spec(original)) == #[trigger] inferred_coord(
                    original,
                    in1,
                    in2,
                    out1,
                    out2,
                    current,
                ),
    {
        if in1.above(in2) {
            Self::ascending(D::coord_from(in2), D::coord_from(in1), out2, out1)
        } else {
            Self::ascending(D::coord_from(in1), D::coord_from(in2), out1, out2)
        }
    }

    /// Places one coordinate.
    fn place(&self, original: D) -> (r: D)
        ensures
            r == self.place_spec(original),
    {
        if original.at_most(self.in1) {
            original.plus(self.shift1)
        } else if original.at_least(self.in2) {
            original.plus(self.shift2)
        } else {
            self.out1.plus(original.minus(self.in1).times(self.scale))
        }
    }
}

/// Whether the points `lo..=hi` can be placed between the references `r1` and `r2`. No points
/// always can.
pub open spec fn interpolation_ok<C: PointCoord, D: PointCoord + CoordFrom<C>>(
    points: Seq<Point<C>>,
    out: Seq<Point<D>>,
    lo: int,
    hi: int,
    r1: int,
    r2: int,
) -> bool {
    lo > hi || can_infer(points, out, hi, r1, r2)
}

/// What placing the points `lo..=hi` between the references `r1` and `r2` leaves of `out`.
pub open spec fn interpolated<C: PointCoord, D: PointCoord + CoordFrom<C>>(
    points: Seq<Point<C>>,
    out: Seq<Point<D>>,
    lo: int,
    hi: int,
    r1: int,
    r2: int,
) -> Seq<Point<D>> {
    if interpolation_ok(points, out, lo, hi, r1, r2) {
        Seq::new(
            out.len(),
            |i: int|
                if lo <= i <= hi {
                    inferred_point(points, out, r1, r2, i)
                } else {
                    out[i]
                },
        )
    } else {
        out
    }
}

/// Infers the positions of the points `lo..=hi` from the reference points `r1` and `r2`.
///
/// Returns `None`, and moves nothing, if a reference point or a point to be placed is missing.
fn interpolate<C: PointCoord, D: PointCoord + CoordFrom<C>>(
    points: &[Point<C>],
    out_points: &mut [Point<D>],
    lo: usize,
    hi: usize,
    r1: usize,
    r2: usize,
) -> (r: Option<()>)
    ensures
        r is Some <==> interpolation_ok(
            points@,
            old(out_points)@,
            lo as int,
            hi as int,
            r1 as int,
            r2 as int,
        ),
        final(out_points)@ =~= interpolated(
            points@,
            old(out_points)@,
            lo as int,
            hi as int,
            r1 as int,
            r2 as int,
        ),
{
    if lo > hi {
        return Some(());
    }
    if r1 >= points.len() || r2 >= points.len() || r1 >= out_points.len() || r2
        >= out_points.len() {
        return None;
    }
    let ghost out = out_points@;
    let span_x = Span::between(points[r1].x, points[r2].x, out_points[r1].x, out_points[r2].x);
    let span_y = Span::between(points[r1].y, points[r2].y, out_points[r1].y, out_points[r2].y);
    if span_x.is_none() && span_y.is_none() {
        return Some(());
    }
    if hi >= points.len() || hi >= out_points.len() {
        return None;
    }
    let mut i: usize = lo;
    while i <= hi
        invariant
            lo <= i <= hi + 1,
            hi < usize::MAX,
            hi < points@.len(),
            hi < out.len(),
            r1 < points@.len(),
            r2 < points@.len(),
            out_points@.len() == out.len(),
            span_x is Some <==> refs_place(
                points@[r1 as int].x,
                points@[r2 as int].x,
                out[r1 as int].x,
                out[r2 as int].x,
            ),
            span_y is Some <==> refs_place(
                points@[r1 as int].y,
                points@[r2 as int].y,
                out[r1 as int].y,
                out[r2 as int].y,
            ),
            span_x matches Some(span) ==> forall|original: C, current: D|
                span.place_spec(D::coord_from_spec(original)) == #[trigger] inferred_coord(
                    original,
                    points@[r1 as int].x,
                    points@[r2 as int].x,
                    out[r1 as int].x,
                    out[r2 as int].x,
                    current,
                ),
            span_y matches Some(span) ==> forall|original: C, current: D|
                span.place_spec(D::coord_from_spec(original)) == #[trigger] inferred_coord(
                    original,
                    points@[r1 as int].y,
                    points@[r2 as int].y,
                    out[r1 as int].y,
                    out[r2 as int].y,
                    current,
                ),
            forall|j: int|
                0 <= j < out.len() ==> #[trigger] out_points@[j] == if lo <= j < i {
                    inferred_point(points@, out, r1 as int, r2 as int, j)
                } else {
                    out[j]
                },
        decreases hi + 1 - i,
    {
        let x = match &span_x {
            Some(span) => span.place(D::coord_from(points[i].x)),
            None => out_points[i].x,
        };
        let y = match &span_y {
            Some(span) => span.place(D::coord_from(points[i].y)),
            None => out_points[i].y,
        };
        out_points[i] = Point { x, y };
        i += 1;
    }
    Some(())
}

/// How far the reference point `r` moves.
pub open spec fn shift_of<C: PointCoord, D: PointCoord + CoordFrom<C>>(
    points: Seq<Point<C>>,
    out: Seq<Point<D>>,
    r: int,
) -> Point<D> {
    point_minus(out[r], point_from(points[r]))
}

/// Whether a displacement is anything but zero.
pub open spec fn is_shift<D: PointCoord>(delta: Point<D>) -> bool {
    !(delta.x.same_spec(D::zero_spec()) && delta.y.same_spec(D::zero_spec()))
}

/// Moves the points `lo..=hi` along with the reference point `r`, which is one of them and stays.
///
/// Returns `None` if the reference point is missing. If it does not move, nothing does, whatever
/// the range. Otherwise it returns `None` and moves nothing if the range starts after the reference
/// point, and returns `None` having moved the points before the reference point if the range ends
/// before it or after the last point.
fn shift<C: PointCoord, D: PointCoord + CoordFrom<C>>(
    points: &[Point<C>],
    out_points: &mut [Point<D>],
    lo: usize,
    hi: usize,
    r: usize,
) -> (res: Option<()>)
    ensures
        res is Some <==> has_point(points@, old(out_points)@, r as int) && (is_shift(
            shift_of(points@, old(out_points)@, r as int),
        ) ==> lo <= r <= hi < old(out_points)@.len()),
        final(out_points)@ =~= Seq::new(
            old(out_points)@.len(),
            |i: int|
                if has_point(points@, old(out_points)@, r as int) && is_shift(
                    shift_of(points@, old(out_points)@, r as int),
                ) && lo <= r && (lo <= i < r || (r < i <= hi && hi < old(out_points)@.len())) {
                    point_plus(old(out_points)@[i], shift_of(points@, old(out_points)@, r as int))
                } else {
                    old(out_points)@[i]
                },
        ),
{
    if r >= points.len() || r >= out_points.len() {
        return None;
    }
    let ghost out = out_points@;
    let delta = out_points[r].minus(Point::converted(points[r]));
    if delta.x.same(D::zero()) && delta.y.same(D::zero()) {
        return Some(());
    }
    if lo > r {
        return None;
    }
    let mut i: usize = lo;
    while i < r
        invariant
            lo <= i <= r < out.len(),
            out_points@.len() == out.len(),
            forall|j: int|
                0 <= j < out.len() ==> #[trigger] out_points@[j] == if lo <= j < i {
                    point_plus(out[j], delta)
                } else {
                    out[j]
                },
        decreases r - i,
    {
        out_points[i] = out_points[i].plus(delta);
        i += 1;
    }
    if hi < r || hi >= out_points.len() {
        return None;
    }
    i = r + 1;
    while i <= hi
        invariant
            lo <= r < i <= hi + 1,
            hi < out.len(),
            hi < usize::MAX,
            out_points@.len() == out.len(),
            forall|j: int|
                0 <= j < out.len() ==> #[trigger] out_points@[j] == if lo <= j < r || r < j < i {
                    point_plus(out[j], delta)
                } else {
                    out[j]
                },
        decreases hi + 1 - i,
    {
        out_points[i] = out_points[i].plus(delta);
        i += 1;
    }
    Some(())
}

/// Whether the deltas of the contour `first..=end` can be inferred.
///
/// Every point of the contour needs flags. With a single marked point, that point must exist, and
/// so must the whole contour if the point moves. With more than one, every point in between must
/// have its references, and the points after the last marked one must exist if they are placed.
pub open spec fn contour_ok<C: PointCoord, D: PointCoord + CoordFrom<C>>(
    points: Seq<Point<C>>,
    flags: Seq<PointFlags>,
    first: int,
    end: int,
    out: Seq<Point<D>>,
) -> bool {
    let f = first_mark(flags, first, end);
    let l = last_mark(flags, first, end);
    &&& end < flags.len()
    &&& f == l ==> has_point(points, out, f) && (is_shift(shift_of(points, out, f)) ==> end
        < out.len())
    &&& f < l ==> forall|i: int|
        first <= i <= end && !is_marked(flags, i) ==> can_infer(
            points,
            out,
            if i > l {
                end
            } else {
                i
            },
            (#[trigger] neighbours(flags, first, end, i)).0,
            neighbours(flags, first, end, i).1,
        )
}

/// Where point `i` goes when the deltas of the contour `first..=end` are inferred.
///
/// Marked points and points of other contours stay. A contour without marked points stays; one
/// with a single marked point moves along with it; otherwise each point is placed between its
/// neighbours. If the contour is not [`contour_ok`], what happens up to the point of failure does:
/// with a single marked point the points before it move, otherwise the points that are enclosed by
/// existing references do.
pub open spec fn contour_point<C: PointCoord, D: PointCoord + CoordFrom<C>>(
    points: Seq<Point<C>>,
    flags: Seq<PointFlags>,
    first: int,
    end: int,
    out: Seq<Point<D>>,
    i: int,
) -> Point<D> {
    let f = first_mark(flags, first, end);
    let l = last_mark(flags, first, end);
    if !(first <= i <= end) || is_marked(flags, i) || f > end {
        out[i]
    } else if f == l {
        let moves = has_point(points, out, f) && is_shift(shift_of(points, out, f));
        if end < flags.len() && moves && (i < f || end < out.len()) {
            point_plus(out[i], shift_of(points, out, f))
        } else {
            out[i]
        }
    } else {
        let (r1, r2) = neighbours(flags, first, end, i);
        if contour_ok(points, flags, first, end, out) || (is_enclosed(flags, first, end, i)
            && has_point(points, out, r2)) {
            inferred_point(points, out, r1, r2, i)
        } else {
            out[i]
        }
    }
}

/// [`contour_point`] for all points.
pub open spec fn contour_points<C: PointCoord, D: PointCoord + CoordFrom<C>>(
    points: Seq<Point<C>>,
    flags: Seq<PointFlags>,
    first: int,
    end: int,
    out: Seq<Point<D>>,
) -> Seq<Point<D>> {
    Seq::new(out.len(), |i: int| contour_point(points, flags, first, end, out, i))
}

/// What [`first_mark`] finds.
pub proof fn lemma_first_mark(flags: Seq<PointFlags>, lo: int, hi: int)
    ensures
        lo <= hi + 1 ==> lo <= first_mark(flags, lo, hi) <= hi + 1,
        forall|j: int|
            lo <= j < first_mark(flags, lo, hi) && j <= hi ==> !#[trigger] is_marked(flags, j),
        first_mark(flags, lo, hi) <= hi ==> is_marked(flags, first_mark(flags, lo, hi)),
    decreases hi - lo + 1,
{
    if lo <= hi && !is_marked(flags, lo) {
        lemma_first_mark(flags, lo + 1, hi);
    }
}

/// What [`last_mark`] finds.
pub proof fn lemma_last_mark(flags: Seq<PointFlags>, lo: int, hi: int)
    ensures
        lo <= hi + 1 ==> lo - 1 <= last_mark(flags, lo, hi) <= hi,
        forall|j: int|
            last_mark(flags, lo, hi) < j <= hi && lo <= j ==> !#[trigger] is_marked(flags, j),
        last_mark(flags, lo, hi) >= lo ==> is_marked(flags, last_mark(flags, lo, hi)),
    decreases hi - lo + 1,
{
    if lo <= hi && !is_marked(flags, hi) {
        lemma_last_mark(flags, lo, hi - 1);
    }
}

/// A point strictly between two successive marked points has those as neighbours.
pub proof fn lemma_gap_point(
    flags: Seq<PointFlags>,
    first: int,
    end: int,
    cur: int,
    next: int,
    j: int,
)
    requires
        first <= cur < j < next <= end,
        is_marked(flags, cur),
        is_marked(flags, next),
        forall|i: int| cur < i < next ==> !is_marked(flags, i),
    ensures
        neighbours(flags, first, end, j).0 == cur,
        neighbours(flags, first, end, j).1 == next,
        is_enclosed(flags, first, end, j),
{
    lemma_last_mark(flags, first, j - 1);
    lemma_first_mark(flags, j + 1, end);
    assert(last_mark(flags, first, j - 1) == cur);
    assert(first_mark(flags, j + 1, end) == next);
}

/// [`lemma_gap_point`] for all points between two successive marked points.
proof fn lemma_gap(flags: Seq<PointFlags>, first: int, end: int, cur: int, next: int)
    requires
        first <= cur < next <= end,
        is_marked(flags, cur),
        is_marked(flags, next),
        forall|j: int| cur < j < next ==> !is_marked(flags, j),
    ensures
        forall|j: int|
            cur < j < next ==> (#[trigger] neighbours(flags, first, end, j)).0 == cur,
        forall|j: int|
            cur < j < next ==> (#[trigger] neighbours(flags, first, end, j)).1 == next,
        forall|j: int| cur < j < next ==> #[trigger] is_enclosed(flags, first, end, j),
{
    assert forall|j: int| cur < j < next implies (#[trigger] neighbours(flags, first, end, j)).0
        == cur by {
        lemma_gap_point(flags, first, end, cur, next, j);
    }
    assert forall|j: int| cur < j < next implies (#[trigger] neighbours(flags, first, end, j)).1
        == next by {
        lemma_gap_point(flags, first, end, cur, next, j);
    }
    assert forall|j: int| cur < j < next implies #[trigger] is_enclosed(flags, first, end, j) by {
        lemma_gap_point(flags, first, end, cur, next, j);
    }
}

/// Points before the first or after the last marked point have those two as neighbours.
pub proof fn lemma_outer(flags: Seq<PointFlags>, first: int, end: int)
    requires
        first <= end,
        first_mark(flags, first, end) <= end,
    ensures
        first <= first_mark(flags, first, end) <= last_mark(flags, first, end) <= end,
        forall|j: int|
            first <= j <= end && (j < first_mark(flags, first, end) || j > last_mark(
                flags,
                first,
                end,
            )) ==> (#[trigger] neighbours(flags, first, end, j)).0 == last_mark(flags, first, end)
                && neighbours(flags, first, end, j).1 == first_mark(flags, first, end)
                && !is_enclosed(flags, first, end, j) && !is_marked(flags, j),
        forall|j: int|
            first_mark(flags, first, end) < j < last_mark(flags, first, end)
                ==> #[trigger] is_enclosed(flags, first, end, j),
{
    let f = first_mark(flags, first, end);
    let l = last_mark(flags, first, end);
    lemma_first_mark(flags, first, end);
    lemma_last_mark(flags, first, end);
    assert forall|j: int| first <= j <= end && (j < f || j > l) implies (#[trigger] neighbours(
        flags,
        first,
        end,
        j,
    )).0 == l && neighbours(flags, first, end, j).1 == f && !is_enclosed(flags, first, end, j)
        && !is_marked(flags, j) by {
        lemma_last_mark(flags, first, j - 1);
        lemma_first_mark(flags, j + 1, end);
        let b = last_mark(flags, first, j - 1);
        let a = first_mark(flags, j + 1, end);
        if j < f {
            assert(b < first);
            assert(a <= f);
            assert(a == f);
        } else {
            assert(a > end);
            assert(b >= l);
            assert(b == l);
        }
    }
    assert forall|j: int| f < j < l implies #[trigger] is_enclosed(flags, first, end, j) by {
        lemma_last_mark(flags, first, j - 1);
        lemma_first_mark(flags, j + 1, end);
    }
}

/// Finds the first marked point in `lo..=hi`; `hi + 1` stands for none. Returns `None` if the
/// flags run out before a marked point is found.
fn find_mark(flags: &[PointFlags], lo: usize, hi: usize) -> (r: Option<usize>)
    requires
        lo <= hi + 1,
        hi < usize::MAX,
    ensures
        r is None <==> lo <= hi && first_mark(flags@, lo as int, hi as int) > hi && flags@.len()
            <= hi,
        r matches Some(i) ==> i == first_mark(flags@, lo as int, hi as int),
{
    let mut i: usize = lo;
    while i <= hi
        invariant
            lo <= i <= hi + 1,
            hi < usize::MAX,
            first_mark(flags@, lo as int, hi as int) == first_mark(flags@, i as int, hi as int),
            lo < i ==> i <= flags@.len(),
        decreases hi + 1 - i,
    {
        if i >= flags.len() {
            proof {
                lemma_first_mark(flags@, i as int, hi as int);
            }
            return None;
        }
        if flags[i].has_delta() {
            return Some(i);
        }
        i += 1;
    }
    Some(i)
}

/// Infers the deltas of the contour `first..=end`.
///
/// Returns `None` if flags, reference points or points to be placed are missing.
fn interpolate_contour<C: PointCoord, D: PointCoord + CoordFrom<C>>(
    points: &[Point<C>],
    flags: &[PointFlags],
    first: usize,
    end: usize,
    out_points: &mut [Point<D>],
) -> (r: Option<()>)
    requires
        first <= end < usize::MAX,
    ensures
        r is Some <==> contour_ok(points@, flags@, first as int, end as int, old(out_points)@),
        final(out_points)@ =~= contour_points(
            points@,
            flags@,
            first as int,
            end as int,
            old(out_points)@,
        ),
{
    let ghost out = out_points@;
    let ghost lo = first as int;
    let ghost hi = end as int;
    proof {
        lemma_first_mark(flags@, lo, hi);
        lemma_last_mark(flags@, lo, hi);
    }
    let first_delta: usize = match find_mark(flags, first, end) {
        Some(i) => i,
        None => return None,
    };
    if first_delta > end {
        return Some(());
    }
    proof {
        lemma_outer(flags@, lo, hi);
    }
    let mut cur_delta: usize = first_delta;
    loop
        invariant
            out == old(out_points)@,
            lo == first,
            hi == end,
            first <= first_delta <= cur_delta <= end < usize::MAX,
            first_delta == first_mark(flags@, first as int, end as int),
            is_marked(flags@, cur_delta as int),
            out_points@.len() == out.len(),
            forall|j: int|
                0 <= j < out.len() ==> #[trigger] out_points@[j] == if first_delta < j < cur_delta
                    && !is_marked(flags@, j) {
                    inferred_point(
                        points@,
                        out,
                        neighbours(flags@, first as int, end as int, j).0,
                        neighbours(flags@, first as int, end as int, j).1,
                        j,
                    )
                } else {
                    out[j]
                },
            forall|j: int|
                first_delta < j < cur_delta && !is_marked(flags@, j) ==> has_point(
                    points@,
                    out,
                    (#[trigger] neighbours(flags@, first as int, end as int, j)).1,
                ),
        ensures
            cur_delta == last_mark(flags@, first as int, end as int),
            end < flags@.len(),
        decreases end - cur_delta,
    {
        proof {
            lemma_first_mark(flags@, cur_delta + 1, end as int);
            lemma_first_mark(flags@, first as int, end as int);
            lemma_last_mark(flags@, first as int, end as int);
            lemma_outer(flags@, first as int, end as int);
        }
        let next_delta: usize = match find_mark(flags, cur_delta + 1, end) {
            Some(i) => i,
            None => return None,
        };
        if next_delta > end {
            break;
        }
        let ghost before = out_points@;
        proof {
            lemma_gap(flags@, first as int, end as int, cur_delta as int, next_delta as int);
        }
        let gap_start: usize = cur_delta + 1;
        let gap_end: usize = next_delta - 1;
        if interpolate(points, out_points, gap_start, gap_end, cur_delta, next_delta).is_none() {
            proof {
                let j = cur_delta + 1;
                assert(!has_point(points@, out, next_delta as int));
                assert(neighbours(flags@, lo, hi, j).1 == next_delta);
                assert(!contour_ok(points@, flags@, lo, hi, out));
                assert forall|i: int| 0 <= i < out.len() implies #[trigger] out_points@[i]
                    == contour_point(points@, flags@, lo, hi, out, i) by {
                    lemma_first_mark(flags@, i + 1, hi);
                    lemma_last_mark(flags@, lo, i - 1);
                }
            }
            return None;
        }
        cur_delta = next_delta;
    }
    proof {
        lemma_outer(flags@, lo, hi);
    }
    if cur_delta == first_delta {
        let r = shift(points, out_points, first, end, cur_delta);
        proof {
            assert forall|i: int| 0 <= i < out.len() implies #[trigger] out_points@[i]
                == contour_point(points@, flags@, lo, hi, out, i) by {}
        }
        r
    } else {
        let ghost f = first_delta as int;
        let ghost l = cur_delta as int;
        let ghost enclosed = out_points@;
        assert(enclosed[l] == out[l] || l >= out.len());
        assert(enclosed[f] == out[f] || f >= out.len());
        if interpolate(points, out_points, cur_delta + 1, end, cur_delta, first_delta).is_none() {
            proof {
                let j = l + 1;
                assert(neighbours(flags@, lo, hi, j).0 == l);
                assert(!contour_ok(points@, flags@, lo, hi, out));
                assert forall|i: int| 0 <= i < out.len() implies #[trigger] out_points@[i]
                    == contour_point(points@, flags@, lo, hi, out, i) by {
                    assert(f < i < l ==> is_enclosed(flags@, lo, hi, i));
                }
            }
            return None;
        }
        let r = if first_delta > 0 {
            interpolate(points, out_points, first, first_delta - 1, cur_delta, first_delta)
        } else {
            Some(())
        };
        proof {
            if r is None {
                assert(neighbours(flags@, lo, hi, lo).0 == l);
                assert(!contour_ok(points@, flags@, lo, hi, out));
            } else {
                assert forall|i: int| lo <= i <= hi && !is_marked(flags@, i) implies can_infer(
                    points@,
                    out,
                    if i > l {
                        hi
                    } else {
                        i
                    },
                    (#[trigger] neighbours(flags@, lo, hi, i)).0,
                    neighbours(flags@, lo, hi, i).1,
                ) by {
                    lemma_first_mark(flags@, i + 1, hi);
                    lemma_last_mark(flags@, lo, i - 1);
                }
                assert(contour_ok(points@, flags@, lo, hi, out));
            }
            assert forall|i: int| 0 <= i < out.len() implies #[trigger] out_points@[i]
                == contour_point(points@, flags@, lo, hi, out, i) by {
                assert(f < i < l ==> is_enclosed(flags@, lo, hi, i));
            }
        }
        r
    }
}

/// What inferring the deltas of the contours from the `k`th on leaves of `out`, and whether it
/// succeeds, if the `k`th contour starts at point `first`.
///
/// A contour that ends before it starts has no points and is passed over.
pub open spec fn inferred_from<C: PointCoord, D: PointCoord + CoordFrom<C>>(
    points: Seq<Point<C>>,
    flags: Seq<PointFlags>,
    contours: Seq<u16>,
    k: int,
    first: int,
    out: Seq<Point<D>>,
) -> (Seq<Point<D>>, bool)
    decreases contours.len() - k,
{
    if k >= contours.len() {
        (out, true)
    } else if contours[k] < first {
        inferred_from(points, flags, contours, k + 1, first, out)
    } else {
        let end = contours[k] as int;
        let next = contour_points(points, flags, first, end, out);
        if contour_ok(points, flags, first, end, out) {
            inferred_from(points, flags, contours, k + 1, end + 1, next)
        } else {
            (next, false)
        }
    }
}

/// What inferring the deltas of all contours leaves of `out`.
pub open spec fn inferred_points<C: PointCoord, D: PointCoord + CoordFrom<C>>(
    points: Seq<Point<C>>,
    flags: Seq<PointFlags>,
    contours: Seq<u16>,
    out: Seq<Point<D>>,
) -> Seq<Point<D>> {
    inferred_from(points, flags, contours, 0, 0, out).0
}

/// Whether the deltas of all contours can be inferred.
pub open spec fn inference_ok<C: PointCoord, D: PointCoord + CoordFrom<C>>(
    points: Seq<Point<C>>,
    flags: Seq<PointFlags>,
    contours: Seq<u16>,
    out: Seq<Point<D>>,
) -> bool {
    inferred_from(points, flags, contours, 0, 0, out).1
}

/// Interpolates points without delta values, similar to the IUP hinting instruction.
///
/// `points` are the original positions, `contours` the last point of each contour. `out_points`
/// holds the target positions of the marked points and the original positions of the others, and
/// receives the target positions of those. Returns `None` if a contour refers to points that do
/// not exist.
pub fn interpolate_deltas<C: PointCoord, D: PointCoord + CoordFrom<C>>(
    points: &[Point<C>],
    flags: &[PointFlags],
    contours: &[u16],
    out_points: &mut [Point<D>],
) -> (r: Option<()>)
    ensures
        r is Some <==> inference_ok(points@, flags@, contours@, old(out_points)@),
        final(out_points)@ == inferred_points(points@, flags@, contours@, old(out_points)@),
{
    let mut first: usize = 0;
    let mut k: usize = 0;
    while k < contours.len()
        invariant
            k <= contours@.len(),
            first <= u16::MAX + 1,
            inferred_from(points@, flags@, contours@, 0, 0, old(out_points)@) == inferred_from(
                points@,
                flags@,
                contours@,
                k as int,
                first as int,
                out_points@,
            ),
        decreases contours@.len() - k,
    {
        let end = contours[k] as usize;
        if first <= end {
            if interpolate_contour(points, flags, first, end, out_points).is_none() {
                return None;
            }
            first = end + 1;
        }
        k += 1;
    }
    Some(())
}

/// Inference never changes the number of points.
pub proof fn lemma_inferred_len<C: PointCoord, D: PointCoord + CoordFrom<C>>(
    points: Seq<Point<C>>,
    flags: Seq<PointFlags>,
    contours: Seq<u16>,
    k: int,
    first: int,
    out: Seq<Point<D>>,
)
    ensures
        inferred_from(points, flags, contours, k, first, out).0.len() == out.len(),
    decreases contours.len() - k,
{
    if k < contours.len() {
        if contours[k] < first {
            lemma_inferred_len(points, flags, contours, k + 1, first, out);
        } else {
            let end = contours[k] as int;
            let next = contour_points(points, flags, first, end, out);
            lemma_inferred_len(points, flags, contours, k + 1, end + 1, next);
        }
    }
}

/// Whether the contours are in order and none is empty.
pub open spec fn contours_ascend(contours: Seq<u16>) -> bool {
    forall|a: int, b: int| 0 <= a < b < contours.len() ==> contours[a] < contours[b]
}

/// The first point of contour `k`, for contours in order.
pub open spec fn contour_start(contours: Seq<u16>, k: int) -> int {
    if k == 0 {
        0
    } else {
        contours[k - 1] + 1
    }
}

/// Inference never moves a point that has an explicit delta, whether it succeeds or not.
pub proof fn law_marked_points_stay<C: PointCoord, D: PointCoord + CoordFrom<C>>(
    points: Seq<Point<C>>,
    flags: Seq<PointFlags>,
    contours: Seq<u16>,
    out: Seq<Point<D>>,
    i: int,
)
    requires
        0 <= i < out.len(),
        is_marked(flags, i),
    ensures
        inferred_points(points, flags, contours, out).len() == out.len(),
        inferred_points(points, flags, contours, out)[i] == out[i],
{
    lemma_marked_points_stay(points, flags, contours, 0, 0, out, i);
}

proof fn lemma_marked_points_stay<C: PointCoord, D: PointCoord + CoordFrom<C>>(
    points: Seq<Point<C>>,
    flags: Seq<PointFlags>,
    contours: Seq<u16>,
    k: int,
    first: int,
    out: Seq<Point<D>>,
    i: int,
)
    requires
        0 <= i < out.len(),
        is_marked(flags, i),
    ensures
        inferred_from(points, flags, contours, k, first, out).0.len() == out.len(),
        inferred_from(points, flags, contours, k, first, out).0[i] == out[i],
    decreases contours.len() - k,
{
    if k < contours.len() {
        if contours[k] < first {
            lemma_marked_points_stay(points, flags, contours, k + 1, first, out, i);
        } else {
            let end = contours[k] as int;
            let next = contour_points(points, flags, first, end, out);
            lemma_marked_points_stay(points, flags, contours, k + 1, end + 1, next, i);
        }
    }
}

/// Inference never moves a point that lies after the end of every contour, such as a phantom
/// point.
pub proof fn law_points_beyond_contours_stay<C: PointCoord, D: PointCoord + CoordFrom<C>>(
    points: Seq<Point<C>>,
    flags: Seq<PointFlags>,
    contours: Seq<u16>,
    out: Seq<Point<D>>,
    i: int,
)
    requires
        0 <= i < out.len(),
        forall|k: int| 0 <= k < contours.len() ==> contours[k] < i,
    ensures
        inferred_points(points, flags, contours, out).len() == out.len(),
        inferred_points(points, flags, contours, out)[i] == out[i],
{
    lemma_points_beyond_contours_stay(points, flags, contours, 0, 0, out, i);
}

proof fn lemma_points_beyond_contours_stay<C: PointCoord, D: PointCoord + CoordFrom<C>>(
    points: Seq<Point<C>>,
    flags: Seq<PointFlags>,
    contours: Seq<u16>,
    k: int,
    first: int,
    out: Seq<Point<D>>,
    i: int,
)
    requires
        0 <= i < out.len(),
        0 <= k,
        forall|k: int| 0 <= k < contours.len() ==> contours[k] < i,
    ensures
        inferred_from(points, flags, contours, k, first, out).0.len() == out.len(),
        inferred_from(points, flags, contours, k, first, out).0[i] == out[i],
    decreases contours.len() - k,
{
    if k < contours.len() {
        if contours[k] < first {
            lemma_points_beyond_contours_stay(points, flags, contours, k + 1, first, out, i);
        } else {
            let end = contours[k] as int;
            let next = contour_points(points, flags, first, end, out);
            lemma_points_beyond_contours_stay(points, flags, contours, k + 1, end + 1, next, i);
        }
    }
}

/// Inference succeeds for every choice of marked points if the points of all contours exist and
/// have flags.
pub proof fn law_inference_succeeds<C: PointCoord, D: PointCoord + CoordFrom<C>>(
    points: Seq<Point<C>>,
    flags: Seq<PointFlags>,
    contours: Seq<u16>,
    out: Seq<Point<D>>,
)
    requires
        forall|k: int|
            0 <= k < contours.len() ==> (#[trigger] contours[k]) < flags.len() && contours[k]
                < points.len() && contours[k] < out.len(),
    ensures
        inference_ok(points, flags, contours, out),
{
    lemma_inference_succeeds(points, flags, contours, 0, 0, out);
}

proof fn lemma_inference_succeeds<C: PointCoord, D: PointCoord + CoordFrom<C>>(
    points: Seq<Point<C>>,
    flags: Seq<PointFlags>,
    contours: Seq<u16>,
    k: int,
    first: int,
    out: Seq<Point<D>>,
)
    requires
        0 <= k,
        0 <= first,
        forall|k: int|
            0 <= k < contours.len() ==> (#[trigger] contours[k]) < flags.len() && contours[k]
                < points.len() && contours[k] < out.len(),
    ensures
        inferred_from(points, flags, contours, k, first, out).1,
    decreases contours.len() - k,
{
    if k < contours.len() {
        if contours[k] < first {
            lemma_inference_succeeds(points, flags, contours, k + 1, first, out);
        } else {
            let end = contours[k] as int;
            let next = contour_points(points, flags, first, end, out);
            lemma_contour_succeeds(points, flags, first, end, out);
            lemma_inference_succeeds(points, flags, contours, k + 1, end + 1, next);
        }
    }
}

proof fn lemma_contour_succeeds<C: PointCoord, D: PointCoord + CoordFrom<C>>(
    points: Seq<Point<C>>,
    flags: Seq<PointFlags>,
    first: int,
    end: int,
    out: Seq<Point<D>>,
)
    requires
        0 <= first <= end,
        end < flags.len(),
        end < points.len(),
        end < out.len(),
    ensures
        contour_ok(points, flags, first, end, out),
{
    lemma_first_mark(flags, first, end);
    lemma_last_mark(flags, first, end);
    if first_mark(flags, first, end) <= end {
        lemma_outer(flags, first, end);
        assert forall|i: int| first <= i <= end && !is_marked(flags, i) implies {
            let r = #[trigger] neighbours(flags, first, end, i);
            first <= r.0 <= end && first <= r.1 <= end
        } by {
            lemma_first_mark(flags, i + 1, end);
            lemma_last_mark(flags, first, i - 1);
        }
    }
}

/// The contours of a glyph are inferred independently: each point goes where its own contour
/// sends it, judged by the positions that were handed in.
pub proof fn law_contours_are_independent<C: PointCoord, D: PointCoord + CoordFrom<C>>(
    points: Seq<Point<C>>,
    flags: Seq<PointFlags>,
    contours: Seq<u16>,
    out: Seq<Point<D>>,
    k: int,
    i: int,
)
    requires
        contours_ascend(contours),
        inference_ok(points, flags, contours, out),
        0 <= k < contours.len(),
        contour_start(contours, k) <= i <= contours[k],
        i < out.len(),
    ensures
        inferred_points(points, flags, contours, out)[i] == contour_point(
            points,
            flags,
            contour_start(contours, k),
            contours[k] as int,
            out,
            i,
        ),
{
    lemma_contours_are_independent(points, flags, contours, 0, out, k, i);
}

proof fn lemma_contours_are_independent<C: PointCoord, D: PointCoord + CoordFrom<C>>(
    points: Seq<Point<C>>,
    flags: Seq<PointFlags>,
    contours: Seq<u16>,
    m: int,
    out: Seq<Point<D>>,
    k: int,
    i: int,
)
    requires
        contours_ascend(contours),
        0 <= m <= k < contours.len(),
        inferred_from(points, flags, contours, m, contour_start(contours, m), out).1,
        contour_start(contours, k) <= i <= contours[k],
        0 <= i < out.len(),
    ensures
        inferred_from(points, flags, contours, m, contour_start(contours, m), out).0[i]
            == contour_point(
            points,
            flags,
            contour_start(contours, k),
            contours[k] as int,
            out,
            i,
        ),
    decreases k - m,
{
    let first = contour_start(contours, m);
    let end = contours[m] as int;
    let next = contour_points(points, flags, first, end, out);
    assert(contours[m] >= first);
    assert(contour_start(contours, m + 1) == end + 1);
    if m == k {
        lemma_earlier_points_stay(points, flags, contours, m + 1, end + 1, next, i);
    } else {
        lemma_contours_are_independent(points, flags, contours, m + 1, next, k, i);
        assert(contours[m] <= contours[k - 1]);
        lemma_contour_is_local(
            points,
            flags,
            contour_start(contours, k),
            contours[k] as int,
            out,
            next,
        );
    }
}

/// Inferring the contours from point `first` on leaves the points before it alone.
proof fn lemma_earlier_points_stay<C: PointCoord, D: PointCoord + CoordFrom<C>>(
    points: Seq<Point<C>>,
    flags: Seq<PointFlags>,
    contours: Seq<u16>,
    k: int,
    first: int,
    out: Seq<Point<D>>,
    i: int,
)
    requires
        0 <= i < out.len(),
        i < first,
    ensures
        inferred_from(points, flags, contours, k, first, out).0[i] == out[i],
    decreases contours.len() - k,
{
    if k < contours.len() {
        if contours[k] < first {
            lemma_earlier_points_stay(points, flags, contours, k + 1, first, out, i);
        } else {
            let end = contours[k] as int;
            let next = contour_points(points, flags, first, end, out);
            lemma_earlier_points_stay(points, flags, contours, k + 1, end + 1, next, i);
        }
    }
}

/// What happens to a contour depends on the positions of its own points only.
pub proof fn lemma_contour_is_local<C: PointCoord, D: PointCoord + CoordFrom<C>>(
    points: Seq<Point<C>>,
    flags: Seq<PointFlags>,
    first: int,
    end: int,
    a: Seq<Point<D>>,
    b: Seq<Point<D>>,
)
    requires
        0 <= first <= end,
        a.len() == b.len() || (end < a.len() && end < b.len()),
        forall|j: int| first <= j <= end && j < a.len() ==> a[j] == b[j],
    ensures
        contour_ok(points, flags, first, end, a) == contour_ok(points, flags, first, end, b),
        forall|i: int|
            first <= i <= end && i < a.len() ==> #[trigger] contour_point(
                points,
                flags,
                first,
                end,
                a,
                i,
            ) == contour_point(points, flags, first, end, b, i),
{
    let f = first_mark(flags, first, end);
    let l = last_mark(flags, first, end);
    lemma_first_mark(flags, first, end);
    lemma_last_mark(flags, first, end);
    if f <= end {
        lemma_outer(flags, first, end);
        assert forall|i: int| first <= i <= end && !is_marked(flags, i) implies {
            let r = #[trigger] neighbours(flags, first, end, i);
            first <= r.0 <= end && first <= r.1 <= end
        } by {
            lemma_first_mark(flags, i + 1, end);
            lemma_last_mark(flags, first, i - 1);
        }
        assert forall|i: int| first <= i <= end && !is_marked(flags, i) implies {
            let r = #[trigger] neighbours(flags, first, end, i);
            let hi = if i > l {
                end
            } else {
                i
            };
            can_infer(points, a, hi, r.0, r.1) == can_infer(points, b, hi, r.0, r.1)
        } by {}
        assert(f == l ==> (f < a.len() ==> shift_of(points, a, f) == shift_of(points, b, f)));
        assert(contour_ok(points, flags, first, end, a) == contour_ok(
            points,
            flags,
            first,
            end,
            b,
        ));
        assert forall|i: int| first <= i <= end && i < a.len() implies #[trigger] contour_point(
            points,
            flags,
            first,
            end,
            a,
            i,
        ) == contour_point(points, flags, first, end, b, i) by {
            lemma_first_mark(flags, i + 1, end);
            lemma_last_mark(flags, first, i - 1);
            let r = neighbours(flags, first, end, i);
            assert(is_enclosed(flags, first, end, i) ==> r.0 < r.1);
        }
    }
}

/// What `out` holds beyond the points of a glyph plays no role.
pub proof fn law_spare_room_plays_no_role<C: PointCoord, D: PointCoord + CoordFrom<C>>(
    points: Seq<Point<C>>,
    flags: Seq<PointFlags>,
    contours: Seq<u16>,
    a: Seq<Point<D>>,
    b: Seq<Point<D>>,
)
    requires
        flags.len() <= points.len() <= a.len(),
        points.len() <= b.len(),
        forall|j: int| 0 <= j < points.len() ==> a[j] == b[j],
    ensures
        inference_ok(points, flags, contours, a) == inference_ok(points, flags, contours, b),
        inference_ok(points, flags, contours, a) ==> forall|j: int|
            0 <= j < points.len() ==> #[trigger] inferred_points(points, flags, contours, a)[j]
                == inferred_points(points, flags, contours, b)[j],
{
    lemma_spare_room_plays_no_role(points, flags, contours, 0, 0, a, b);
}

proof fn lemma_spare_room_plays_no_role<C: PointCoord, D: PointCoord + CoordFrom<C>>(
    points: Seq<Point<C>>,
    flags: Seq<PointFlags>,
    contours: Seq<u16>,
    k: int,
    first: int,
    a: Seq<Point<D>>,
    b: Seq<Point<D>>,
)
    requires
        0 <= first,
        flags.len() <= points.len() <= a.len(),
        points.len() <= b.len(),
        forall|j: int| 0 <= j < points.len() ==> a[j] == b[j],
    ensures
        inferred_from(points, flags, contours, k, first, a).1 == inferred_from(
            points,
            flags,
            contours,
            k,
            first,
            b,
        ).1,
        inferred_from(points, flags, contours, k, first, a).1 ==> forall|j: int|
            0 <= j < points.len() ==> #[trigger] inferred_from(
                points,
                flags,
                contours,
                k,
                first,
                a,
            ).0[j] == inferred_from(points, flags, contours, k, first, b).0[j],
    decreases contours.len() - k,
{
    if k < contours.len() {
        let end = contours[k] as int;
        if end < first {
            lemma_spare_room_plays_no_role(points, flags, contours, k + 1, first, a, b);
        } else if end < flags.len() {
            let next_a = contour_points(points, flags, first, end, a);
            let next_b = contour_points(points, flags, first, end, b);
            lemma_contour_is_local(points, flags, first, end, a, b);
            assert forall|j: int| 0 <= j < points.len() implies next_a[j] == next_b[j] by {
                assert(contour_point(points, flags, first, end, a, j) == contour_point(
                    points,
                    flags,
                    first,
                    end,
                    b,
                    j,
                ));
            }
            lemma_spare_room_plays_no_role(
                points,
                flags,
                contours,
                k + 1,
                end + 1,
                next_a,
                next_b,
            );
        }
    }
}

/// A contour without explicit deltas stays where it is.
pub proof fn law_contour_without_deltas_stays<C: PointCoord, D: PointCoord + CoordFrom<C>>(
    points: Seq<Point<C>>,
    flags: Seq<PointFlags>,
    first: int,
    end: int,
    out: Seq<Point<D>>,
)
    requires
        first <= end,
        forall|j: int| first <= j <= end ==> !is_marked(flags, j),
    ensures
        contour_points(points, flags, first, end, out) == out,
{
    lemma_first_mark(flags, first, end);
    assert(contour_points(points, flags, first, end, out) =~= out);
}

/// A contour with a single explicit delta moves as a whole: every other point gets the
/// displacement of the point that has it.
pub proof fn law_single_delta_moves_contour<C: PointCoord, D: PointCoord + CoordFrom<C>>(
    points: Seq<Point<C>>,
    flags: Seq<PointFlags>,
    first: int,
    end: int,
    out: Seq<Point<D>>,
    r: int,
    i: int,
)
    requires
        contour_ok(points, flags, first, end, out),
        first <= r <= end,
        forall|j: int| first <= j <= end ==> (is_marked(flags, j) <==> j == r),
        is_shift(shift_of(points, out, r)),
        first <= i <= end,
        i != r,
    ensures
        contour_point(points, flags, first, end, out, i) == point_plus(
            out[i],
            shift_of(points, out, r),
        ),
{
    lemma_first_mark(flags, first, end);
    lemma_last_mark(flags, first, end);
    assert(is_marked(flags, r));
    lemma_outer(flags, first, end);
    assert(first_mark(flags, first, end) == r);
    assert(last_mark(flags, first, end) == r);
}

/// Whether two references are told apart by comparison: one has the greater original coordinate,
/// or the original coordinates are equal, are found to be the same, and the targets are found to be
/// the same only if they are equal.
///
/// References always are in types that compare by value.
pub open spec fn told_apart<C: PointCoord, D: PointCoord + CoordFrom<C>>(
    in1: C,
    in2: C,
    out1: D,
    out2: D,
) -> bool {
    ||| in1.above_spec(in2) != in2.above_spec(in1)
    ||| {
        &&& in1 == in2
        &&& !in1.above_spec(in2)
        &&& D::coord_from_spec(in1).same_spec(D::coord_from_spec(in2))
        &&& (out1.same_spec(out2) || out2.same_spec(out1)) ==> out1 == out2
    }
}

/// The order in which the references of a coordinate come plays no role, in any type, as long as
/// comparison tells them apart.
pub proof fn law_reference_order_plays_no_role<C: PointCoord, D: PointCoord + CoordFrom<C>>(
    original: C,
    in1: C,
    in2: C,
    out1: D,
    out2: D,
    current: D,
)
    requires
        told_apart(in1, in2, out1, out2),
    ensures
        refs_place(in1, in2, out1, out2) == refs_place(in2, in1, out2, out1),
        inferred_coord(original, in1, in2, out1, out2, current) == inferred_coord(
            original,
            in2,
            in1,
            out2,
            out1,
            current,
        ),
{
}

/// Placing points between two references that exist comes to the same in either order of the
/// references, in its outcome and in the positions, as long as comparison tells the references
/// apart in both coordinates.
pub proof fn law_references_can_be_swapped<C: PointCoord, D: PointCoord + CoordFrom<C>>(
    points: Seq<Point<C>>,
    out: Seq<Point<D>>,
    lo: int,
    hi: int,
    r1: int,
    r2: int,
)
    requires
        has_point(points, out, r1),
        has_point(points, out, r2),
        told_apart(points[r1].x, points[r2].x, out[r1].x, out[r2].x),
        told_apart(points[r1].y, points[r2].y, out[r1].y, out[r2].y),
    ensures
        interpolation_ok(points, out, lo, hi, r1, r2) == interpolation_ok(
            points,
            out,
            lo,
            hi,
            r2,
            r1,
        ),
        interpolated(points, out, lo, hi, r1, r2) == interpolated(points, out, lo, hi, r2, r1),
{
    let (p1, p2, o1, o2) = (points[r1], points[r2], out[r1], out[r2]);
    law_reference_order_plays_no_role(p1.x, p1.x, p2.x, o1.x, o2.x, o1.x);
    law_reference_order_plays_no_role(p1.y, p1.y, p2.y, o1.y, o2.y, o1.y);
    assert forall|i: int| #[trigger] inferred_point(points, out, r1, r2, i) == inferred_point(
        points,
        out,
        r2,
        r1,
        i,
    ) by {
        law_reference_order_plays_no_role(points[i].x, p1.x, p2.x, o1.x, o2.x, out[i].x);
        law_reference_order_plays_no_role(points[i].y, p1.y, p2.y, o1.y, o2.y, out[i].y);
    }
    assert(interpolated(points, out, lo, hi, r1, r2) =~= interpolated(points, out, lo, hi, r2, r1));
}

/// Whether a type compares by value, as a total order does: of two different values exactly one is
/// above the other, no value is above itself, and only equal values are the same.
pub open spec fn compares_by_value<T: PointCoord>() -> bool {
    &&& forall|a: T, b: T| #[trigger] a.same_spec(b) <==> a == b
    &&& forall|a: T, b: T| #[trigger] a.above_spec(b) <==> a != b && !b.above_spec(a)
}

/// In types that compare by value, comparison tells all references apart.
pub proof fn law_references_are_told_apart<C: PointCoord, D: PointCoord + CoordFrom<C>>(
    in1: C,
    in2: C,
    out1: D,
    out2: D,
)
    requires
        compares_by_value::<C>(),
        compares_by_value::<D>(),
    ensures
        told_apart(in1, in2, out1, out2),
{
    assert(in1.above_spec(in2) <==> in1 != in2 && !in2.above_spec(in1));
}

/// Between references with the same original coordinate and different targets a point stays.
pub proof fn law_coincident_references_place_nothing<C: PointCoord, D: PointCoord + CoordFrom<C>>(
    original: C,
    in1: C,
    in2: C,
    out1: D,
    out2: D,
    current: D,
)
    requires
        D::coord_from_spec(in1).same_spec(D::coord_from_spec(in2)),
        D::coord_from_spec(in2).same_spec(D::coord_from_spec(in1)),
        !out1.same_spec(out2),
        !out2.same_spec(out1),
    ensures
        inferred_coord(original, in1, in2, out1, out2, current) == current,
{
}

} // verus!
