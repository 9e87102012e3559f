//! Where inference puts coordinates and points, in integers.
use crate::coord::{point_from, CoordFrom, Point, PointCoord};
use crate::fixed::{lemma_wrap_once, magnitude, product_bits, quotient_bits, wrap, Fixed};
use crate::flags::PointFlags;
use crate::iup::{
    contour_ok, contour_points, contour_start, contours_ascend, first_mark, inference_ok,
    inferred_coord, inferred_from, inferred_points, is_marked, is_shift, last_mark,
    law_contours_are_independent, law_inference_succeeds, law_reference_order_plays_no_role,
    lemma_contour_is_local, lemma_first_mark, lemma_gap_point, lemma_last_mark, lemma_outer,
    neighbours, shift_of,
};
use vstd::prelude::*;

verus! {

/// Whether `r` is `out1` plus the share `a / w` of `h`, up to half a unit and what rounding the
/// slope `h / w` to 16 bits after the point makes of it.
pub open spec fn is_share(r: int, out1: int, a: int, w: int, h: int) -> bool {
    -(w * (0x1_0000 + a)) <= 0x2_0000 * ((r - out1) * w - a * h) <= w * (0x1_0000 + a)
}

/// Whether interpolation between references stays within 32 bits: the references are less than
/// the whole range apart, their targets are too and lie within 32767 units of the origin, and the
/// targets are at most 32767 times as far apart as the references.
pub open spec fn spread_fits(in1: int, in2: int, out1: int, out2: int) -> bool {
    &&& 0 < in2 - in1 <= 0x7FFF_FFFF
    &&& -0x7FFF_0000 <= out1 <= 0x7FFF_0000
    &&& -0x7FFF_0000 <= out2 <= 0x7FFF_0000
    &&& magnitude(out2 - out1) <= 0x7FFF_FFFF
    &&& magnitude(out2 - out1) * 0x1_0000 <= 0x7FFF_FFFF * (in2 - in1)
}

/// Whether `s` is the slope `h / w` with 16 bits after the point, rounded to the nearest.
pub open spec fn is_slope(s: int, h: int, w: int) -> bool {
    -w <= 2 * (s * w - h * 0x1_0000) <= w
}

/// A coordinate strictly between its references is the lower target plus its distance from the
/// lower reference times the slope, where the slope and the product are rounded to the nearest and
/// nothing else is.
pub proof fn law_interpolation_rounds_twice(
    original: Fixed,
    in1: Fixed,
    in2: Fixed,
    out1: Fixed,
    out2: Fixed,
    current: Fixed,
)
    requires
        in1.bits < original.bits < in2.bits,
        spread_fits(in1.bits as int, in2.bits as int, out1.bits as int, out2.bits as int),
    ensures
        ({
            let r = inferred_coord(original, in1, in2, out1, out2, current).bits;
            let a = original.bits - in1.bits;
            exists|s: int| #[trigger]
                is_slope(s, out2.bits - out1.bits, in2.bits - in1.bits) && -0x1_0000 <= 2 * (
                0x1_0000 * (r - out1.bits) - a * s) <= 0x1_0000
        }),
{
    let a = original.bits - in1.bits;
    let w = in2.bits - in1.bits;
    let h = out2.bits - out1.bits;
    lemma_inferred_share(original, in1, in2, out1, out2, current);
    lemma_slope(h, w);
    let s = quotient_bits(h, 0x1_0000, w) as int;
    assert(is_slope(s, h, w));
    let ab = a * s;
    assert(-0x8000 <= 0x1_0000 * share_of(a, w, h) - ab <= 0x8000);
}

/// A coordinate strictly between its references is interpolated, whichever way they move and in
/// whichever order they come: its target divides the distance of theirs as it divides the distance
/// of the references, up to rounding.
pub proof fn law_coordinates_between_references_are_interpolated(
    original: Fixed,
    in1: Fixed,
    in2: Fixed,
    out1: Fixed,
    out2: Fixed,
    current: Fixed,
)
    requires
        in1.bits < original.bits < in2.bits,
        spread_fits(in1.bits as int, in2.bits as int, out1.bits as int, out2.bits as int),
    ensures
        is_share(
            inferred_coord(original, in1, in2, out1, out2, current).bits as int,
            out1.bits as int,
            original.bits - in1.bits,
            in2.bits - in1.bits,
            out2.bits - out1.bits,
        ),
        inferred_coord(original, in2, in1, out2, out1, current) == inferred_coord(
            original,
            in1,
            in2,
            out1,
            out2,
            current,
        ),
{
    law_reference_order_plays_no_role(original, in1, in2, out1, out2, current);
    let a = original.bits - in1.bits;
    let w = in2.bits - in1.bits;
    let h = out2.bits - out1.bits;
    lemma_inferred_share(original, in1, in2, out1, out2, current);
    lemma_share_of(a, w, h);
}

proof fn lemma_inferred_share(
    original: Fixed,
    in1: Fixed,
    in2: Fixed,
    out1: Fixed,
    out2: Fixed,
    current: Fixed,
)
    requires
        in1.bits < original.bits < in2.bits,
        spread_fits(in1.bits as int, in2.bits as int, out1.bits as int, out2.bits as int),
    ensures
        inferred_coord(original, in1, in2, out1, out2, current).bits == out1.bits + share_of(
            original.bits - in1.bits,
            in2.bits - in1.bits,
            out2.bits - out1.bits,
        ),
{
    let a = original.bits - in1.bits;
    let w = in2.bits - in1.bits;
    let h = out2.bits - out1.bits;
    lemma_inferred_between(original, in1, in2, out1, out2, current);
    assert(original.minus_spec(in1) == Fixed { bits: a as i32 });
    assert(in2.minus_spec(in1) == Fixed { bits: w as i32 });
    assert(out2.minus_spec(out1) == Fixed { bits: h as i32 });
    lemma_interpolated_bits(out1.bits as int, out2.bits as int, a, w);
}

/// How far from the lower target a coordinate at the distance `a` from the lower reference goes.
spec fn share_of(a: int, w: int, h: int) -> int {
    let ab = a * quotient_bits(h, 0x1_0000, w);
    (ab + 0x8000 - (if ab < 0 {
        1int
    } else {
        0
    })) / 0x1_0000
}

proof fn lemma_share_of(a: int, w: int, h: int)
    requires
        0 <= a <= 0x7FFF_FFFF,
        0 < w <= 0x7FFF_FFFF,
        magnitude(h) <= 0x7FFF_FFFF,
        magnitude(h) * 0x1_0000 <= 0x7FFF_FFFF * w,
    ensures
        -(w * (0x1_0000 + a)) <= 0x2_0000 * (share_of(a, w, h) * w - a * h) <= w * (0x1_0000 + a),
{
    lemma_slope(h, w);
    let scale = quotient_bits(h, 0x1_0000, w) as int;
    let t = share_of(a, w, h);
    let ab = a * scale;
    assert(-0x8000 <= t * 0x1_0000 - ab <= 0x8000);
    lemma_share(t, a, w, h, scale);
}

/// A coordinate strictly between its references is the lower target plus its distance times the
/// slope.
proof fn lemma_inferred_between(
    original: Fixed,
    in1: Fixed,
    in2: Fixed,
    out1: Fixed,
    out2: Fixed,
    current: Fixed,
)
    requires
        in1.bits < original.bits < in2.bits,
    ensures
        inferred_coord(original, in1, in2, out1, out2, current) == out1.plus_spec(
            original.minus_spec(in1).times_spec(
                out2.minus_spec(out1).over_spec(in2.minus_spec(in1)),
            ),
        ),
{
}

/// Interpolation within 32 bits does not wrap.
proof fn lemma_interpolated_bits(out1: int, out2: int, a: int, w: int)
    requires
        0 <= a <= w <= 0x7FFF_FFFF,
        spread_fits(0, w, out1, out2),
    ensures
        ({
            let h = out2 - out1;
            let slope = (Fixed { bits: h as i32 }).over_spec(Fixed { bits: w as i32 });
            (Fixed { bits: out1 as i32 }).plus_spec(
                (Fixed { bits: a as i32 }).times_spec(slope),
            ).bits == out1 + share_of(a, w, h)
        }),
{
    let h = out2 - out1;
    let t = share_of(a, w, h);
    lemma_share_of(a, w, h);
    lemma_share_is_between(out1 + t, out1, a, w, h);
    assert(product_bits(a as i32, quotient_bits(h, 0x1_0000, w)) == wrap(t));
    lemma_wrap_once(out1, t);
}

/// The slope between references, rounded to the nearest.
proof fn lemma_slope(h: int, w: int)
    requires
        0 < w <= 0x7FFF_FFFF,
        magnitude(h) <= 0x7FFF_FFFF,
        magnitude(h) * 0x1_0000 <= 0x7FFF_FFFF * w,
    ensures
        -w <= 2 * (quotient_bits(h, 0x1_0000, w) * w - h * 0x1_0000) <= w,
{
    let m = magnitude(h);
    let n = m * 0x1_0000;
    let q = (n + w / 2) / w;
    assert(0 <= q <= 0x7FFF_FFFF && -w <= 2 * (q * w - n) <= w) by (nonlinear_arith)
        requires
            0 < w,
            0 <= n <= 0x7FFF_FFFF * w,
            q == (n + w / 2) / w,
    ;
    assert((-q) * w == -(q * w)) by (nonlinear_arith);
    if h < 0 {
        assert(quotient_bits(h, 0x1_0000, w) == -q);
        assert(h * 0x1_0000 == -n);
    } else {
        assert(quotient_bits(h, 0x1_0000, w) == q);
    }
}

proof fn lemma_share(t: int, a: int, w: int, h: int, scale: int)
    by (nonlinear_arith)
    requires
        0 <= a,
        0 < w,
        -0x8000 <= t * 0x1_0000 - a * scale <= 0x8000,
        -w <= 2 * (scale * w - h * 0x1_0000) <= w,
    ensures
        -(w * (0x1_0000 + a)) <= 0x2_0000 * (t * w - a * h) <= w * (0x1_0000 + a),
{
    let e = t * 0x1_0000 - a * scale;
    let f = 2 * (scale * w - h * 0x1_0000);
    assert(0x2_0000 * (t * w - a * h) == 2 * (e * w) + a * f);
    assert(-0x8000 * w <= e * w <= 0x8000 * w);
    assert(-(a * w) <= a * f <= a * w);
}

/// A share lies between nothing and the whole, up to the rounding that a share allows for.
proof fn lemma_share_is_between(r: int, out1: int, a: int, w: int, h: int)
    requires
        0 <= a <= w <= 0x7FFF_FFFF,
        0 < w,
        -(w * (0x1_0000 + a)) <= 0x2_0000 * ((r - out1) * w - a * h) <= w * (0x1_0000 + a),
    ensures
        h >= 0 ==> -(0x1_0000 + a) <= 0x2_0000 * (r - out1) <= 0x2_0000 * h + 0x1_0000 + a,
        h <= 0 ==> 0x2_0000 * h - 0x1_0000 - a <= 0x2_0000 * (r - out1) <= 0x1_0000 + a,
{
    let d = r - out1;
    let e = 0x1_0000 + a;
    if h >= 0 {
        assert(-e <= 0x2_0000 * d <= 0x2_0000 * h + e) by (nonlinear_arith)
            requires
                0 <= a <= w,
                0 < w,
                h >= 0,
                -(w * e) <= 0x2_0000 * (d * w - a * h) <= w * e,
        {
            assert(0 <= a * h <= w * h);
            assert(w * (0x2_0000 * d) >= w * (-e));
            assert(w * (0x2_0000 * d) <= w * (0x2_0000 * h + e));
        }
    }
    if h <= 0 {
        assert(0x2_0000 * h - e <= 0x2_0000 * d <= e) by (nonlinear_arith)
            requires
                0 <= a <= w,
                0 < w,
                h <= 0,
                -(w * e) <= 0x2_0000 * (d * w - a * h) <= w * e,
        {
            assert(w * h <= a * h <= 0);
            assert(w * (0x2_0000 * d) >= w * (0x2_0000 * h - e));
            assert(w * (0x2_0000 * d) <= w * e);
        }
    }
}

/// A coordinate strictly between its references stays between their targets, up to rounding.
pub proof fn law_coordinates_between_references_stay_between(
    original: Fixed,
    in1: Fixed,
    in2: Fixed,
    out1: Fixed,
    out2: Fixed,
    current: Fixed,
)
    requires
        in1.bits < original.bits < in2.bits,
        spread_fits(in1.bits as int, in2.bits as int, out1.bits as int, out2.bits as int),
    ensures
        ({
            let r = inferred_coord(original, in1, in2, out1, out2, current).bits;
            let slack = 0x1_0000 + (original.bits - in1.bits);
            let lower = if out1.bits <= out2.bits {
                out1.bits
            } else {
                out2.bits
            };
            let upper = if out1.bits <= out2.bits {
                out2.bits
            } else {
                out1.bits
            };
            0x2_0000 * lower - slack <= 0x2_0000 * r <= 0x2_0000 * upper + slack
        }),
{
    law_coordinates_between_references_are_interpolated(original, in1, in2, out1, out2, current);
    lemma_share_is_between(
        inferred_coord(original, in1, in2, out1, out2, current).bits as int,
        out1.bits as int,
        original.bits - in1.bits,
        in2.bits - in1.bits,
        out2.bits - out1.bits,
    );
}

/// A coordinate halfway between its references goes halfway between their targets, up to rounding.
pub proof fn law_halfway_stays_halfway(
    original: Fixed,
    in1: Fixed,
    in2: Fixed,
    out1: Fixed,
    out2: Fixed,
    current: Fixed,
)
    requires
        in1.bits < original.bits < in2.bits,
        original.bits - in1.bits == in2.bits - original.bits,
        spread_fits(in1.bits as int, in2.bits as int, out1.bits as int, out2.bits as int),
    ensures
        ({
            let r = inferred_coord(original, in1, in2, out1, out2, current).bits;
            let slack = 0x1_0000 + (original.bits - in1.bits);
            -slack <= 0x1_0000 * (2 * r - (out1.bits + out2.bits)) <= slack
        }),
{
    law_coordinates_between_references_are_interpolated(original, in1, in2, out1, out2, current);
    let r = inferred_coord(original, in1, in2, out1, out2, current).bits as int;
    let a = original.bits - in1.bits;
    let d = r - out1.bits;
    let h = out2.bits - out1.bits;
    let e = 0x1_0000 + a;
    assert(-e <= 0x1_0000 * (2 * d - h) <= e) by (nonlinear_arith)
        requires
            0 < a,
            -((2 * a) * e) <= 0x2_0000 * (d * (2 * a) - a * h) <= (2 * a) * e,
    {
        let m = 2 * a;
        assert(0x2_0000 * (d * (2 * a) - a * h) == m * (0x1_0000 * (2 * d - h)));
        assert(m * (0x1_0000 * (2 * d - h)) <= m * e);
        assert(m * (0x1_0000 * (2 * d - h)) >= m * (-e));
    }
}

/// A coordinate that is not between its references moves along with the nearer one, in whichever
/// order they come. References with the same coordinate and the same target move everything along,
/// and with different targets nothing.
pub proof fn law_coordinates_outside_references_move_along(
    original: Fixed,
    in1: Fixed,
    in2: Fixed,
    out1: Fixed,
    out2: Fixed,
    current: Fixed,
)
    ensures
        ({
            let r = inferred_coord(original, in1, in2, out1, out2, current);
            &&& in1.bits < in2.bits && original.bits <= in1.bits ==> r.bits == wrap(
                original.bits + out1.bits - in1.bits,
            )
            &&& in1.bits < in2.bits && original.bits >= in2.bits ==> r.bits == wrap(
                original.bits + out2.bits - in2.bits,
            )
            &&& in2.bits < in1.bits && original.bits <= in2.bits ==> r.bits == wrap(
                original.bits + out2.bits - in2.bits,
            )
            &&& in2.bits < in1.bits && original.bits >= in1.bits ==> r.bits == wrap(
                original.bits + out1.bits - in1.bits,
            )
            &&& in1.bits == in2.bits && out1.bits == out2.bits ==> r.bits == wrap(
                original.bits + out1.bits - in1.bits,
            )
            &&& in1.bits == in2.bits && out1.bits != out2.bits ==> r == current
        }),
{
    lemma_wrap_once(original.bits as int, out1.bits - in1.bits);
    lemma_wrap_once(original.bits as int, out2.bits - in2.bits);
}

/// An unmarked point goes, coordinate by coordinate, between the nearest marked points before and
/// after it on its contour.
pub proof fn law_points_go_between_their_nearest_references<
    C: PointCoord,
    D: PointCoord + CoordFrom<C>,
>(
    points: Seq<Point<C>>,
    flags: Seq<PointFlags>,
    contours: Seq<u16>,
    out: Seq<Point<D>>,
    k: int,
    p: int,
    q: int,
    i: int,
)
    requires
        contours_ascend(contours),
        inference_ok(points, flags, contours, out),
        0 <= k < contours.len(),
        contour_start(contours, k) <= p < i < q <= contours[k],
        is_marked(flags, p),
        is_marked(flags, q),
        forall|j: int| p < j < q ==> !is_marked(flags, j),
        q < out.len(),
    ensures
        ({
            let r = inferred_points(points, flags, contours, out)[i];
            &&& r.x == inferred_coord(
                points[i].x,
                points[p].x,
                points[q].x,
                out[p].x,
                out[q].x,
                out[i].x,
            )
            &&& r.y == inferred_coord(
                points[i].y,
                points[p].y,
                points[q].y,
                out[p].y,
                out[q].y,
                out[i].y,
            )
        }),
{
    let first = contour_start(contours, k);
    let end = contours[k] as int;
    law_contours_are_independent(points, flags, contours, out, k, i);
    lemma_every_contour_is_ok(points, flags, contours, out, k);
    lemma_gap_point(flags, first, end, p, q, i);
    lemma_first_mark(flags, first, end);
    lemma_last_mark(flags, first, end);
    assert(!is_marked(flags, i));
}

/// An unmarked point before the first or after the last marked point of its contour goes, with two
/// or more marked points, coordinate by coordinate between the last and the first of them.
pub proof fn law_ends_of_contours_go_round<C: PointCoord, D: PointCoord + CoordFrom<C>>(
    points: Seq<Point<C>>,
    flags: Seq<PointFlags>,
    contours: Seq<u16>,
    out: Seq<Point<D>>,
    k: int,
    p: int,
    q: int,
    i: int,
)
    requires
        contours_ascend(contours),
        inference_ok(points, flags, contours, out),
        0 <= k < contours.len(),
        contour_start(contours, k) <= p < q <= contours[k],
        is_marked(flags, p),
        is_marked(flags, q),
        forall|j: int| contour_start(contours, k) <= j < p ==> !is_marked(flags, j),
        forall|j: int| q < j <= contours[k] ==> !is_marked(flags, j),
        contour_start(contours, k) <= i < p || q < i <= contours[k],
        i < out.len(),
    ensures
        ({
            let r = inferred_points(points, flags, contours, out)[i];
            &&& r.x == inferred_coord(
                points[i].x,
                points[q].x,
                points[p].x,
                out[q].x,
                out[p].x,
                out[i].x,
            )
            &&& r.y == inferred_coord(
                points[i].y,
                points[q].y,
                points[p].y,
                out[q].y,
                out[p].y,
                out[i].y,
            )
        }),
{
    let first = contour_start(contours, k);
    let end = contours[k] as int;
    law_contours_are_independent(points, flags, contours, out, k, i);
    lemma_every_contour_is_ok(points, flags, contours, out, k);
    lemma_first_mark(flags, first, end);
    lemma_last_mark(flags, first, end);
    assert(first_mark(flags, first, end) == p);
    assert(last_mark(flags, first, end) == q);
    lemma_outer(flags, first, end);
    assert(neighbours(flags, first, end, i).0 == q);
}

/// The points of a contour without marked points stay.
pub proof fn law_points_without_references_stay<C: PointCoord, D: PointCoord + CoordFrom<C>>(
    points: Seq<Point<C>>,
    flags: Seq<PointFlags>,
    contours: Seq<u16>,
    out: Seq<Point<D>>,
    k: int,
    i: int,
)
    requires
        contours_ascend(contours),
        inference_ok(points, flags, contours, out),
        0 <= k < contours.len(),
        contour_start(contours, k) <= i <= contours[k],
        i < out.len(),
        forall|j: int| contour_start(contours, k) <= j <= contours[k] ==> !is_marked(flags, j),
    ensures
        inferred_points(points, flags, contours, out)[i] == out[i],
{
    law_contours_are_independent(points, flags, contours, out, k, i);
    lemma_first_mark(flags, contour_start(contours, k), contours[k] as int);
}

/// In fixed point, the points of a contour with a single marked point move as far as that does.
pub proof fn law_points_follow_their_only_reference<C: PointCoord>(
    points: Seq<Point<C>>,
    flags: Seq<PointFlags>,
    contours: Seq<u16>,
    out: Seq<Point<Fixed>>,
    k: int,
    r: int,
    i: int,
) where Fixed: CoordFrom<C>
    requires
        contours_ascend(contours),
        inference_ok(points, flags, contours, out),
        0 <= k < contours.len(),
        contour_start(contours, k) <= i <= contours[k],
        contour_start(contours, k) <= r <= contours[k],
        i != r,
        i < out.len(),
        forall|j: int|
            contour_start(contours, k) <= j <= contours[k] ==> (is_marked(flags, j) <==> j == r),
    ensures
        ({
            let moved = inferred_points(points, flags, contours, out)[i];
            let origin = point_from::<C, Fixed>(points[r]);
            &&& moved.x.bits == wrap(out[i].x.bits + out[r].x.bits - origin.x.bits)
            &&& moved.y.bits == wrap(out[i].y.bits + out[r].y.bits - origin.y.bits)
        }),
{
    let first = contour_start(contours, k);
    let end = contours[k] as int;
    let origin = point_from::<C, Fixed>(points[r]);
    law_contours_are_independent(points, flags, contours, out, k, i);
    lemma_every_contour_is_ok(points, flags, contours, out, k);
    lemma_first_mark(flags, first, end);
    lemma_last_mark(flags, first, end);
    assert(is_marked(flags, r));
    assert(first_mark(flags, first, end) == r);
    assert(last_mark(flags, first, end) == r);
    assert(!is_marked(flags, i));
    lemma_wrap_once(out[i].x.bits as int, out[r].x.bits - origin.x.bits);
    lemma_wrap_once(out[i].y.bits as int, out[r].y.bits - origin.y.bits);
}

/// If inference succeeds, it does so on every contour, judged by the positions handed in.
proof fn lemma_every_contour_is_ok<C: PointCoord, D: PointCoord + CoordFrom<C>>(
    points: Seq<Point<C>>,
    flags: Seq<PointFlags>,
    contours: Seq<u16>,
    out: Seq<Point<D>>,
    k: int,
)
    requires
        contours_ascend(contours),
        inference_ok(points, flags, contours, out),
        0 <= k < contours.len(),
    ensures
        contour_ok(points, flags, contour_start(contours, k), contours[k] as int, out),
{
    lemma_contour_ok_from(points, flags, contours, 0, out, k);
}

proof fn lemma_contour_ok_from<C: PointCoord, D: PointCoord + CoordFrom<C>>(
    points: Seq<Point<C>>,
    flags: Seq<PointFlags>,
    contours: Seq<u16>,
    m: int,
    out: Seq<Point<D>>,
    k: int,
)
    requires
        contours_ascend(contours),
        0 <= m <= k < contours.len(),
        inferred_from(points, flags, contours, m, contour_start(contours, m), out).1,
    ensures
        contour_ok(points, flags, contour_start(contours, k), contours[k] as int, out),
    decreases k - m,
{
    let first = contour_start(contours, m);
    let end = contours[m] as int;
    assert(contours[m] >= first);
    if m < k {
        let next = contour_points(points, flags, first, end, out);
        assert(contour_start(contours, m + 1) == end + 1);
        lemma_contour_ok_from(points, flags, contours, m + 1, next, k);
        assert(contours[m] <= contours[k - 1]);
        lemma_contour_is_local(
            points,
            flags,
            contour_start(contours, k),
            contours[k] as int,
            out,
            next,
        );
    }
}

/// Inference succeeds if and only if every contour ends at a point that has flags, provided that
/// points with flags exist and have places.
pub proof fn law_inference_fails_for_missing_flags<C: PointCoord, D: PointCoord + CoordFrom<C>>(
    points: Seq<Point<C>>,
    flags: Seq<PointFlags>,
    contours: Seq<u16>,
    out: Seq<Point<D>>,
)
    requires
        flags.len() <= points.len(),
        flags.len() <= out.len(),
    ensures
        inference_ok(points, flags, contours, out) <==> forall|k: int|
            0 <= k < contours.len() ==> (#[trigger] contours[k]) < flags.len(),
{
    if forall|k: int| 0 <= k < contours.len() ==> (#[trigger] contours[k]) < flags.len() {
        law_inference_succeeds(points, flags, contours, out);
    }
    if inference_ok(points, flags, contours, out) {
        assert forall|k: int| 0 <= k < contours.len() implies (#[trigger] contours[k])
            < flags.len() by {
            lemma_ends_have_flags(points, flags, contours, 0, 0, out, k);
        }
    }
}

proof fn lemma_ends_have_flags<C: PointCoord, D: PointCoord + CoordFrom<C>>(
    points: Seq<Point<C>>,
    flags: Seq<PointFlags>,
    contours: Seq<u16>,
    m: int,
    first: int,
    out: Seq<Point<D>>,
    k: int,
)
    requires
        0 <= m <= k < contours.len(),
        first <= flags.len(),
        inferred_from(points, flags, contours, m, first, out).1,
    ensures
        contours[k] < flags.len(),
    decreases contours.len() - m,
{
    if contours[m] < first {
        if m < k {
            lemma_ends_have_flags(points, flags, contours, m + 1, first, out, k);
        }
    } else if m < k {
        let end = contours[m] as int;
        let next = contour_points(points, flags, first, end, out);
        lemma_ends_have_flags(points, flags, contours, m + 1, end + 1, next, k);
    }
}

/// A contour that ends no later than one before it has no points: leaving it out changes nothing.
pub proof fn law_contours_without_points_change_nothing<
    C: PointCoord,
    D: PointCoord + CoordFrom<C>,
>(
    points: Seq<Point<C>>,
    flags: Seq<PointFlags>,
    contours: Seq<u16>,
    out: Seq<Point<D>>,
    j: int,
    k: int,
)
    requires
        0 <= j < k < contours.len(),
        contours[k] <= contours[j],
    ensures
        inferred_points(points, flags, contours, out) == inferred_points(
            points,
            flags,
            contours.remove(k),
            out,
        ),
        inference_ok(points, flags, contours, out) == inference_ok(
            points,
            flags,
            contours.remove(k),
            out,
        ),
{
    lemma_without_contour(points, flags, contours, 0, 0, out, j, k);
}

proof fn lemma_without_contour<C: PointCoord, D: PointCoord + CoordFrom<C>>(
    points: Seq<Point<C>>,
    flags: Seq<PointFlags>,
    contours: Seq<u16>,
    m: int,
    first: int,
    out: Seq<Point<D>>,
    j: int,
    k: int,
)
    requires
        0 <= m <= k,
        0 <= j < k < contours.len(),
        contours[k] <= contours[j],
        m > j ==> contours[j] < first,
    ensures
        inferred_from(points, flags, contours, m, first, out) == inferred_from(
            points,
            flags,
            contours.remove(k),
            m,
            first,
            out,
        ),
    decreases k - m,
{
    let less = contours.remove(k);
    if m == k {
        lemma_tail_after_removal(points, flags, contours, k, k, first, out);
    } else {
        assert(less[m] == contours[m]);
        if contours[m] < first {
            lemma_without_contour(points, flags, contours, m + 1, first, out, j, k);
        } else {
            let end = contours[m] as int;
            let next = contour_points(points, flags, first, end, out);
            lemma_without_contour(points, flags, contours, m + 1, end + 1, next, j, k);
        }
    }
}

proof fn lemma_tail_after_removal<C: PointCoord, D: PointCoord + CoordFrom<C>>(
    points: Seq<Point<C>>,
    flags: Seq<PointFlags>,
    contours: Seq<u16>,
    k: int,
    m: int,
    first: int,
    out: Seq<Point<D>>,
)
    requires
        0 <= k <= m < contours.len(),
    ensures
        inferred_from(points, flags, contours, m + 1, first, out) == inferred_from(
            points,
            flags,
            contours.remove(k),
            m,
            first,
            out,
        ),
    decreases contours.len() - m,
{
    let less = contours.remove(k);
    if m + 1 < contours.len() {
        assert(less[m] == contours[m + 1]);
        if less[m] < first {
            lemma_tail_after_removal(points, flags, contours, k, m + 1, first, out);
        } else {
            let end = less[m] as int;
            let next = contour_points(points, flags, first, end, out);
            lemma_tail_after_removal(points, flags, contours, k, m + 1, end + 1, next);
        }
    }
}

/// Inference fails if it needs a point that does not exist: the only marked point of a contour, the
/// last point of a contour whose only marked point moves, or a marked point that an unmarked one
/// goes by.
pub proof fn law_inference_needs_its_references<C: PointCoord, D: PointCoord + CoordFrom<C>>(
    points: Seq<Point<C>>,
    flags: Seq<PointFlags>,
    contours: Seq<u16>,
    out: Seq<Point<D>>,
    k: int,
    p: int,
    q: int,
    i: int,
)
    requires
        contours_ascend(contours),
        inference_ok(points, flags, contours, out),
        0 <= k < contours.len(),
        contour_start(contours, k) <= p <= q <= contours[k],
        is_marked(flags, p),
        is_marked(flags, q),
    ensures
        (forall|j: int|
            contour_start(contours, k) <= j <= contours[k] && is_marked(flags, j) ==> j == p)
            ==> p < points.len() && p < out.len() && (is_shift(shift_of(points, out, p))
            ==> contours[k] < out.len()),
        p < i < q && (forall|j: int| p < j < q ==> !is_marked(flags, j)) ==> q < points.len() && q
            < out.len(),
        p < q && (contour_start(contours, k) <= i < p || q < i <= contours[k]) && (forall|j: int|
            contour_start(contours, k) <= j < p || q < j <= contours[k] ==> !is_marked(flags, j))
            ==> q < points.len() && q < out.len(),
{
    let first = contour_start(contours, k);
    let end = contours[k] as int;
    lemma_every_contour_is_ok(points, flags, contours, out, k);
    lemma_first_mark(flags, first, end);
    lemma_last_mark(flags, first, end);
    if p < i < q && (forall|j: int| p < j < q ==> !is_marked(flags, j)) {
        lemma_gap_point(flags, first, end, p, q, i);
        assert(!is_marked(flags, i));
    }
    if p < q && (first <= i < p || q < i <= end) && (forall|j: int|
        first <= j < p || q < j <= end ==> !is_marked(flags, j)) {
        assert(first_mark(flags, first, end) == p);
        assert(last_mark(flags, first, end) == q);
        lemma_outer(flags, first, end);
        assert(neighbours(flags, first, end, i).0 == q);
        assert(!is_marked(flags, i));
    }
}

} // verus!
