//! What the deltas of a glyph add up to, in integers.
use crate::coord::{point_from, point_minus, point_plus, CoordFrom, Point, PointCoord};
use crate::delta_laws::{
    has_explicit, law_complete_glyph_never_fails, law_contour_follows_its_only_delta,
    law_contour_without_explicit_deltas_stays, law_explicit_deltas_arrive, law_shape_is_kept,
    lemma_accumulated_len, lemma_explicit_sum, lemma_marked_shape, lemma_marks,
    lemma_sparse_ignores_scratch, same_point,
};
use crate::deltas::{
    accumulated, buffers_fit, composite_deltas_spec, composite_glyph_spec, marked, prepared,
    simple_deltas_spec, simple_glyph_spec, sparse_applied,
    tuple_applied, zero_deltas, SimpleState,
};
use crate::fixed::{lemma_wrap_once, product_bits, wrap, Fixed};
use crate::flags::lemma_marker_bits;
use crate::interpolation_laws::{
    law_contours_without_points_change_nothing, law_ends_of_contours_go_round,
    law_inference_fails_for_missing_flags,
    law_points_go_between_their_nearest_references,
};
use crate::iup::{
    contour_start, contours_ascend, inferred_coord, inferred_points, is_marked,
    law_inference_succeeds, law_points_beyond_contours_stay, lemma_inferred_len,
};
use crate::tuple::{GlyphDelta, GlyphModel, Scalar, TupleModel};
use vstd::prelude::*;

verus! {

/// The units that a delta stands for, of which 16 bits count.
pub open spec fn units(delta: i32) -> int {
    (delta + 0x8000) % 0x1_0000 - 0x8000
}

/// The sum of the horizontal units of the first `n` explicit deltas that are for point `p`.
pub open spec fn x_units(explicit: Seq<GlyphDelta>, n: int, p: int) -> int
    decreases n,
{
    if n <= 0 {
        0
    } else if explicit[n - 1].position == p {
        x_units(explicit, n - 1, p) + units(explicit[n - 1].x_delta)
    } else {
        x_units(explicit, n - 1, p)
    }
}

/// The sum of the vertical units of the first `n` explicit deltas that are for point `p`.
pub open spec fn y_units(explicit: Seq<GlyphDelta>, n: int, p: int) -> int
    decreases n,
{
    if n <= 0 {
        0
    } else if explicit[n - 1].position == p {
        y_units(explicit, n - 1, p) + units(explicit[n - 1].y_delta)
    } else {
        y_units(explicit, n - 1, p)
    }
}

/// Whether `after` is `before`, moved by what a tuple with the factor `scalar` says of point `p`.
pub open spec fn is_moved(
    before: Point<Fixed>,
    after: Point<Fixed>,
    explicit: Seq<GlyphDelta>,
    p: int,
    scalar: Fixed,
) -> bool {
    let n = explicit.len() as int;
    &&& after.x.bits == wrap(before.x.bits + scalar.bits * x_units(explicit, n, p))
    &&& after.y.bits == wrap(before.y.bits + scalar.bits * y_units(explicit, n, p))
}

/// Scaling a number of whole units loses nothing.
proof fn lemma_scaled_units(delta: i32, scalar: Fixed)
    ensures
        Fixed::from_i32_spec(delta).times_spec(scalar).bits == wrap(scalar.bits * units(delta)),
{
    let u = units(delta);
    let s = scalar.bits as int;
    assert(wrap(delta * 0x1_0000) == u * 0x1_0000) by {
        let q = (delta + 0x8000) / 0x1_0000;
        let b = u * 0x1_0000 + 0x8000_0000;
        vstd::arithmetic::div_mod::lemma_mod_multiples_vanish(q, b, 0x1_0000_0000);
    }
    let ab = (u * 0x1_0000) * s;
    assert(ab == (s * u) * 0x1_0000) by (nonlinear_arith)
        requires
            ab == (u * 0x1_0000) * s,
    ;
    assert((ab + 0x8000 - (if ab < 0 {
        1int
    } else {
        0
    })) / 0x1_0000 == s * u);
    assert(product_bits((u * 0x1_0000) as i32, scalar.bits) == wrap(s * u));
}

/// Adding the explicit deltas of a tuple moves every point by the tuple's factor times the units of
/// all explicit deltas that are for it.
pub proof fn lemma_accumulated_units(
    deltas: Seq<Point<Fixed>>,
    explicit: Seq<GlyphDelta>,
    n: int,
    scalar: Fixed,
    p: int,
)
    requires
        0 <= n <= explicit.len(),
        0 <= p < deltas.len(),
    ensures
        accumulated(deltas, explicit, n, scalar)[p].x.bits == wrap(
            deltas[p].x.bits + scalar.bits * x_units(explicit, n, p),
        ),
        accumulated(deltas, explicit, n, scalar)[p].y.bits == wrap(
            deltas[p].y.bits + scalar.bits * y_units(explicit, n, p),
        ),
    decreases n,
{
    let s = scalar.bits as int;
    if n <= 0 {
        assert(s * 0 == 0);
    } else {
        lemma_accumulated_units(deltas, explicit, n - 1, scalar, p);
        lemma_accumulated_len(deltas, explicit, n - 1, scalar);
        let d = explicit[n - 1];
        if d.position == p {
            let before = accumulated(deltas, explicit, n - 1, scalar)[p];
            let (xs, ys) = (x_units(explicit, n - 1, p), y_units(explicit, n - 1, p));
            let (ux, uy) = (units(d.x_delta), units(d.y_delta));
            lemma_scaled_units(d.x_delta, scalar);
            lemma_scaled_units(d.y_delta, scalar);
            lemma_wrapped_sum(deltas[p].x.bits as int, s * xs, s * ux);
            lemma_wrapped_sum(deltas[p].y.bits as int, s * ys, s * uy);
            assert(s * (xs + ux) == s * xs + s * ux) by (nonlinear_arith);
            assert(s * (ys + uy) == s * ys + s * uy) by (nonlinear_arith);
        }
    }
}

proof fn lemma_wrapped_sum(a: int, b: int, c: int)
    ensures
        wrap(wrap(a + b) + wrap(c)) == wrap(a + b + c),
{
    lemma_wrap_once(wrap(a + b) as int, c);
    lemma_wrap_once(c, a + b);
}

/// What the first `n` tuples of a glyph move point `p` by horizontally if each is taken at its
/// word: the sum, over the tuples that have an effect, of the factor times the units of the
/// explicit deltas for the point.
pub open spec fn x_sum(glyph: GlyphModel, n: int, coords: Seq<i16>, p: int) -> int
    decreases n,
{
    if n <= 0 {
        0
    } else {
        let explicit = glyph.tuples[n - 1].deltas;
        x_sum(glyph, n - 1, coords, p) + match glyph.scalar_spec::<Fixed>(n - 1, coords) {
            Some(scalar) => scalar.bits * x_units(explicit, explicit.len() as int, p),
            None => 0,
        }
    }
}

/// [`x_sum`], vertically.
pub open spec fn y_sum(glyph: GlyphModel, n: int, coords: Seq<i16>, p: int) -> int
    decreases n,
{
    if n <= 0 {
        0
    } else {
        let explicit = glyph.tuples[n - 1].deltas;
        y_sum(glyph, n - 1, coords, p) + match glyph.scalar_spec::<Fixed>(n - 1, coords) {
            Some(scalar) => scalar.bits * y_units(explicit, explicit.len() as int, p),
            None => 0,
        }
    }
}

/// In fixed point, the deltas of a composite glyph are the sums of what all tuples that have an
/// effect say of each component, sparse or not. Without variation data, or if it cannot be read,
/// they are zero.
pub proof fn law_composite_deltas_are_sums(
    found: Option<Option<GlyphModel>>,
    coords: Seq<i16>,
    len: nat,
    p: int,
)
    requires
        0 <= p < len,
    ensures
        ({
            let deltas = composite_glyph_spec::<Fixed, Fixed>(found, coords, len);
            &&& deltas.len() == len
            &&& match found {
                Some(Some(glyph)) => {
                    let n = glyph.tuples.len() as int;
                    &&& deltas[p].x.bits == wrap(x_sum(glyph, n, coords, p))
                    &&& deltas[p].y.bits == wrap(y_sum(glyph, n, coords, p))
                },
                _ => deltas[p].x.bits == 0 && deltas[p].y.bits == 0,
            }
        }),
{
    if let Some(Some(glyph)) = found {
        lemma_composite_sum(glyph, glyph.tuples.len() as int, coords, zero_deltas(len), p);
    }
}

/// [`law_composite_deltas_are_sums`] for the first `n` tuples and any deltas to start from.
pub proof fn lemma_composite_sum(
    glyph: GlyphModel,
    n: int,
    coords: Seq<i16>,
    deltas: Seq<Point<Fixed>>,
    p: int,
)
    requires
        0 <= n <= glyph.tuples.len(),
        0 <= p < deltas.len(),
    ensures
        ({
            let after = composite_deltas_spec::<Fixed, Fixed>(glyph, n, coords, deltas);
            &&& after.len() == deltas.len()
            &&& after[p].x.bits == wrap(deltas[p].x.bits + x_sum(glyph, n, coords, p))
            &&& after[p].y.bits == wrap(deltas[p].y.bits + y_sum(glyph, n, coords, p))
        }),
    decreases n,
{
    if n > 0 {
        lemma_composite_sum(glyph, n - 1, coords, deltas, p);
        let before = composite_deltas_spec::<Fixed, Fixed>(glyph, n - 1, coords, deltas);
        if let Some(scalar) = glyph.scalar_spec::<Fixed>(n - 1, coords) {
            let explicit = glyph.tuples[n - 1].deltas;
            let m = explicit.len() as int;
            lemma_accumulated_units(before, explicit, m, scalar, p);
            lemma_accumulated_len(before, explicit, m, scalar);
            lemma_wrap_once(
                scalar.bits * x_units(explicit, m, p),
                deltas[p].x.bits + x_sum(glyph, n - 1, coords, p),
            );
            lemma_wrap_once(
                scalar.bits * y_units(explicit, m, p),
                deltas[p].y.bits + y_sum(glyph, n - 1, coords, p),
            );
        }
    }
}

/// Adding tuples to a composite glyph's deltas adds, for each component, what the tuples that have
/// an effect say of it.
pub proof fn law_composite_deltas_are_added(
    glyph: GlyphModel,
    coords: Seq<i16>,
    deltas: Seq<Point<Fixed>>,
    p: int,
)
    requires
        0 <= p < deltas.len(),
    ensures
        ({
            let n = glyph.tuples.len() as int;
            let after = composite_deltas_spec::<Fixed, Fixed>(glyph, n, coords, deltas);
            &&& after.len() == deltas.len()
            &&& after[p].x.bits == wrap(deltas[p].x.bits + x_sum(glyph, n, coords, p))
            &&& after[p].y.bits == wrap(deltas[p].y.bits + y_sum(glyph, n, coords, p))
        }),
{
    lemma_composite_sum(glyph, glyph.tuples.len() as int, coords, deltas, p);
}

/// In fixed point, a tuple for all points that has an effect moves, at any place in the list, every
/// point by what it says of the point, and touches neither flags nor working buffer.
pub proof fn law_dense_tuple_moves_points(
    points: Seq<Point<Fixed>>,
    contours: Seq<u16>,
    glyph: GlyphModel,
    n: int,
    coords: Seq<i16>,
    state: SimpleState<Fixed>,
    scalar: Fixed,
    p: int,
)
    requires
        0 <= n < glyph.tuples.len(),
        simple_deltas_spec::<Fixed, Fixed, Fixed>(points, contours, glyph, n, coords, state).ok,
        glyph.scalar_spec::<Fixed>(n, coords) == Some(scalar),
        glyph.tuples[n].all_points,
        0 <= p < state.deltas.len(),
    ensures
        ({
            let before = simple_deltas_spec::<Fixed, Fixed, Fixed>(
                points,
                contours,
                glyph,
                n,
                coords,
                state,
            );
            let after = simple_deltas_spec::<Fixed, Fixed, Fixed>(
                points,
                contours,
                glyph,
                n + 1,
                coords,
                state,
            );
            &&& is_moved(before.deltas[p], after.deltas[p], glyph.tuples[n].deltas, p, scalar)
            &&& after == (SimpleState { deltas: after.deltas, ..before })
        }),
{
    law_shape_is_kept::<Fixed, Fixed, Fixed>(points, contours, glyph, n, coords, state);
    let before = simple_deltas_spec::<Fixed, Fixed, Fixed>(
        points,
        contours,
        glyph,
        n,
        coords,
        state,
    );
    let explicit = glyph.tuples[n].deltas;
    lemma_accumulated_units(before.deltas, explicit, explicit.len() as int, scalar, p);
}

/// A tuple that has no effect changes nothing, at any place in the list, and no tuples change
/// nothing.
pub proof fn law_tuple_without_effect_changes_nothing<
    C: PointCoord,
    D: PointCoord + CoordFrom<C> + CoordFrom<S>,
    S: Scalar,
>(
    points: Seq<Point<C>>,
    contours: Seq<u16>,
    glyph: GlyphModel,
    n: int,
    coords: Seq<i16>,
    state: SimpleState<D>,
)
    requires
        0 <= n < glyph.tuples.len(),
        glyph.scalar_spec::<S>(n, coords) is None,
    ensures
        simple_deltas_spec::<C, D, S>(points, contours, glyph, n + 1, coords, state)
            == simple_deltas_spec::<C, D, S>(points, contours, glyph, n, coords, state),
        simple_deltas_spec::<C, D, S>(points, contours, glyph, 0, coords, state) == state,
{
}

/// A tuple that fails leaves the deltas as they are, and so do all tuples after one that failed.
/// Only a sparse tuple that has an effect can fail.
pub proof fn law_failure_keeps_deltas<
    C: PointCoord,
    D: PointCoord + CoordFrom<C> + CoordFrom<S>,
    S: Scalar,
>(
    points: Seq<Point<C>>,
    contours: Seq<u16>,
    glyph: GlyphModel,
    n: int,
    coords: Seq<i16>,
    state: SimpleState<D>,
)
    requires
        0 <= n < glyph.tuples.len(),
        !simple_deltas_spec::<C, D, S>(points, contours, glyph, n + 1, coords, state).ok,
    ensures
        ({
            let before = simple_deltas_spec::<C, D, S>(points, contours, glyph, n, coords, state);
            let after = simple_deltas_spec::<C, D, S>(
                points,
                contours,
                glyph,
                n + 1,
                coords,
                state,
            );
            &&& after.deltas == before.deltas
            &&& !before.ok ==> after == before
            &&& before.ok ==> !glyph.tuples[n].all_points && glyph.scalar_spec::<S>(
                n,
                coords,
            ) is Some
        }),
{
    if let Some(scalar) = glyph.scalar_spec::<S>(n, coords) {
        let before = simple_deltas_spec::<C, D, S>(points, contours, glyph, n, coords, state);
        let explicit = glyph.tuples[n].deltas;
        lemma_marked_shape(prepared(points, before), explicit, explicit.len() as int, scalar);
    }
}

/// In fixed point, a sparse tuple that has an effect moves, at any place in the list, every point
/// that it has explicit deltas for, and every point beyond the contours, by what it says of it.
pub proof fn law_sparse_tuple_moves_its_points(
    points: Seq<Point<Fixed>>,
    contours: Seq<u16>,
    glyph: GlyphModel,
    n: int,
    coords: Seq<i16>,
    state: SimpleState<Fixed>,
    scalar: Fixed,
    p: int,
)
    requires
        0 <= n < glyph.tuples.len(),
        simple_deltas_spec::<Fixed, Fixed, Fixed>(points, contours, glyph, n, coords, state).ok,
        glyph.scalar_spec::<Fixed>(n, coords) == Some(scalar),
        !glyph.tuples[n].all_points,
        simple_deltas_spec::<Fixed, Fixed, Fixed>(points, contours, glyph, n + 1, coords, state).ok,
        0 <= p < points.len(),
        p < state.flags.len(),
        p < state.buffer.len(),
        p < state.deltas.len(),
        has_explicit(glyph.tuples[n].deltas, glyph.tuples[n].deltas.len() as int, p) || forall|
            k: int,
        |
            0 <= k < contours.len() ==> contours[k] < p,
    ensures
        ({
            let before = simple_deltas_spec::<Fixed, Fixed, Fixed>(
                points,
                contours,
                glyph,
                n,
                coords,
                state,
            );
            let after = simple_deltas_spec::<Fixed, Fixed, Fixed>(
                points,
                contours,
                glyph,
                n + 1,
                coords,
                state,
            );
            is_moved(before.deltas[p], after.deltas[p], glyph.tuples[n].deltas, p, scalar)
        }),
{
    law_shape_is_kept::<Fixed, Fixed, Fixed>(points, contours, glyph, n, coords, state);
    let before = simple_deltas_spec::<Fixed, Fixed, Fixed>(
        points,
        contours,
        glyph,
        n,
        coords,
        state,
    );
    let explicit = glyph.tuples[n].deltas;
    lemma_accumulated_units(before.deltas, explicit, explicit.len() as int, scalar, p);
    law_explicit_deltas_arrive(points, contours, explicit, scalar, before, p);
}

/// In fixed point, a sparse tuple that has an effect and explicit deltas for one point of a contour
/// only moves all points of the contour by what it says of that point.
pub proof fn law_sparse_tuple_moves_whole_contours(
    points: Seq<Point<Fixed>>,
    contours: Seq<u16>,
    glyph: GlyphModel,
    n: int,
    coords: Seq<i16>,
    state: SimpleState<Fixed>,
    scalar: Fixed,
    k: int,
    r: int,
    i: int,
)
    requires
        0 <= n < glyph.tuples.len(),
        simple_deltas_spec::<Fixed, Fixed, Fixed>(points, contours, glyph, n, coords, state).ok,
        glyph.scalar_spec::<Fixed>(n, coords) == Some(scalar),
        !glyph.tuples[n].all_points,
        simple_deltas_spec::<Fixed, Fixed, Fixed>(points, contours, glyph, n + 1, coords, state).ok,
        contours_ascend(contours),
        0 <= k < contours.len(),
        contour_start(contours, k) <= i <= contours[k],
        contour_start(contours, k) <= r <= contours[k],
        contours[k] < points.len(),
        contours[k] < state.flags.len(),
        contours[k] < state.buffer.len(),
        contours[k] < state.deltas.len(),
        forall|j: int|
            contour_start(contours, k) <= j <= contours[k] ==> (has_explicit(
                glyph.tuples[n].deltas,
                glyph.tuples[n].deltas.len() as int,
                j,
            ) <==> j == r),
    ensures
        ({
            let before = simple_deltas_spec::<Fixed, Fixed, Fixed>(
                points,
                contours,
                glyph,
                n,
                coords,
                state,
            );
            let after = simple_deltas_spec::<Fixed, Fixed, Fixed>(
                points,
                contours,
                glyph,
                n + 1,
                coords,
                state,
            );
            is_moved(before.deltas[i], after.deltas[i], glyph.tuples[n].deltas, r, scalar)
        }),
{
    law_shape_is_kept::<Fixed, Fixed, Fixed>(points, contours, glyph, n, coords, state);
    let before = simple_deltas_spec::<Fixed, Fixed, Fixed>(
        points,
        contours,
        glyph,
        n,
        coords,
        state,
    );
    let explicit = glyph.tuples[n].deltas;
    let m = explicit.len() as int;
    assert(has_explicit(explicit, m, r));
    law_sparse_tuple_moves_its_points(points, contours, glyph, n, coords, state, scalar, r);
    law_contour_follows_its_only_delta(points, contours, explicit, scalar, before, k, r, i);
    let after = sparse_applied(points, contours, explicit, scalar, before).deltas;
    let (b, a) = (before.deltas[i], after[i]);
    let (c, d) = (before.deltas[r], after[r]);
    lemma_same_move(b.x, a.x, c.x, d.x, scalar.bits * x_units(explicit, m, r));
    lemma_same_move(b.y, a.y, c.y, d.y, scalar.bits * y_units(explicit, m, r));
}

proof fn lemma_same_move(b: Fixed, a: Fixed, c: Fixed, d: Fixed, m: int)
    requires
        a.minus_spec(b) == d.minus_spec(c),
        d.bits == wrap(c.bits + m),
    ensures
        a.bits == wrap(b.bits + m),
{
    lemma_wrap_once(b.bits as int, a.bits - b.bits);
    lemma_wrap_once(-c.bits, c.bits + m);
    lemma_wrap_once(b.bits as int, m);
    assert(wrap(a.bits as int) == a.bits);
}

/// A sparse tuple that has an effect and no explicit deltas for the points of a contour leaves them
/// alone.
pub proof fn law_sparse_tuple_leaves_other_contours_alone(
    points: Seq<Point<Fixed>>,
    contours: Seq<u16>,
    glyph: GlyphModel,
    n: int,
    coords: Seq<i16>,
    state: SimpleState<Fixed>,
    scalar: Fixed,
    k: int,
    i: int,
)
    requires
        0 <= n < glyph.tuples.len(),
        simple_deltas_spec::<Fixed, Fixed, Fixed>(points, contours, glyph, n, coords, state).ok,
        glyph.scalar_spec::<Fixed>(n, coords) == Some(scalar),
        !glyph.tuples[n].all_points,
        simple_deltas_spec::<Fixed, Fixed, Fixed>(points, contours, glyph, n + 1, coords, state).ok,
        contours_ascend(contours),
        0 <= k < contours.len(),
        contour_start(contours, k) <= i <= contours[k],
        contours[k] < points.len(),
        contours[k] < state.flags.len(),
        contours[k] < state.buffer.len(),
        i < state.deltas.len(),
        forall|j: int|
            contour_start(contours, k) <= j <= contours[k] ==> !has_explicit(
                glyph.tuples[n].deltas,
                glyph.tuples[n].deltas.len() as int,
                j,
            ),
    ensures
        ({
            let before = simple_deltas_spec::<Fixed, Fixed, Fixed>(
                points,
                contours,
                glyph,
                n,
                coords,
                state,
            );
            let after = simple_deltas_spec::<Fixed, Fixed, Fixed>(
                points,
                contours,
                glyph,
                n + 1,
                coords,
                state,
            );
            after.deltas[i] == before.deltas[i]
        }),
{
    law_shape_is_kept::<Fixed, Fixed, Fixed>(points, contours, glyph, n, coords, state);
    let before = simple_deltas_spec::<Fixed, Fixed, Fixed>(
        points,
        contours,
        glyph,
        n,
        coords,
        state,
    );
    let explicit = glyph.tuples[n].deltas;
    law_contour_without_explicit_deltas_stays(
        points,
        contours,
        explicit,
        scalar,
        before,
        k,
        i,
    );
}

/// Where a point goes by its explicit deltas.
pub open spec fn target(
    point: Point<Fixed>,
    explicit: Seq<GlyphDelta>,
    p: int,
    scalar: Fixed,
) -> Point<Fixed> {
    let origin = point_from::<Fixed, Fixed>(point);
    let n = explicit.len() as int;
    Point {
        x: Fixed { bits: wrap(origin.x.bits + scalar.bits * x_units(explicit, n, p)) },
        y: Fixed { bits: wrap(origin.y.bits + scalar.bits * y_units(explicit, n, p)) },
    }
}

/// Whether point `i` moves, from `before` to `after`, to where its references `r1` and `r2`, which
/// go by their explicit deltas, put each of its coordinates.
pub open spec fn is_inferred(
    before: Point<Fixed>,
    after: Point<Fixed>,
    points: Seq<Point<Fixed>>,
    explicit: Seq<GlyphDelta>,
    scalar: Fixed,
    r1: int,
    r2: int,
    i: int,
) -> bool {
    let origin = point_from::<Fixed, Fixed>(points[i]);
    let t1 = target(points[r1], explicit, r1, scalar);
    let t2 = target(points[r2], explicit, r2, scalar);
    let x = inferred_coord(points[i].x, points[r1].x, points[r2].x, t1.x, t2.x, origin.x);
    let y = inferred_coord(points[i].y, points[r1].y, points[r2].y, t1.y, t2.y, origin.y);
    &&& after.x.bits == wrap(before.x.bits + x.bits - origin.x.bits)
    &&& after.y.bits == wrap(before.y.bits + y.bits - origin.y.bits)
}

/// In fixed point, a sparse tuple that has an effect infers, at any place in the list, the move of
/// a point from the nearest points before and after it on its contour that have explicit deltas.
#[verifier::spinoff_prover]
#[verifier::rlimit(50)]
pub proof fn law_sparse_tuple_infers_between(
    points: Seq<Point<Fixed>>,
    contours: Seq<u16>,
    glyph: GlyphModel,
    n: int,
    coords: Seq<i16>,
    state: SimpleState<Fixed>,
    scalar: Fixed,
    k: int,
    p: int,
    q: int,
    i: int,
)
    requires
        0 <= n < glyph.tuples.len(),
        simple_deltas_spec::<Fixed, Fixed, Fixed>(points, contours, glyph, n, coords, state).ok,
        glyph.scalar_spec::<Fixed>(n, coords) == Some(scalar),
        !glyph.tuples[n].all_points,
        simple_deltas_spec::<Fixed, Fixed, Fixed>(points, contours, glyph, n + 1, coords, state).ok,
        contours_ascend(contours),
        0 <= k < contours.len(),
        contour_start(contours, k) <= p < i < q <= contours[k],
        contours[k] < points.len(),
        contours[k] < state.flags.len(),
        contours[k] < state.buffer.len(),
        i < state.deltas.len(),
        has_explicit(glyph.tuples[n].deltas, glyph.tuples[n].deltas.len() as int, p),
        has_explicit(glyph.tuples[n].deltas, glyph.tuples[n].deltas.len() as int, q),
        forall|j: int|
            p < j < q ==> !has_explicit(
                glyph.tuples[n].deltas,
                glyph.tuples[n].deltas.len() as int,
                j,
            ),
    ensures
        ({
            let before = simple_deltas_spec::<Fixed, Fixed, Fixed>(
                points,
                contours,
                glyph,
                n,
                coords,
                state,
            );
            let after = simple_deltas_spec::<Fixed, Fixed, Fixed>(
                points,
                contours,
                glyph,
                n + 1,
                coords,
                state,
            );
            is_inferred(
                before.deltas[i],
                after.deltas[i],
                points,
                glyph.tuples[n].deltas,
                scalar,
                p,
                q,
                i,
            )
        }),
{
    law_shape_is_kept::<Fixed, Fixed, Fixed>(points, contours, glyph, n, coords, state);
    let before = simple_deltas_spec::<Fixed, Fixed, Fixed>(
        points,
        contours,
        glyph,
        n,
        coords,
        state,
    );
    let explicit = glyph.tuples[n].deltas;
    let m = explicit.len() as int;
    let clean = prepared(points, before);
    let full = marked(clean, explicit, m, scalar);
    lemma_marked_shape(clean, explicit, m, scalar);
    assert forall|j: int| p <= j <= q implies is_marked(full.flags, j) == has_explicit(
        explicit,
        m,
        j,
    ) by {
        lemma_targets(points, before, explicit, scalar, j);
    }
    lemma_targets(points, before, explicit, scalar, p);
    lemma_targets(points, before, explicit, scalar, q);
    lemma_unmarked_target(points, before, explicit, scalar, i);
    law_points_go_between_their_nearest_references(
        points,
        full.flags,
        contours,
        full.buffer,
        k,
        p,
        q,
        i,
    );
    lemma_inferred_move(points, contours, explicit, scalar, before, i);
}

/// In fixed point, a sparse tuple that has an effect infers, at any place in the list, the move of
/// a point before the first or after the last point of its contour that has explicit deltas from
/// those two.
#[verifier::spinoff_prover]
#[verifier::rlimit(50)]
pub proof fn law_sparse_tuple_infers_round(
    points: Seq<Point<Fixed>>,
    contours: Seq<u16>,
    glyph: GlyphModel,
    n: int,
    coords: Seq<i16>,
    state: SimpleState<Fixed>,
    scalar: Fixed,
    k: int,
    p: int,
    q: int,
    i: int,
)
    requires
        0 <= n < glyph.tuples.len(),
        simple_deltas_spec::<Fixed, Fixed, Fixed>(points, contours, glyph, n, coords, state).ok,
        glyph.scalar_spec::<Fixed>(n, coords) == Some(scalar),
        !glyph.tuples[n].all_points,
        simple_deltas_spec::<Fixed, Fixed, Fixed>(points, contours, glyph, n + 1, coords, state).ok,
        contours_ascend(contours),
        0 <= k < contours.len(),
        contour_start(contours, k) <= p < q <= contours[k],
        contour_start(contours, k) <= i < p || q < i <= contours[k],
        contours[k] < points.len(),
        contours[k] < state.flags.len(),
        contours[k] < state.buffer.len(),
        i < state.deltas.len(),
        has_explicit(glyph.tuples[n].deltas, glyph.tuples[n].deltas.len() as int, p),
        has_explicit(glyph.tuples[n].deltas, glyph.tuples[n].deltas.len() as int, q),
        forall|j: int|
            contour_start(contours, k) <= j < p || q < j <= contours[k] ==> !has_explicit(
                glyph.tuples[n].deltas,
                glyph.tuples[n].deltas.len() as int,
                j,
            ),
    ensures
        ({
            let before = simple_deltas_spec::<Fixed, Fixed, Fixed>(
                points,
                contours,
                glyph,
                n,
                coords,
                state,
            );
            let after = simple_deltas_spec::<Fixed, Fixed, Fixed>(
                points,
                contours,
                glyph,
                n + 1,
                coords,
                state,
            );
            is_inferred(
                before.deltas[i],
                after.deltas[i],
                points,
                glyph.tuples[n].deltas,
                scalar,
                q,
                p,
                i,
            )
        }),
{
    law_shape_is_kept::<Fixed, Fixed, Fixed>(points, contours, glyph, n, coords, state);
    let before = simple_deltas_spec::<Fixed, Fixed, Fixed>(
        points,
        contours,
        glyph,
        n,
        coords,
        state,
    );
    let explicit = glyph.tuples[n].deltas;
    let m = explicit.len() as int;
    let clean = prepared(points, before);
    let full = marked(clean, explicit, m, scalar);
    lemma_marked_shape(clean, explicit, m, scalar);
    assert forall|j: int| contour_start(contours, k) <= j <= contours[k] implies is_marked(
        full.flags,
        j,
    ) == has_explicit(explicit, m, j) by {
        lemma_targets(points, before, explicit, scalar, j);
    }
    lemma_targets(points, before, explicit, scalar, p);
    lemma_targets(points, before, explicit, scalar, q);
    lemma_unmarked_target(points, before, explicit, scalar, i);
    law_ends_of_contours_go_round(
        points,
        full.flags,
        contours,
        full.buffer,
        k,
        p,
        q,
        i,
    );
    lemma_inferred_move(points, contours, explicit, scalar, before, i);
}

/// The explicit deltas of a sparse tuple mark their points and take them to their targets.
proof fn lemma_targets(
    points: Seq<Point<Fixed>>,
    state: SimpleState<Fixed>,
    explicit: Seq<GlyphDelta>,
    scalar: Fixed,
    p: int,
)
    requires
        0 <= p < points.len(),
        p < state.flags.len(),
        p < state.buffer.len(),
    ensures
        ({
            let m = explicit.len() as int;
            let full = marked(prepared(points, state), explicit, m, scalar);
            &&& is_marked(full.flags, p) <==> has_explicit(explicit, m, p)
            &&& full.buffer[p] == target(points[p], explicit, p, scalar)
        }),
{
    let m = explicit.len() as int;
    let clean = prepared(points, state);
    let full = marked(clean, explicit, m, scalar);
    let origin = point_from::<Fixed, Fixed>(points[p]);
    let zeros = zero_deltas::<Fixed>((p + 1) as nat);
    lemma_marker_bits(state.flags[p]);
    lemma_marks(clean, explicit, m, scalar, p);
    lemma_explicit_sum(clean, zeros, origin, explicit, m, scalar, p);
    lemma_accumulated_units(zeros, explicit, m, scalar, p);
    let t = full.buffer[p];
    let (x, y) = (scalar.bits * x_units(explicit, m, p), scalar.bits * y_units(explicit, m, p));
    lemma_target(origin.x, t.x, x);
    lemma_target(origin.y, t.y, y);
}

/// A point without explicit deltas is left at its origin.
proof fn lemma_unmarked_target(
    points: Seq<Point<Fixed>>,
    state: SimpleState<Fixed>,
    explicit: Seq<GlyphDelta>,
    scalar: Fixed,
    p: int,
)
    requires
        0 <= p < points.len(),
        p < state.flags.len(),
        p < state.buffer.len(),
        !has_explicit(explicit, explicit.len() as int, p),
    ensures
        marked(prepared(points, state), explicit, explicit.len() as int, scalar).buffer[p]
            == point_from::<Fixed, Fixed>(points[p]),
{
    lemma_marker_bits(state.flags[p]);
    lemma_marks(prepared(points, state), explicit, explicit.len() as int, scalar, p);
}

proof fn lemma_target(origin: Fixed, t: Fixed, m: int)
    requires
        (Fixed { bits: 0 }).plus_spec(t.minus_spec(origin)).bits == wrap(0 + m),
    ensures
        t.bits == wrap(origin.bits + m),
{
    lemma_wrap_once(0, t.bits - origin.bits);
    lemma_wrap_once(origin.bits as int, t.bits - origin.bits);
    lemma_wrap_once(origin.bits as int, m);
    assert(wrap(t.bits as int) == t.bits);
}

/// A sparse tuple that can be applied moves every point by the distance of its place in the working
/// buffer from its origin.
proof fn lemma_inferred_move(
    points: Seq<Point<Fixed>>,
    contours: Seq<u16>,
    explicit: Seq<GlyphDelta>,
    scalar: Fixed,
    state: SimpleState<Fixed>,
    i: int,
)
    requires
        sparse_applied(points, contours, explicit, scalar, state).ok,
        0 <= i < points.len(),
        i < state.buffer.len(),
        i < state.deltas.len(),
    ensures
        ({
            let m = explicit.len() as int;
            let full = marked(prepared(points, state), explicit, m, scalar);
            let r = inferred_points(points, full.flags, contours, full.buffer)[i];
            let origin = point_from::<Fixed, Fixed>(points[i]);
            let (b, a) = (
                state.deltas[i],
                sparse_applied(points, contours, explicit, scalar, state).deltas[i],
            );
            &&& a.x.bits == wrap(b.x.bits + r.x.bits - origin.x.bits)
            &&& a.y.bits == wrap(b.y.bits + r.y.bits - origin.y.bits)
        }),
{
    let m = explicit.len() as int;
    let clean = prepared(points, state);
    let full = marked(clean, explicit, m, scalar);
    lemma_marked_shape(clean, explicit, m, scalar);
    lemma_inferred_len(points, full.flags, contours, 0, 0, full.buffer);
    let r = inferred_points(points, full.flags, contours, full.buffer)[i];
    let origin = point_from::<Fixed, Fixed>(points[i]);
    lemma_wrap_once(state.deltas[i].x.bits as int, r.x.bits - origin.x.bits);
    lemma_wrap_once(state.deltas[i].y.bits as int, r.y.bits - origin.y.bits);
}

/// After a sparse tuple that has an effect, exactly the points that it has explicit deltas for are
/// marked.
pub proof fn law_markers_show_explicit_deltas(
    points: Seq<Point<Fixed>>,
    contours: Seq<u16>,
    glyph: GlyphModel,
    n: int,
    coords: Seq<i16>,
    state: SimpleState<Fixed>,
    scalar: Fixed,
    p: int,
)
    requires
        0 <= n < glyph.tuples.len(),
        simple_deltas_spec::<Fixed, Fixed, Fixed>(points, contours, glyph, n, coords, state).ok,
        glyph.scalar_spec::<Fixed>(n, coords) == Some(scalar),
        !glyph.tuples[n].all_points,
        0 <= p < points.len(),
        p < state.flags.len(),
        p < state.buffer.len(),
    ensures
        is_marked(
            simple_deltas_spec::<Fixed, Fixed, Fixed>(
                points,
                contours,
                glyph,
                n + 1,
                coords,
                state,
            ).flags,
            p,
        ) <==> has_explicit(glyph.tuples[n].deltas, glyph.tuples[n].deltas.len() as int, p),
{
    law_shape_is_kept::<Fixed, Fixed, Fixed>(points, contours, glyph, n, coords, state);
    let before = simple_deltas_spec::<Fixed, Fixed, Fixed>(
        points,
        contours,
        glyph,
        n,
        coords,
        state,
    );
    lemma_targets(points, before, glyph.tuples[n].deltas, scalar, p);
}

/// Glyph variation data with nothing but tuple `k` of other data.
pub open spec fn only_tuple(glyph: GlyphModel, k: int) -> GlyphModel {
    GlyphModel {
        tuples: seq![glyph.tuples[k]],
        active: seq![k < glyph.active.len() && glyph.active[k]],
    }
}

/// The deltas of a simple glyph if the data had nothing but tuple `k`.
pub open spec fn deltas_alone(
    points: Seq<Point<Fixed>>,
    contours: Seq<u16>,
    glyph: GlyphModel,
    k: int,
    coords: Seq<i16>,
    state: SimpleState<Fixed>,
) -> Seq<Point<Fixed>> {
    simple_glyph_spec::<Fixed, Fixed, Fixed>(
        Some(Some(only_tuple(glyph, k))),
        coords,
        points,
        contours,
        state,
    ).deltas
}

/// The sum of the horizontal deltas of point `i` under each of the first `n` tuples alone.
pub open spec fn x_alone(
    points: Seq<Point<Fixed>>,
    contours: Seq<u16>,
    glyph: GlyphModel,
    n: int,
    coords: Seq<i16>,
    state: SimpleState<Fixed>,
    i: int,
) -> int
    decreases n,
{
    if n <= 0 {
        0
    } else {
        x_alone(points, contours, glyph, n - 1, coords, state, i) + deltas_alone(
            points,
            contours,
            glyph,
            n - 1,
            coords,
            state,
        )[i].x.bits
    }
}

/// The sum of the vertical deltas of point `i` under each of the first `n` tuples alone.
pub open spec fn y_alone(
    points: Seq<Point<Fixed>>,
    contours: Seq<u16>,
    glyph: GlyphModel,
    n: int,
    coords: Seq<i16>,
    state: SimpleState<Fixed>,
    i: int,
) -> int
    decreases n,
{
    if n <= 0 {
        0
    } else {
        y_alone(points, contours, glyph, n - 1, coords, state, i) + deltas_alone(
            points,
            contours,
            glyph,
            n - 1,
            coords,
            state,
        )[i].y.bits
    }
}

/// Whether a glyph is complete: it has as many flags as points, places in the working buffer for
/// all points, and contours of existing points.
pub open spec fn is_complete(
    points: Seq<Point<Fixed>>,
    contours: Seq<u16>,
    state: SimpleState<Fixed>,
) -> bool {
    &&& state.ok
    &&& state.flags.len() == points.len()
    &&& points.len() <= state.buffer.len()
    &&& forall|k: int| 0 <= k < contours.len() ==> (#[trigger] contours[k]) < points.len()
}

/// In fixed point, the deltas of a complete simple glyph are the sums of the deltas that its tuples
/// give each alone, whatever the mix and order of sparse and dense tuples.
pub proof fn law_simple_deltas_are_sums(
    points: Seq<Point<Fixed>>,
    contours: Seq<u16>,
    glyph: GlyphModel,
    coords: Seq<i16>,
    state: SimpleState<Fixed>,
    i: int,
)
    requires
        is_complete(points, contours, state),
        0 <= i < state.deltas.len(),
    ensures
        ({
            let n = glyph.tuples.len() as int;
            let after = simple_glyph_spec::<Fixed, Fixed, Fixed>(
                Some(Some(glyph)),
                coords,
                points,
                contours,
                state,
            );
            &&& after.ok
            &&& after.deltas.len() == state.deltas.len()
            &&& after.deltas[i].x.bits == wrap(
                x_alone(points, contours, glyph, n, coords, state, i),
            )
            &&& after.deltas[i].y.bits == wrap(
                y_alone(points, contours, glyph, n, coords, state, i),
            )
        }),
{
    let cleared = SimpleState { deltas: zero_deltas(state.deltas.len()), ..state };
    let n = glyph.tuples.len() as int;
    law_complete_glyph_never_fails::<Fixed, Fixed, Fixed>(
        points,
        contours,
        glyph,
        n,
        coords,
        cleared,
    );
    law_shape_is_kept::<Fixed, Fixed, Fixed>(points, contours, glyph, n, coords, cleared);
    lemma_simple_sum(points, contours, glyph, n, coords, state, i);
}

proof fn lemma_simple_sum(
    points: Seq<Point<Fixed>>,
    contours: Seq<u16>,
    glyph: GlyphModel,
    n: int,
    coords: Seq<i16>,
    state: SimpleState<Fixed>,
    i: int,
)
    requires
        0 <= n <= glyph.tuples.len(),
        is_complete(points, contours, state),
        0 <= i < state.deltas.len(),
    ensures
        ({
            let cleared = SimpleState { deltas: zero_deltas(state.deltas.len()), ..state };
            let after = simple_deltas_spec::<Fixed, Fixed, Fixed>(
                points,
                contours,
                glyph,
                n,
                coords,
                cleared,
            );
            &&& after.deltas[i].x.bits == wrap(
                x_alone(points, contours, glyph, n, coords, state, i),
            )
            &&& after.deltas[i].y.bits == wrap(
                y_alone(points, contours, glyph, n, coords, state, i),
            )
        }),
    decreases n,
{
    let cleared = SimpleState { deltas: zero_deltas(state.deltas.len()), ..state };
    if n > 0 {
        lemma_simple_sum(points, contours, glyph, n - 1, coords, state, i);
        let before = simple_deltas_spec::<Fixed, Fixed, Fixed>(
            points,
            contours,
            glyph,
            n - 1,
            coords,
            cleared,
        );
        law_complete_glyph_never_fails::<Fixed, Fixed, Fixed>(
            points,
            contours,
            glyph,
            n - 1,
            coords,
            cleared,
        );
        law_shape_is_kept::<Fixed, Fixed, Fixed>(
            points,
            contours,
            glyph,
            n - 1,
            coords,
            cleared,
        );
        lemma_alone(points, contours, glyph, n - 1, coords, state);
        let alone = deltas_alone(points, contours, glyph, n - 1, coords, state);
        let after = tuple_applied(
            points,
            contours,
            glyph.tuples[n - 1],
            glyph.scalar_spec::<Fixed>(n - 1, coords),
            before,
        );
        lemma_adds_what_it_gives_alone(
            points,
            contours,
            glyph.tuples[n - 1],
            glyph.scalar_spec::<Fixed>(n - 1, coords),
            before,
            cleared,
            i,
        );
        assert(after.deltas[i] == point_plus(before.deltas[i], alone[i]));
        lemma_wrap_once(
            alone[i].x.bits as int,
            x_alone(points, contours, glyph, n - 1, coords, state, i),
        );
        lemma_wrap_once(
            alone[i].y.bits as int,
            y_alone(points, contours, glyph, n - 1, coords, state, i),
        );
    }
}

/// One tuple alone is applied to zero deltas.
proof fn lemma_alone(
    points: Seq<Point<Fixed>>,
    contours: Seq<u16>,
    glyph: GlyphModel,
    k: int,
    coords: Seq<i16>,
    state: SimpleState<Fixed>,
)
    requires
        state.ok,
    ensures
        deltas_alone(points, contours, glyph, k, coords, state) == tuple_applied(
            points,
            contours,
            glyph.tuples[k],
            glyph.scalar_spec::<Fixed>(k, coords),
            SimpleState { deltas: zero_deltas(state.deltas.len()), ..state },
        ).deltas,
{
    let cleared = SimpleState { deltas: zero_deltas(state.deltas.len()), ..state };
    let one = only_tuple(glyph, k);
    assert(one.scalar_spec::<Fixed>(0, coords) == glyph.scalar_spec::<Fixed>(k, coords));
    assert(simple_deltas_spec::<Fixed, Fixed, Fixed>(points, contours, one, 0, coords, cleared)
        == cleared);
    assert(one.tuples.len() == 1);
}

/// A tuple adds to any deltas what it gives from zero deltas, whatever the working buffer and the
/// markers hold.
proof fn lemma_adds_what_it_gives_alone(
    points: Seq<Point<Fixed>>,
    contours: Seq<u16>,
    tuple: TupleModel,
    scalar: Option<Fixed>,
    state: SimpleState<Fixed>,
    cleared: SimpleState<Fixed>,
    i: int,
)
    requires
        is_complete(points, contours, state),
        is_complete(points, contours, cleared),
        cleared.deltas == zero_deltas::<Fixed>(state.deltas.len()),
        forall|j: int|
            0 <= j < state.flags.len() ==> same_point(#[trigger] state.flags[j], cleared.flags[j]),
        0 <= i < state.deltas.len(),
    ensures
        tuple_applied(points, contours, tuple, scalar, state).deltas[i] == point_plus(
            state.deltas[i],
            tuple_applied(points, contours, tuple, scalar, cleared).deltas[i],
        ),
{
    match scalar {
        None => {
            lemma_zero_and(state.deltas[i], Point { x: Fixed { bits: 0 }, y: Fixed { bits: 0 } });
        },
        Some(scalar) => {
            if tuple.all_points {
                lemma_dense_adds(tuple.deltas, scalar, state.deltas, cleared.deltas, i);
            } else {
                let zeroed = SimpleState { deltas: cleared.deltas, ..state };
                lemma_sparse_ignores_scratch(
                    points,
                    contours,
                    tuple.deltas,
                    scalar,
                    zeroed,
                    cleared,
                );
                lemma_sparse_adds(points, contours, tuple.deltas, scalar, state, zeroed, i);
            }
        },
    }
}

/// Zero plus a displacement is the displacement, and a displacement plus zero is too.
proof fn lemma_zero_and(b: Point<Fixed>, d: Point<Fixed>)
    ensures
        point_plus(Point { x: Fixed { bits: 0 }, y: Fixed { bits: 0 } }, d) == d,
        point_plus(b, Point { x: Fixed { bits: 0 }, y: Fixed { bits: 0 } }) == b,
{
}

proof fn lemma_dense_adds(
    explicit: Seq<GlyphDelta>,
    scalar: Fixed,
    deltas: Seq<Point<Fixed>>,
    zeros: Seq<Point<Fixed>>,
    i: int,
)
    requires
        0 <= i < deltas.len(),
        i < zeros.len(),
        zeros[i] == (Point { x: Fixed { bits: 0 }, y: Fixed { bits: 0 } }),
    ensures
        accumulated(deltas, explicit, explicit.len() as int, scalar)[i] == point_plus(
            deltas[i],
            accumulated(zeros, explicit, explicit.len() as int, scalar)[i],
        ),
{
    let m = explicit.len() as int;
    let x = scalar.bits * x_units(explicit, m, i);
    let y = scalar.bits * y_units(explicit, m, i);
    lemma_accumulated_units(deltas, explicit, m, scalar, i);
    lemma_accumulated_units(zeros, explicit, m, scalar, i);
    lemma_wrap_once(deltas[i].x.bits as int, x);
    lemma_wrap_once(deltas[i].y.bits as int, y);
}

proof fn lemma_sparse_adds(
    points: Seq<Point<Fixed>>,
    contours: Seq<u16>,
    explicit: Seq<GlyphDelta>,
    scalar: Fixed,
    state: SimpleState<Fixed>,
    zeroed: SimpleState<Fixed>,
    i: int,
)
    requires
        is_complete(points, contours, state),
        zeroed == (SimpleState { deltas: zero_deltas::<Fixed>(state.deltas.len()), ..state }),
        0 <= i < state.deltas.len(),
    ensures
        sparse_applied(points, contours, explicit, scalar, state).deltas[i] == point_plus(
            state.deltas[i],
            sparse_applied(points, contours, explicit, scalar, zeroed).deltas[i],
        ),
{
    let m = explicit.len() as int;
    let full = marked(prepared(points, state), explicit, m, scalar);
    lemma_sparse_move(points, contours, explicit, scalar, state, i);
    lemma_sparse_move(points, contours, explicit, scalar, zeroed, i);
    lemma_marked_ignores_deltas(
        prepared(points, state),
        prepared(points, zeroed),
        explicit,
        m,
        scalar,
    );
    let r = inferred_points(points, full.flags, contours, full.buffer)[i];
    lemma_zero_and(state.deltas[i], point_minus(r, point_from::<Fixed, Fixed>(points[i])));
}

/// A sparse tuple that can be applied adds to the delta of every point the distance of its place
/// in the working buffer from its origin.
proof fn lemma_sparse_move<C: PointCoord, D: PointCoord + CoordFrom<C> + CoordFrom<S>, S>(
    points: Seq<Point<C>>,
    contours: Seq<u16>,
    explicit: Seq<GlyphDelta>,
    scalar: S,
    state: SimpleState<D>,
    i: int,
)
    requires
        points.len() <= state.buffer.len(),
        forall|k: int|
            0 <= k < contours.len() ==> (#[trigger] contours[k]) < points.len() && contours[k]
                < state.flags.len(),
        0 <= i < state.deltas.len(),
    ensures
        ({
            let m = explicit.len() as int;
            let full = marked(prepared(points, state), explicit, m, scalar);
            let r = inferred_points(points, full.flags, contours, full.buffer)[i];
            sparse_applied(points, contours, explicit, scalar, state).deltas[i] == if i
                < points.len() {
                point_plus(state.deltas[i], point_minus(r, point_from(points[i])))
            } else {
                state.deltas[i]
            }
        }),
{
    let m = explicit.len() as int;
    let full = marked(prepared(points, state), explicit, m, scalar);
    lemma_marked_shape(prepared(points, state), explicit, m, scalar);
    law_inference_succeeds(points, full.flags, contours, full.buffer);
    lemma_inferred_len(points, full.flags, contours, 0, 0, full.buffer);
}

proof fn lemma_marked_ignores_deltas<D: PointCoord + CoordFrom<S>, S>(
    a: SimpleState<D>,
    b: SimpleState<D>,
    explicit: Seq<GlyphDelta>,
    n: int,
    scalar: S,
)
    requires
        a.flags == b.flags,
        a.buffer == b.buffer,
    ensures
        marked(a, explicit, n, scalar).flags == marked(b, explicit, n, scalar).flags,
        marked(a, explicit, n, scalar).buffer == marked(b, explicit, n, scalar).buffer,
    decreases n,
{
    if n > 0 {
        lemma_marked_ignores_deltas(a, b, explicit, n - 1, scalar);
    }
}

/// Variation data that cannot be read leaves a simple glyph's deltas, flags and buffer as they are.
/// Missing data sets its deltas to zero and touches nothing else. With data, the deltas handed in
/// have no influence.
pub proof fn law_found_data_decides(
    points: Seq<Point<Fixed>>,
    contours: Seq<u16>,
    glyph: GlyphModel,
    coords: Seq<i16>,
    state: SimpleState<Fixed>,
    deltas: Seq<Point<Fixed>>,
    i: int,
)
    requires
        deltas.len() == state.deltas.len(),
        0 <= i < state.deltas.len(),
    ensures
        simple_glyph_spec::<Fixed, Fixed, Fixed>(None, coords, points, contours, state) == state,
        ({
            let after = simple_glyph_spec::<Fixed, Fixed, Fixed>(
                Some(None),
                coords,
                points,
                contours,
                state,
            );
            &&& after == (SimpleState { deltas: after.deltas, ..state })
            &&& after.deltas.len() == state.deltas.len()
            &&& after.deltas[i].x.bits == 0
            &&& after.deltas[i].y.bits == 0
        }),
        simple_glyph_spec::<Fixed, Fixed, Fixed>(
            Some(Some(glyph)),
            coords,
            points,
            contours,
            SimpleState { deltas, ..state },
        ) == simple_glyph_spec::<Fixed, Fixed, Fixed>(
            Some(Some(glyph)),
            coords,
            points,
            contours,
            state,
        ),
{
}

/// The buffers of a simple glyph are long enough if and only if there are four points or more and
/// the working buffer is no shorter.
pub proof fn law_four_points_at_least(point_count: nat, buffer_len: nat)
    ensures
        buffers_fit(point_count, buffer_len) <==> point_count >= 4 && buffer_len >= point_count,
{
}

/// After a sparse tuple that has an effect, the working buffer shows where each point went: the
/// delta of the point has changed by the distance of its place from its origin.
pub proof fn law_buffer_shows_where_points_went(
    points: Seq<Point<Fixed>>,
    contours: Seq<u16>,
    glyph: GlyphModel,
    n: int,
    coords: Seq<i16>,
    state: SimpleState<Fixed>,
    scalar: Fixed,
    i: int,
)
    requires
        0 <= n < glyph.tuples.len(),
        simple_deltas_spec::<Fixed, Fixed, Fixed>(points, contours, glyph, n, coords, state).ok,
        glyph.scalar_spec::<Fixed>(n, coords) == Some(scalar),
        !glyph.tuples[n].all_points,
        simple_deltas_spec::<Fixed, Fixed, Fixed>(points, contours, glyph, n + 1, coords, state).ok,
        0 <= i < points.len(),
        i < state.buffer.len(),
        i < state.deltas.len(),
    ensures
        ({
            let before = simple_deltas_spec::<Fixed, Fixed, Fixed>(
                points,
                contours,
                glyph,
                n,
                coords,
                state,
            );
            let after = simple_deltas_spec::<Fixed, Fixed, Fixed>(
                points,
                contours,
                glyph,
                n + 1,
                coords,
                state,
            );
            &&& after.deltas[i].x.bits == wrap(
                before.deltas[i].x.bits + after.buffer[i].x.bits - points[i].x.bits,
            )
            &&& after.deltas[i].y.bits == wrap(
                before.deltas[i].y.bits + after.buffer[i].y.bits - points[i].y.bits,
            )
        }),
{
    law_shape_is_kept::<Fixed, Fixed, Fixed>(points, contours, glyph, n, coords, state);
    let before = simple_deltas_spec::<Fixed, Fixed, Fixed>(
        points,
        contours,
        glyph,
        n,
        coords,
        state,
    );
    lemma_inferred_move(points, contours, glyph.tuples[n].deltas, scalar, before, i);
}

/// A sparse tuple leaves the deltas alone that are for no point, or for one without a place in the
/// working buffer.
pub proof fn law_deltas_without_points_stay(
    points: Seq<Point<Fixed>>,
    contours: Seq<u16>,
    glyph: GlyphModel,
    n: int,
    coords: Seq<i16>,
    state: SimpleState<Fixed>,
    scalar: Fixed,
    i: int,
)
    requires
        0 <= n < glyph.tuples.len(),
        simple_deltas_spec::<Fixed, Fixed, Fixed>(points, contours, glyph, n, coords, state).ok,
        glyph.scalar_spec::<Fixed>(n, coords) == Some(scalar),
        !glyph.tuples[n].all_points,
        simple_deltas_spec::<Fixed, Fixed, Fixed>(points, contours, glyph, n + 1, coords, state).ok,
        points.len() <= i || state.buffer.len() <= i,
        0 <= i < state.deltas.len(),
    ensures
        ({
            let before = simple_deltas_spec::<Fixed, Fixed, Fixed>(
                points,
                contours,
                glyph,
                n,
                coords,
                state,
            );
            let after = simple_deltas_spec::<Fixed, Fixed, Fixed>(
                points,
                contours,
                glyph,
                n + 1,
                coords,
                state,
            );
            after.deltas[i] == before.deltas[i]
        }),
{
    law_shape_is_kept::<Fixed, Fixed, Fixed>(points, contours, glyph, n, coords, state);
    let before = simple_deltas_spec::<Fixed, Fixed, Fixed>(
        points,
        contours,
        glyph,
        n,
        coords,
        state,
    );
    let explicit = glyph.tuples[n].deltas;
    let m = explicit.len() as int;
    let clean = prepared(points, before);
    let full = marked(clean, explicit, m, scalar);
    lemma_marked_shape(clean, explicit, m, scalar);
    lemma_inferred_len(points, full.flags, contours, 0, 0, full.buffer);
}

/// A point without flags goes by what the working buffer holds for it: no tuple sets or changes its
/// place.
pub proof fn law_points_without_flags_keep_their_places(
    points: Seq<Point<Fixed>>,
    contours: Seq<u16>,
    glyph: GlyphModel,
    n: int,
    coords: Seq<i16>,
    state: SimpleState<Fixed>,
    scalar: Fixed,
    i: int,
)
    requires
        0 <= n < glyph.tuples.len(),
        simple_deltas_spec::<Fixed, Fixed, Fixed>(points, contours, glyph, n, coords, state).ok,
        glyph.scalar_spec::<Fixed>(n, coords) == Some(scalar),
        !glyph.tuples[n].all_points,
        simple_deltas_spec::<Fixed, Fixed, Fixed>(points, contours, glyph, n + 1, coords, state).ok,
        state.flags.len() <= i,
        0 <= i < points.len(),
        i < state.buffer.len(),
        forall|k: int| 0 <= k < contours.len() ==> contours[k] < i,
    ensures
        ({
            let before = simple_deltas_spec::<Fixed, Fixed, Fixed>(
                points,
                contours,
                glyph,
                n,
                coords,
                state,
            );
            let after = simple_deltas_spec::<Fixed, Fixed, Fixed>(
                points,
                contours,
                glyph,
                n + 1,
                coords,
                state,
            );
            after.buffer[i] == before.buffer[i]
        }),
{
    law_shape_is_kept::<Fixed, Fixed, Fixed>(points, contours, glyph, n, coords, state);
    let before = simple_deltas_spec::<Fixed, Fixed, Fixed>(
        points,
        contours,
        glyph,
        n,
        coords,
        state,
    );
    let explicit = glyph.tuples[n].deltas;
    let m = explicit.len() as int;
    let clean = prepared(points, before);
    let full = marked(clean, explicit, m, scalar);
    lemma_marked_shape(clean, explicit, m, scalar);
    lemma_inferred_len(points, full.flags, contours, 0, 0, full.buffer);
    lemma_places_without_flags_stay(clean, explicit, m, scalar, i);
    law_points_beyond_contours_stay(points, full.flags, contours, full.buffer, i);
}

proof fn lemma_places_without_flags_stay(
    state: SimpleState<Fixed>,
    explicit: Seq<GlyphDelta>,
    n: int,
    scalar: Fixed,
    i: int,
)
    requires
        state.flags.len() <= i < state.buffer.len(),
    ensures
        marked(state, explicit, n, scalar).buffer[i] == state.buffer[i],
    decreases n,
{
    if n > 0 {
        lemma_places_without_flags_stay(state, explicit, n - 1, scalar, i);
        lemma_marked_shape(state, explicit, n - 1, scalar);
    }
}

/// A contour that ends no later than one before it has no points: leaving it out changes nothing.
pub proof fn law_contours_without_points_play_no_role<
    C: PointCoord,
    D: PointCoord + CoordFrom<C> + CoordFrom<S>,
    S: Scalar,
>(
    points: Seq<Point<C>>,
    contours: Seq<u16>,
    glyph: GlyphModel,
    n: int,
    coords: Seq<i16>,
    state: SimpleState<D>,
    j: int,
    k: int,
)
    requires
        0 <= j < k < contours.len(),
        contours[k] <= contours[j],
    ensures
        simple_deltas_spec::<C, D, S>(points, contours, glyph, n, coords, state)
            == simple_deltas_spec::<C, D, S>(points, contours.remove(k), glyph, n, coords, state),
    decreases n,
{
    if n > 0 {
        law_contours_without_points_play_no_role::<C, D, S>(
            points,
            contours,
            glyph,
            n - 1,
            coords,
            state,
            j,
            k,
        );
        let before = simple_deltas_spec::<C, D, S>(points, contours, glyph, n - 1, coords, state);
        if let Some(scalar) = glyph.scalar_spec::<S>(n - 1, coords) {
            let explicit = glyph.tuples[n - 1].deltas;
            let full = marked(
                prepared(points, before),
                explicit,
                explicit.len() as int,
                scalar,
            );
            law_contours_without_points_change_nothing(
                points,
                full.flags,
                contours,
                full.buffer,
                j,
                k,
            );
        }
    }
}

/// A sparse tuple that has an effect fails if and only if a contour ends at a point without flags,
/// provided that points with flags exist and have places in the working buffer.
pub proof fn law_incomplete_glyph_fails<
    C: PointCoord,
    D: PointCoord + CoordFrom<C> + CoordFrom<S>,
    S: Scalar,
>(
    points: Seq<Point<C>>,
    contours: Seq<u16>,
    glyph: GlyphModel,
    n: int,
    coords: Seq<i16>,
    state: SimpleState<D>,
)
    requires
        0 <= n < glyph.tuples.len(),
        simple_deltas_spec::<C, D, S>(points, contours, glyph, n, coords, state).ok,
        glyph.scalar_spec::<S>(n, coords) is Some,
        !glyph.tuples[n].all_points,
        state.flags.len() <= points.len(),
        state.flags.len() <= state.buffer.len(),
    ensures
        simple_deltas_spec::<C, D, S>(points, contours, glyph, n + 1, coords, state).ok
            <==> forall|k: int|
            0 <= k < contours.len() ==> (#[trigger] contours[k]) < state.flags.len(),
{
    law_shape_is_kept::<C, D, S>(points, contours, glyph, n, coords, state);
    let before = simple_deltas_spec::<C, D, S>(points, contours, glyph, n, coords, state);
    let scalar = glyph.scalar_spec::<S>(n, coords)->0;
    let explicit = glyph.tuples[n].deltas;
    let clean = prepared(points, before);
    let full = marked(clean, explicit, explicit.len() as int, scalar);
    lemma_marked_shape(clean, explicit, explicit.len() as int, scalar);
    law_inference_fails_for_missing_flags(points, full.flags, contours, full.buffer);
}

} // verus!
