//! What holds of delta computation as a whole.
use crate::coord::{point_from, point_minus, point_plus, CoordFrom, Point, PointCoord};
use crate::deltas::{
    accumulated, composite_deltas_spec, inferred, marked, prepared, scaled_delta_spec,
    simple_deltas_spec, sparse_applied, tuple_applied, SimpleState,
};
use crate::fixed::{law_displacement_survives, law_displacements_add_up, Fixed};
use crate::flags::{lemma_marker_bits, PointFlags, HAS_DELTA};
use crate::iup::{
    compares_by_value, contour_start, contours_ascend, first_mark, inference_ok, inferred_coord,
    inferred_points, is_marked, is_shift, last_mark, law_contours_are_independent,
    law_inference_succeeds, law_marked_points_stay, law_points_beyond_contours_stay,
    law_spare_room_plays_no_role, lemma_first_mark, lemma_inferred_len, lemma_last_mark,
    refs_place, shift_of,
};
use crate::tuple::{GlyphDelta, GlyphModel, Scalar, TupleModel};
use vstd::prelude::*;

verus! {

/// Where no tuple has an effect, nothing changes.
pub proof fn law_tuples_without_effect_change_nothing<
    C: PointCoord,
    D: PointCoord + CoordFrom<C> + CoordFrom<S>,
    S: Scalar,
>(
    points: Seq<Point<C>>,
    contours: Seq<u16>,
    glyph: GlyphModel,
    n: int,
    coords: Seq<i16>,
    state: SimpleState<D>,
)
    requires
        n <= glyph.tuples.len(),
        forall|k: int|
            0 <= k < glyph.tuples.len() ==> #[trigger] glyph.scalar_spec::<S>(k, coords) is None,
    ensures
        composite_deltas_spec::<D, S>(glyph, n, coords, state.deltas) == state.deltas,
        simple_deltas_spec::<C, D, S>(points, contours, glyph, n, coords, state) == state,
    decreases n,
{
    if n > 0 {
        law_tuples_without_effect_change_nothing::<C, D, S>(
            points,
            contours,
            glyph,
            n - 1,
            coords,
            state,
        );
        assert(glyph.scalar_spec::<S>(n - 1, coords) is None);
    }
}

/// If every tuple that has an effect has deltas for all points, a simple glyph gets the deltas
/// that a composite glyph would, its flags and the working buffer are not touched, and nothing
/// fails.
pub proof fn law_dense_tuples_need_no_inference<
    C: PointCoord,
    D: PointCoord + CoordFrom<C> + CoordFrom<S>,
    S: Scalar,
>(
    points: Seq<Point<C>>,
    contours: Seq<u16>,
    glyph: GlyphModel,
    n: int,
    coords: Seq<i16>,
    state: SimpleState<D>,
)
    requires
        state.ok,
        n <= glyph.tuples.len(),
        forall|k: int|
            0 <= k < glyph.tuples.len() && #[trigger] glyph.scalar_spec::<S>(k, coords) is Some
                ==> glyph.tuples[k].all_points,
    ensures
        simple_deltas_spec::<C, D, S>(points, contours, glyph, n, coords, state) == (SimpleState {
            deltas: composite_deltas_spec::<D, S>(glyph, n, coords, state.deltas),
            ..state
        }),
    decreases n,
{
    if n > 0 {
        law_dense_tuples_need_no_inference::<C, D, S>(
            points,
            contours,
            glyph,
            n - 1,
            coords,
            state,
        );
        assert(glyph.scalar_spec::<S>(n - 1, coords) is Some ==> glyph.tuples[n - 1].all_points);
    }
}

/// Whether two flags agree in everything but the delta marker.
pub open spec fn same_point(a: PointFlags, b: PointFlags) -> bool {
    a.bits & !HAS_DELTA == b.bits & !HAS_DELTA
}

/// Whether two states have the same sizes and, but for delta markers, the same flags.
pub open spec fn same_shape<D>(a: SimpleState<D>, b: SimpleState<D>) -> bool {
    &&& a.deltas.len() == b.deltas.len()
    &&& a.flags.len() == b.flags.len()
    &&& a.buffer.len() == b.buffer.len()
    &&& forall|i: int| 0 <= i < a.flags.len() ==> same_point(#[trigger] a.flags[i], b.flags[i])
}

/// Adding explicit deltas does not change the number of deltas.
pub proof fn lemma_accumulated_len<D: PointCoord + CoordFrom<S>, S>(
    deltas: Seq<Point<D>>,
    explicit: Seq<GlyphDelta>,
    n: int,
    scalar: S,
)
    ensures
        accumulated(deltas, explicit, n, scalar).len() == deltas.len(),
    decreases n,
{
    if n > 0 {
        lemma_accumulated_len(deltas, explicit, n - 1, scalar);
    }
}

proof fn lemma_prepared_shape<C: PointCoord, D: PointCoord + CoordFrom<C>>(
    points: Seq<Point<C>>,
    state: SimpleState<D>,
)
    ensures
        same_shape(prepared(points, state), state),
        prepared(points, state).deltas == state.deltas,
        prepared(points, state).ok == state.ok,
{
    assert forall|i: int| 0 <= i < state.flags.len() implies same_point(
        #[trigger] prepared(points, state).flags[i],
        state.flags[i],
    ) by {
        lemma_marker_bits(state.flags[i]);
    }
}

/// Adding explicit deltas to the working buffer keeps sizes and other flags.
pub proof fn lemma_marked_shape<D: PointCoord + CoordFrom<S>, S>(
    state: SimpleState<D>,
    explicit: Seq<GlyphDelta>,
    n: int,
    scalar: S,
)
    ensures
        same_shape(marked(state, explicit, n, scalar), state),
        marked(state, explicit, n, scalar).deltas == state.deltas,
        marked(state, explicit, n, scalar).ok == state.ok,
    decreases n,
{
    if n > 0 {
        lemma_marked_shape(state, explicit, n - 1, scalar);
        let before = marked(state, explicit, n - 1, scalar);
        let ix = explicit[n - 1].position as int;
        if ix < before.buffer.len() && ix < before.flags.len() {
            lemma_marker_bits(before.flags[ix]);
            let after = marked(state, explicit, n, scalar);
            assert forall|i: int| 0 <= i < state.flags.len() implies same_point(
                #[trigger] after.flags[i],
                state.flags[i],
            ) by {
                assert(same_point(before.flags[i], state.flags[i]));
            }
        }
    }
}

/// Computing deltas never changes the number of deltas, flags or places in the working buffer, nor
/// any flag but the delta marker.
pub proof fn law_shape_is_kept<
    C: PointCoord,
    D: PointCoord + CoordFrom<C> + CoordFrom<S>,
    S: Scalar,
>(
    points: Seq<Point<C>>,
    contours: Seq<u16>,
    glyph: GlyphModel,
    n: int,
    coords: Seq<i16>,
    state: SimpleState<D>,
)
    ensures
        same_shape(
            simple_deltas_spec::<C, D, S>(points, contours, glyph, n, coords, state),
            state,
        ),
    decreases n,
{
    if n > 0 {
        law_shape_is_kept::<C, D, S>(points, contours, glyph, n - 1, coords, state);
        let before = simple_deltas_spec::<C, D, S>(points, contours, glyph, n - 1, coords, state);
        if before.ok {
            lemma_tuple_keeps_shape(
                points,
                contours,
                glyph.tuples[n - 1],
                glyph.scalar_spec::<S>(n - 1, coords),
                before,
            );
            let after = simple_deltas_spec::<C, D, S>(points, contours, glyph, n, coords, state);
            assert forall|i: int| 0 <= i < state.flags.len() implies same_point(
                #[trigger] after.flags[i],
                state.flags[i],
            ) by {
                assert(same_point(before.flags[i], state.flags[i]));
            }
        }
    }
}

proof fn lemma_tuple_keeps_shape<
    C: PointCoord,
    D: PointCoord + CoordFrom<C> + CoordFrom<S>,
    S,
>(
    points: Seq<Point<C>>,
    contours: Seq<u16>,
    tuple: TupleModel,
    scalar: Option<S>,
    state: SimpleState<D>,
)
    ensures
        same_shape(tuple_applied(points, contours, tuple, scalar, state), state),
{
    if let Some(scalar) = scalar {
        let n = tuple.deltas.len() as int;
        lemma_accumulated_len(state.deltas, tuple.deltas, n, scalar);
        let clean = prepared(points, state);
        let full = marked(clean, tuple.deltas, n, scalar);
        lemma_prepared_shape(points, state);
        lemma_marked_shape(clean, tuple.deltas, n, scalar);
        lemma_inferred_len(points, full.flags, contours, 0, 0, full.buffer);
        assert forall|i: int| 0 <= i < state.flags.len() implies same_point(
            #[trigger] full.flags[i],
            state.flags[i],
        ) by {
            assert(same_point(clean.flags[i], state.flags[i]));
        }
    }
}

/// Computing the deltas of a glyph never fails if the points of all its contours exist and have
/// flags and places in the working buffer, whatever the tuples say.
pub proof fn law_complete_glyph_never_fails<
    C: PointCoord,
    D: PointCoord + CoordFrom<C> + CoordFrom<S>,
    S: Scalar,
>(
    points: Seq<Point<C>>,
    contours: Seq<u16>,
    glyph: GlyphModel,
    n: int,
    coords: Seq<i16>,
    state: SimpleState<D>,
)
    requires
        state.ok,
        forall|k: int|
            0 <= k < contours.len() ==> (#[trigger] contours[k]) < points.len() && contours[k]
                < state.flags.len() && contours[k] < state.buffer.len(),
    ensures
        simple_deltas_spec::<C, D, S>(points, contours, glyph, n, coords, state).ok,
    decreases n,
{
    if n > 0 {
        law_complete_glyph_never_fails::<C, D, S>(points, contours, glyph, n - 1, coords, state);
        law_shape_is_kept::<C, D, S>(points, contours, glyph, n - 1, coords, state);
        let before = simple_deltas_spec::<C, D, S>(points, contours, glyph, n - 1, coords, state);
        let tuple = glyph.tuples[n - 1];
        if let Some(scalar) = glyph.scalar_spec::<S>(n - 1, coords) {
            let clean = prepared(points, before);
            let full = marked(clean, tuple.deltas, tuple.deltas.len() as int, scalar);
            lemma_prepared_shape(points, before);
            lemma_marked_shape(clean, tuple.deltas, tuple.deltas.len() as int, scalar);
            law_inference_succeeds(points, full.flags, contours, full.buffer);
        }
    }
}

/// Whether two states differ only in delta markers and in what the working buffer holds.
pub open spec fn same_but_scratch<D>(a: SimpleState<D>, b: SimpleState<D>) -> bool {
    &&& a.deltas == b.deltas
    &&& a.ok == b.ok
    &&& a.flags.len() == b.flags.len()
    &&& forall|i: int| 0 <= i < a.flags.len() ==> same_point(#[trigger] a.flags[i], b.flags[i])
}

/// The working buffer and the delta markers are scratch space: if there are as many flags as
/// points and the buffer is long enough, what the two hold at the start has no influence on the
/// deltas or on success, nor does how long the buffer is.
pub proof fn law_buffer_is_scratch<
    C: PointCoord,
    D: PointCoord + CoordFrom<C> + CoordFrom<S>,
    S: Scalar,
>(
    points: Seq<Point<C>>,
    contours: Seq<u16>,
    glyph: GlyphModel,
    n: int,
    coords: Seq<i16>,
    a: SimpleState<D>,
    b: SimpleState<D>,
)
    requires
        same_but_scratch(a, b),
        a.flags.len() == points.len(),
        points.len() <= a.buffer.len(),
        points.len() <= b.buffer.len(),
    ensures
        same_but_scratch(
            simple_deltas_spec::<C, D, S>(points, contours, glyph, n, coords, a),
            simple_deltas_spec::<C, D, S>(points, contours, glyph, n, coords, b),
        ),
    decreases n,
{
    if n > 0 {
        law_buffer_is_scratch::<C, D, S>(points, contours, glyph, n - 1, coords, a, b);
        law_shape_is_kept::<C, D, S>(points, contours, glyph, n - 1, coords, a);
        law_shape_is_kept::<C, D, S>(points, contours, glyph, n - 1, coords, b);
        let a1 = simple_deltas_spec::<C, D, S>(points, contours, glyph, n - 1, coords, a);
        let b1 = simple_deltas_spec::<C, D, S>(points, contours, glyph, n - 1, coords, b);
        if a1.ok && !glyph.tuples[n - 1].all_points {
            if let Some(scalar) = glyph.scalar_spec::<S>(n - 1, coords) {
                lemma_sparse_ignores_scratch(
                    points,
                    contours,
                    glyph.tuples[n - 1].deltas,
                    scalar,
                    a1,
                    b1,
                );
            }
        }
    }
}

/// A sparse tuple does not see what the working buffer and the markers hold.
pub proof fn lemma_sparse_ignores_scratch<
    C: PointCoord,
    D: PointCoord + CoordFrom<C> + CoordFrom<S>,
    S,
>(
    points: Seq<Point<C>>,
    contours: Seq<u16>,
    explicit: Seq<GlyphDelta>,
    scalar: S,
    a: SimpleState<D>,
    b: SimpleState<D>,
)
    requires
        same_but_scratch(a, b),
        a.flags.len() == points.len(),
        points.len() <= a.buffer.len(),
        points.len() <= b.buffer.len(),
    ensures
        same_but_scratch(
            sparse_applied(points, contours, explicit, scalar, a),
            sparse_applied(points, contours, explicit, scalar, b),
        ),
{
    let n = explicit.len() as int;
    let clean_a = prepared(points, a);
    let clean_b = prepared(points, b);
    assert forall|i: int| 0 <= i < points.len() implies clean_a.flags[i] == clean_b.flags[i] by {
        assert(same_point(a.flags[i], b.flags[i]));
    }
    assert(clean_a.flags =~= clean_b.flags);
    lemma_marked_ignores_scratch(points.len(), clean_a, clean_b, explicit, n, scalar);
    let full_a = marked(clean_a, explicit, n, scalar);
    let full_b = marked(clean_b, explicit, n, scalar);
    lemma_marked_shape(clean_a, explicit, n, scalar);
    lemma_marked_shape(clean_b, explicit, n, scalar);
    law_spare_room_plays_no_role(points, full_a.flags, contours, full_a.buffer, full_b.buffer);
    lemma_inferred_len(points, full_a.flags, contours, 0, 0, full_a.buffer);
    lemma_inferred_len(points, full_b.flags, contours, 0, 0, full_b.buffer);
    assert(inferred(points, contours, full_a).deltas =~= inferred(points, contours, full_b).deltas);
}

proof fn lemma_marked_ignores_scratch<D: PointCoord + CoordFrom<S>, S>(
    len: nat,
    a: SimpleState<D>,
    b: SimpleState<D>,
    explicit: Seq<GlyphDelta>,
    n: int,
    scalar: S,
)
    requires
        a.flags == b.flags,
        a.flags.len() == len,
        len <= a.buffer.len(),
        len <= b.buffer.len(),
        forall|i: int| 0 <= i < len ==> a.buffer[i] == b.buffer[i],
    ensures
        marked(a, explicit, n, scalar).flags == marked(b, explicit, n, scalar).flags,
        forall|i: int|
            0 <= i < len ==> #[trigger] marked(a, explicit, n, scalar).buffer[i] == marked(
                b,
                explicit,
                n,
                scalar,
            ).buffer[i],
    decreases n,
{
    if n > 0 {
        lemma_marked_ignores_scratch(len, a, b, explicit, n - 1, scalar);
        lemma_marked_shape(a, explicit, n - 1, scalar);
        lemma_marked_shape(b, explicit, n - 1, scalar);
    }
}

/// Whether a list of explicit deltas has one for point `p`.
pub open spec fn has_explicit(explicit: Seq<GlyphDelta>, n: int, p: int) -> bool {
    exists|j: int| 0 <= j < n && (#[trigger] explicit[j]).position == p
}

/// The marked points of a tuple are those that it has explicit deltas for.
pub proof fn lemma_marks<D: PointCoord + CoordFrom<S>, S>(
    state: SimpleState<D>,
    explicit: Seq<GlyphDelta>,
    n: int,
    scalar: S,
    p: int,
)
    requires
        0 <= n <= explicit.len(),
        0 <= p < state.flags.len(),
        p < state.buffer.len(),
        !is_marked(state.flags, p),
    ensures
        is_marked(marked(state, explicit, n, scalar).flags, p) <==> has_explicit(explicit, n, p),
        !has_explicit(explicit, n, p) ==> marked(state, explicit, n, scalar).buffer[p]
            == state.buffer[p],
    decreases n,
{
    if n > 0 {
        lemma_marks(state, explicit, n - 1, scalar, p);
        lemma_marked_shape(state, explicit, n - 1, scalar);
        let before = marked(state, explicit, n - 1, scalar);
        if explicit[n - 1].position == p {
            lemma_marker_bits(before.flags[p]);
            assert(has_explicit(explicit, n, p));
        } else if has_explicit(explicit, n - 1, p) {
            let j = choose|j: int| 0 <= j < n - 1 && (#[trigger] explicit[j]).position == p;
            assert(explicit[j].position == p);
            assert(has_explicit(explicit, n, p));
        }
    }
}

/// The displacement of a point in the working buffer, added to what the point had before, is what
/// adding the explicit deltas directly gives.
pub proof fn lemma_explicit_sum<S>(
    state: SimpleState<Fixed>,
    base: Seq<Point<Fixed>>,
    origin: Point<Fixed>,
    explicit: Seq<GlyphDelta>,
    n: int,
    scalar: S,
    p: int,
) where Fixed: CoordFrom<S>
    requires
        0 <= n <= explicit.len(),
        0 <= p < state.flags.len(),
        p < state.buffer.len(),
        p < base.len(),
        state.buffer[p] == origin,
    ensures
        accumulated(base, explicit, n, scalar)[p] == point_plus(
            base[p],
            point_minus(marked(state, explicit, n, scalar).buffer[p], origin),
        ),
    decreases n,
{
    if n > 0 {
        lemma_explicit_sum(state, base, origin, explicit, n - 1, scalar, p);
        lemma_marked_shape(state, explicit, n - 1, scalar);
        lemma_accumulated_len(base, explicit, n - 1, scalar);
        let target = marked(state, explicit, n - 1, scalar).buffer[p];
        let d = scaled_delta_spec::<Fixed, S>(explicit[n - 1], scalar);
        law_displacements_add_up(base[p].x, target.x, origin.x, d.x);
        law_displacements_add_up(base[p].y, target.y, origin.y, d.y);
    } else {
        law_displacements_add_up(base[p].x, origin.x, origin.x, Fixed { bits: 0 });
        law_displacements_add_up(base[p].y, origin.y, origin.y, Fixed { bits: 0 });
    }
}

/// In fixed point, a sparse tuple does to a point that it has explicit deltas for, or that lies
/// beyond the contours, such as a phantom point, what a dense one would: the deltas arrive
/// unchanged.
pub proof fn law_explicit_deltas_arrive<C: PointCoord, S>(
    points: Seq<Point<C>>,
    contours: Seq<u16>,
    explicit: Seq<GlyphDelta>,
    scalar: S,
    state: SimpleState<Fixed>,
    p: int,
) where Fixed: CoordFrom<C> + CoordFrom<S>
    requires
        sparse_applied(points, contours, explicit, scalar, state).ok,
        0 <= p < points.len(),
        p < state.flags.len(),
        p < state.buffer.len(),
        p < state.deltas.len(),
        has_explicit(explicit, explicit.len() as int, p) || forall|k: int|
            0 <= k < contours.len() ==> contours[k] < p,
    ensures
        sparse_applied(points, contours, explicit, scalar, state).deltas[p] == accumulated(
            state.deltas,
            explicit,
            explicit.len() as int,
            scalar,
        )[p],
{
    let n = explicit.len() as int;
    let clean = prepared(points, state);
    let full = marked(clean, explicit, n, scalar);
    lemma_marker_bits(state.flags[p]);
    lemma_marked_shape(clean, explicit, n, scalar);
    lemma_marks(clean, explicit, n, scalar, p);
    lemma_explicit_sum(clean, state.deltas, point_from(points[p]), explicit, n, scalar, p);
    if has_explicit(explicit, n, p) {
        law_marked_points_stay(points, full.flags, contours, full.buffer, p);
    } else {
        law_points_beyond_contours_stay(points, full.flags, contours, full.buffer, p);
    }
}

/// In fixed point, a sparse tuple leaves the points of a contour alone if it has explicit deltas
/// for none of them.
pub proof fn law_contour_without_explicit_deltas_stays<C: PointCoord, S>(
    points: Seq<Point<C>>,
    contours: Seq<u16>,
    explicit: Seq<GlyphDelta>,
    scalar: S,
    state: SimpleState<Fixed>,
    k: int,
    i: int,
) where Fixed: CoordFrom<C> + CoordFrom<S>
    requires
        contours_ascend(contours),
        sparse_applied(points, contours, explicit, scalar, state).ok,
        0 <= k < contours.len(),
        contour_start(contours, k) <= i <= contours[k],
        contours[k] < points.len(),
        contours[k] < state.flags.len(),
        contours[k] < state.buffer.len(),
        i < state.deltas.len(),
        forall|j: int|
            contour_start(contours, k) <= j <= contours[k] ==> !has_explicit(
                explicit,
                explicit.len() as int,
                j,
            ),
    ensures
        sparse_applied(points, contours, explicit, scalar, state).deltas[i] == state.deltas[i],
{
    let n = explicit.len() as int;
    let first = contour_start(contours, k);
    let end = contours[k] as int;
    let clean = prepared(points, state);
    let full = marked(clean, explicit, n, scalar);
    lemma_marked_shape(clean, explicit, n, scalar);
    assert forall|j: int| first <= j <= end implies !is_marked(full.flags, j) && full.buffer[j]
        == point_from::<C, Fixed>(points[j]) by {
        lemma_marker_bits(state.flags[j]);
        lemma_marks(clean, explicit, n, scalar, j);
    }
    law_contours_are_independent(points, full.flags, contours, full.buffer, k, i);
    lemma_first_mark(full.flags, first, end);
    lemma_inferred_len(points, full.flags, contours, 0, 0, full.buffer);
}

/// In fixed point, a sparse tuple moves all points of a contour by the same amount if it has
/// explicit deltas for one of them only.
pub proof fn law_contour_follows_its_only_delta<C: PointCoord, S>(
    points: Seq<Point<C>>,
    contours: Seq<u16>,
    explicit: Seq<GlyphDelta>,
    scalar: S,
    state: SimpleState<Fixed>,
    k: int,
    r: int,
    i: int,
) where Fixed: CoordFrom<C> + CoordFrom<S>
    requires
        contours_ascend(contours),
        sparse_applied(points, contours, explicit, scalar, state).ok,
        0 <= k < contours.len(),
        contour_start(contours, k) <= i <= contours[k],
        contour_start(contours, k) <= r <= contours[k],
        contours[k] < points.len(),
        contours[k] < state.flags.len(),
        contours[k] < state.buffer.len(),
        contours[k] < state.deltas.len(),
        forall|j: int|
            contour_start(contours, k) <= j <= contours[k] ==> (has_explicit(
                explicit,
                explicit.len() as int,
                j,
            ) <==> j == r),
    ensures
        ({
            let after = sparse_applied(points, contours, explicit, scalar, state).deltas;
            point_minus(after[i], state.deltas[i]) == point_minus(after[r], state.deltas[r])
        }),
{
    let n = explicit.len() as int;
    let first = contour_start(contours, k);
    let end = contours[k] as int;
    let clean = prepared(points, state);
    let full = marked(clean, explicit, n, scalar);
    lemma_marked_shape(clean, explicit, n, scalar);
    assert forall|j: int| first <= j <= end implies (is_marked(full.flags, j) <==> j == r) && (j
        != r ==> full.buffer[j] == point_from::<C, Fixed>(points[j])) by {
        lemma_marker_bits(state.flags[j]);
        lemma_marks(clean, explicit, n, scalar, j);
    }
    lemma_inferred_len(points, full.flags, contours, 0, 0, full.buffer);
    lemma_only_mark_moves_contour(points, full.flags, contours, full.buffer, k, r, i);
    lemma_only_mark_moves_contour(points, full.flags, contours, full.buffer, k, r, r);
    let shift = shift_of(points, full.buffer, r);
    law_displacement_survives(state.deltas[i].x, shift.x);
    law_displacement_survives(state.deltas[i].y, shift.y);
    law_displacement_survives(state.deltas[r].x, shift.x);
    law_displacement_survives(state.deltas[r].y, shift.y);
}

proof fn lemma_only_mark_moves_contour<C: PointCoord>(
    points: Seq<Point<C>>,
    flags: Seq<PointFlags>,
    contours: Seq<u16>,
    out: Seq<Point<Fixed>>,
    k: int,
    r: int,
    i: int,
) where Fixed: CoordFrom<C>
    requires
        contours_ascend(contours),
        inference_ok(points, flags, contours, out),
        0 <= k < contours.len(),
        contour_start(contours, k) <= i <= contours[k],
        contour_start(contours, k) <= r <= contours[k],
        contours[k] < points.len(),
        contours[k] < flags.len(),
        contours[k] < out.len(),
        forall|j: int|
            contour_start(contours, k) <= j <= contours[k] ==> (is_marked(flags, j) <==> j == r)
                && (j != r ==> out[j] == point_from::<C, Fixed>(points[j])),
    ensures
        point_minus(inferred_points(points, flags, contours, out)[i], point_from(points[i]))
            == shift_of(points, out, r),
{
    let first = contour_start(contours, k);
    let end = contours[k] as int;
    law_contours_are_independent(points, flags, contours, out, k, i);
    lemma_first_mark(flags, first, end);
    lemma_last_mark(flags, first, end);
    assert(is_marked(flags, r));
    assert(first_mark(flags, first, end) == r);
    assert(last_mark(flags, first, end) == r);
    let shift = shift_of(points, out, r);
    if i != r {
        assert(!is_marked(flags, i));
        law_displacement_survives(out[i].x, shift.x);
        law_displacement_survives(out[i].y, shift.y);
        if !is_shift(shift) {
            law_displacement_survives(out[i].x, Fixed { bits: 0 });
            law_displacement_survives(out[i].y, Fixed { bits: 0 });
        }
    }
}

/// In fixed point, a point that shares a coordinate with one of its references goes where the
/// reference goes in that coordinate.
pub proof fn law_coinciding_points_move_together(
    original: Fixed,
    in1: Fixed,
    in2: Fixed,
    out1: Fixed,
    out2: Fixed,
    current: Fixed,
)
    requires
        refs_place(in1, in2, out1, out2),
    ensures
        original == in1 ==> inferred_coord(original, in1, in2, out1, out2, current) == out1,
        original == in2 ==> inferred_coord(original, in1, in2, out1, out2, current) == out2,
{
    law_displacement_survives(in1, out1);
    law_displacement_survives(in2, out2);
}

/// Fixed point numbers compare by value, so that references can come in any order.
pub proof fn law_fixed_point_compares_by_value()
    ensures
        compares_by_value::<Fixed>(),
{
}

} // verus!
