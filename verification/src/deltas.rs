//! Deltas for the points of simple glyphs and the component offsets of composite glyphs.
use crate::coord::{point_from, point_minus, point_plus, point_zero, CoordFrom, Point, PointCoord};
use crate::error::ReadError;
use crate::flags::PointFlags;
use crate::gvar::{glyph_data, view_data_found, Gvar};
use crate::iup::{inference_ok, inferred_points, interpolate_deltas};
use crate::tuple::{GlyphDelta, GlyphModel, GlyphVariationData, Scalar, TupleModel};
use vstd::prelude::*;

verus! {

/// The number of phantom points that follow the points of every glyph.
pub const PHANTOM_POINT_COUNT: usize = 4;

/// A glyph whose outline is made of contours.
pub struct SimpleGlyph<'a, C: PointCoord> {
    /// The points of the outline, followed by the phantom points.
    pub points: &'a [Point<C>],
    /// The flags of the points. The delta markers are overwritten.
    pub flags: &'a mut [PointFlags],
    /// The last point of each contour.
    pub contours: &'a [u16],
}

/// An explicit delta, scaled.
pub open spec fn scaled_delta_spec<D: PointCoord + CoordFrom<S>, S>(
    delta: GlyphDelta,
    scalar: S,
) -> Point<D> {
    Point {
        x: D::from_i32_spec(delta.x_delta).times_spec(D::coord_from_spec(scalar)),
        y: D::from_i32_spec(delta.y_delta).times_spec(D::coord_from_spec(scalar)),
    }
}

/// As many zero displacements as `len` says.
pub open spec fn zero_deltas<D: PointCoord>(len: nat) -> Seq<Point<D>> {
    Seq::new(len, |i: int| point_zero::<D>())
}

/// `deltas` with the first `n` explicit deltas added, scaled, each at its position. Deltas for
/// positions that do not exist are passed over.
pub open spec fn accumulated<D: PointCoord + CoordFrom<S>, S>(
    deltas: Seq<Point<D>>,
    explicit: Seq<GlyphDelta>,
    n: int,
    scalar: S,
) -> Seq<Point<D>>
    decreases n,
{
    if n <= 0 {
        deltas
    } else {
        let before = accumulated(deltas, explicit, n - 1, scalar);
        let ix = explicit[n - 1].position as int;
        if ix < before.len() {
            before.update(ix, point_plus(before[ix], scaled_delta_spec(explicit[n - 1], scalar)))
        } else {
            before
        }
    }
}

/// `deltas` with everything added that the first `n` tuples say, taking each at its word: points
/// without an explicit delta get none.
pub open spec fn composite_deltas_spec<D: PointCoord + CoordFrom<S>, S: Scalar>(
    glyph: GlyphModel,
    n: int,
    coords: Seq<i16>,
    deltas: Seq<Point<D>>,
) -> Seq<Point<D>>
    decreases n,
{
    if n <= 0 {
        deltas
    } else {
        let before = composite_deltas_spec::<D, S>(glyph, n - 1, coords, deltas);
        let explicit = glyph.tuples[n - 1].deltas;
        match glyph.scalar_spec::<S>(n - 1, coords) {
            Some(scalar) => accumulated(before, explicit, explicit.len() as int, scalar),
            None => before,
        }
    }
}

/// The deltas of a composite glyph with `len` components and phantom points, given what was found
/// in the `gvar` table.
pub open spec fn composite_glyph_spec<D: PointCoord + CoordFrom<S>, S: Scalar>(
    found: Option<Option<GlyphModel>>,
    coords: Seq<i16>,
    len: nat,
) -> Seq<Point<D>> {
    match found {
        Some(Some(glyph)) => composite_deltas_spec::<D, S>(
            glyph,
            glyph.tuples.len() as int,
            coords,
            zero_deltas(len),
        ),
        _ => zero_deltas(len),
    }
}

/// Scales an explicit delta.
fn scaled_delta<D: PointCoord + CoordFrom<S>, S: Copy>(delta: GlyphDelta, scalar: S) -> (r: Point<
    D,
>)
    ensures
        r == scaled_delta_spec::<D, S>(delta, scalar),
{
    let scalar = D::coord_from(scalar);
    Point {
        x: D::from_i32(delta.x_delta).times(scalar),
        y: D::from_i32(delta.y_delta).times(scalar),
    }
}

/// Adds the explicit deltas of a tuple, each scaled by `scalar`.
fn accumulate_dense_deltas<D: PointCoord + CoordFrom<S>, S: Copy>(
    explicit: &Vec<GlyphDelta>,
    deltas: &mut [Point<D>],
    scalar: S,
)
    ensures
        final(deltas)@ == accumulated(
            old(deltas)@,
            explicit@,
            explicit@.len() as int,
            scalar,
        ),
        final(deltas)@.len() == old(deltas)@.len(),
{
    let mut i: usize = 0;
    while i < explicit.len()
        invariant
            i <= explicit@.len(),
            deltas@ == accumulated(old(deltas)@, explicit@, i as int, scalar),
            deltas@.len() == old(deltas)@.len(),
        decreases explicit@.len() - i,
    {
        let ix = explicit[i].position as usize;
        if ix < deltas.len() {
            deltas[ix] = deltas[ix].plus(scaled_delta(explicit[i], scalar));
        }
        i += 1;
    }
}

/// Sets all deltas to zero.
fn clear<D: PointCoord>(deltas: &mut [Point<D>])
    ensures
        final(deltas)@ =~= zero_deltas::<D>(old(deltas)@.len()),
{
    let mut i: usize = 0;
    while i < deltas.len()
        invariant
            i <= deltas@.len(),
            deltas@.len() == old(deltas)@.len(),
            forall|j: int| 0 <= j < i ==> deltas@[j] == point_zero::<D>(),
        decreases deltas@.len() - i,
    {
        deltas[i] = Point::zero();
        i += 1;
    }
}

/// Adds to `deltas` what the tuples say about the component offsets of a composite glyph at the
/// location `coords`.
pub fn composite_deltas<D: PointCoord + CoordFrom<S>, S: Scalar>(
    data: &GlyphVariationData,
    coords: &[i16],
    deltas: &mut [Point<D>],
)
    ensures
        final(deltas)@ == composite_deltas_spec::<D, S>(
            data@,
            data.tuples@.len() as int,
            coords@,
            old(deltas)@,
        ),
        final(deltas)@.len() == old(deltas)@.len(),
{
    let mut i: usize = 0;
    while i < data.tuples.len()
        invariant
            i <= data.tuples@.len(),
            deltas@ == composite_deltas_spec::<D, S>(
                data@,
                i as int,
                coords@,
                old(deltas)@,
            ),
            deltas@.len() == old(deltas)@.len(),
        decreases data.tuples@.len() - i,
    {
        assert(data@.tuples[i as int] == data.tuples@[i as int]@);
        if let Some(scalar) = data.scalar::<S>(i, coords) {
            accumulate_dense_deltas(&data.tuples[i].deltas, deltas, scalar);
        }
        i += 1;
    }
}

/// Computes a set of deltas for the component offsets of a composite glyph from what was found in
/// the `gvar` table.
pub fn composite_glyph_from<D: PointCoord + CoordFrom<S>, S: Scalar>(
    found: &Option<Option<GlyphVariationData>>,
    coords: &[i16],
    deltas: &mut [Point<D>],
)
    ensures
        final(deltas)@ == composite_glyph_spec::<D, S>(
            view_data_found(*found),
            coords@,
            old(deltas)@.len(),
        ),
{
    clear(deltas);
    if let Some(Some(data)) = found {
        composite_deltas::<D, S>(data, coords, deltas);
    }
}

/// Computes a set of deltas for the component offsets of a composite glyph.
///
/// Interpolation is meaningless for component offsets, so only explicit deltas count. Missing or
/// unreadable variation data is not an error: the deltas are then zero.
pub fn composite_glyph<D: PointCoord + CoordFrom<S>, S: Scalar>(
    gvar: &Gvar,
    glyph_id: u32,
    coords: &[i16],
    deltas: &mut [Point<D>],
) -> (r: Result<(), ReadError>)
    ensures
        r is Ok,
        final(deltas)@ == composite_glyph_spec::<D, S>(
            glyph_data(gvar@, glyph_id, coords@),
            coords@,
            old(deltas)@.len(),
        ),
{
    composite_glyph_from::<D, S>(&gvar.glyph_variation_data(glyph_id, coords), coords, deltas);
    Ok(())
}

/// What computing the deltas of a simple glyph works on.
#[verifier::ext_equal]
pub struct SimpleState<D> {
    /// The deltas so far.
    pub deltas: Seq<Point<D>>,
    /// The flags of the points.
    pub flags: Seq<PointFlags>,
    /// The working buffer.
    pub buffer: Seq<Point<D>>,
    /// Whether nothing has failed yet.
    pub ok: bool,
}

/// The state with the markers of the points cleared and the working buffer set to their original
/// positions, for as many points as there are points, flags and places in the buffer.
pub open spec fn prepared<C: PointCoord, D: PointCoord + CoordFrom<C>>(
    points: Seq<Point<C>>,
    state: SimpleState<D>,
) -> SimpleState<D> {
    SimpleState {
        flags: Seq::new(
            state.flags.len(),
            |i: int|
                if i < points.len() && i < state.buffer.len() {
                    state.flags[i].without_delta_spec()
                } else {
                    state.flags[i]
                },
        ),
        buffer: Seq::new(
            state.buffer.len(),
            |i: int|
                if i < points.len() && i < state.flags.len() {
                    point_from(points[i])
                } else {
                    state.buffer[i]
                },
        ),
        ..state
    }
}

/// The state with the first `n` explicit deltas added to the working buffer, scaled, and their
/// points marked. Deltas for points without flags or without a place in the buffer are passed
/// over.
pub open spec fn marked<D: PointCoord + CoordFrom<S>, S>(
    state: SimpleState<D>,
    explicit: Seq<GlyphDelta>,
    n: int,
    scalar: S,
) -> SimpleState<D>
    decreases n,
{
    if n <= 0 {
        state
    } else {
        let before = marked(state, explicit, n - 1, scalar);
        let ix = explicit[n - 1].position as int;
        if ix < before.buffer.len() && ix < before.flags.len() {
            SimpleState {
                flags: before.flags.update(ix, before.flags[ix].with_delta_spec()),
                buffer: before.buffer.update(
                    ix,
                    point_plus(before.buffer[ix], scaled_delta_spec(explicit[n - 1], scalar)),
                ),
                ..before
            }
        } else {
            before
        }
    }
}

/// The state with the rest of the working buffer inferred from its marked points and, if that
/// succeeds, the distance of every point from its original position added to the deltas.
pub open spec fn inferred<C: PointCoord, D: PointCoord + CoordFrom<C>>(
    points: Seq<Point<C>>,
    contours: Seq<u16>,
    state: SimpleState<D>,
) -> SimpleState<D> {
    let buffer = inferred_points(points, state.flags, contours, state.buffer);
    if inference_ok(points, state.flags, contours, state.buffer) {
        SimpleState {
            deltas: Seq::new(
                state.deltas.len(),
                |i: int|
                    if i < points.len() && i < buffer.len() {
                        point_plus(state.deltas[i], point_minus(buffer[i], point_from(points[i])))
                    } else {
                        state.deltas[i]
                    },
            ),
            buffer,
            ..state
        }
    } else {
        SimpleState { buffer, ok: false, ..state }
    }
}

/// The state after a tuple that lacks deltas for some points has been applied.
pub open spec fn sparse_applied<
    C: PointCoord,
    D: PointCoord + CoordFrom<C> + CoordFrom<S>,
    S,
>(
    points: Seq<Point<C>>,
    contours: Seq<u16>,
    explicit: Seq<GlyphDelta>,
    scalar: S,
    state: SimpleState<D>,
) -> SimpleState<D> {
    inferred(
        points,
        contours,
        marked(prepared(points, state), explicit, explicit.len() as int, scalar),
    )
}

/// The state after a tuple has been applied with the factor `scalar`, if it has an effect.
pub open spec fn tuple_applied<
    C: PointCoord,
    D: PointCoord + CoordFrom<C> + CoordFrom<S>,
    S,
>(
    points: Seq<Point<C>>,
    contours: Seq<u16>,
    tuple: TupleModel,
    scalar: Option<S>,
    state: SimpleState<D>,
) -> SimpleState<D> {
    match scalar {
        Some(scalar) => if tuple.all_points {
            SimpleState {
                deltas: accumulated(
                    state.deltas,
                    tuple.deltas,
                    tuple.deltas.len() as int,
                    scalar,
                ),
                ..state
            }
        } else {
            sparse_applied(points, contours, tuple.deltas, scalar, state)
        },
        None => state,
    }
}

/// The state after the first `n` tuples have been applied in order, stopping at the first that
/// fails.
pub open spec fn simple_deltas_spec<
    C: PointCoord,
    D: PointCoord + CoordFrom<C> + CoordFrom<S>,
    S: Scalar,
>(
    points: Seq<Point<C>>,
    contours: Seq<u16>,
    glyph: GlyphModel,
    n: int,
    coords: Seq<i16>,
    state: SimpleState<D>,
) -> SimpleState<D>
    decreases n,
{
    if n <= 0 {
        state
    } else {
        let before = simple_deltas_spec::<C, D, S>(points, contours, glyph, n - 1, coords, state);
        if before.ok {
            tuple_applied(
                points,
                contours,
                glyph.tuples[n - 1],
                glyph.scalar_spec::<S>(n - 1, coords),
                before,
            )
        } else {
            before
        }
    }
}

/// Applies a tuple that lacks deltas for some points of a simple glyph, inferring those.
///
/// Fails if a contour refers to points that do not exist.
fn apply_sparse_deltas<C: PointCoord, D: PointCoord + CoordFrom<C> + CoordFrom<S>, S: Copy>(
    points: &[Point<C>],
    flags: &mut [PointFlags],
    contours: &[u16],
    iup_buffer: &mut [Point<D>],
    deltas: &mut [Point<D>],
    explicit: &Vec<GlyphDelta>,
    scalar: S,
) -> (r: Result<(), ReadError>)
    ensures
        ({
            let before = SimpleState {
                deltas: old(deltas)@,
                flags: old(flags)@,
                buffer: old(iup_buffer)@,
                ok: true,
            };
            let after = sparse_applied(points@, contours@, explicit@, scalar, before);
            &&& r == if after.ok {
                Ok::<(), ReadError>(())
            } else {
                Err(ReadError::OutOfBounds)
            }
            &&& final(deltas)@ == after.deltas
            &&& final(flags)@ == after.flags
            &&& final(iup_buffer)@ == after.buffer
        }),
{
    let ghost before = SimpleState {
        deltas: old(deltas)@,
        flags: old(flags)@,
        buffer: old(iup_buffer)@,
        ok: true,
    };
    let mut i: usize = 0;
    while i < flags.len() && i < points.len() && i < iup_buffer.len()
        invariant
            before.flags == old(flags)@,
            before.buffer == old(iup_buffer)@,
            flags@.len() == before.flags.len(),
            iup_buffer@.len() == before.buffer.len(),
            i <= flags@.len(),
            i <= points@.len(),
            i <= iup_buffer@.len(),
            forall|j: int|
                0 <= j < flags@.len() ==> flags@[j] == if j < i {
                    before.flags[j].without_delta_spec()
                } else {
                    before.flags[j]
                },
            forall|j: int|
                0 <= j < iup_buffer@.len() ==> iup_buffer@[j] == if j < i {
                    point_from(points@[j])
                } else {
                    before.buffer[j]
                },
        decreases flags@.len() - i,
    {
        iup_buffer[i] = Point::converted(points[i]);
        flags[i] = flags[i].without_delta();
        i += 1;
    }
    let ghost clean = prepared(points@, before);
    assert(flags@ =~= clean.flags);
    assert(iup_buffer@ =~= clean.buffer);
    i = 0;
    while i < explicit.len()
        invariant
            i <= explicit@.len(),
            flags@ == marked(clean, explicit@, i as int, scalar).flags,
            iup_buffer@ == marked(clean, explicit@, i as int, scalar).buffer,
            marked(clean, explicit@, i as int, scalar).deltas == clean.deltas,
            marked(clean, explicit@, i as int, scalar).ok == clean.ok,
        decreases explicit@.len() - i,
    {
        let ix = explicit[i].position as usize;
        if ix < iup_buffer.len() && ix < flags.len() {
            iup_buffer[ix] = iup_buffer[ix].plus(scaled_delta(explicit[i], scalar));
            flags[ix] = flags[ix].with_delta();
        }
        i += 1;
    }
    let ghost full = marked(clean, explicit@, explicit@.len() as int, scalar);
    if interpolate_deltas(points, flags, contours, iup_buffer).is_none() {
        return Err(ReadError::OutOfBounds);
    }
    i = 0;
    while i < deltas.len() && i < points.len() && i < iup_buffer.len()
        invariant
            before.deltas == old(deltas)@,
            deltas@.len() == before.deltas.len(),
            i <= deltas@.len(),
            i <= points@.len(),
            i <= iup_buffer@.len(),
            forall|j: int|
                0 <= j < deltas@.len() ==> deltas@[j] == if j < i {
                    point_plus(
                        before.deltas[j],
                        point_minus(iup_buffer@[j], point_from(points@[j])),
                    )
                } else {
                    before.deltas[j]
                },
        decreases deltas@.len() - i,
    {
        deltas[i] = deltas[i].plus(iup_buffer[i].minus(Point::converted(points[i])));
        i += 1;
    }
    assert(deltas@ =~= inferred(points@, contours@, full).deltas);
    Ok(())
}

/// Adds to `deltas` what the tuples say about the points of a simple glyph at the location
/// `coords`, inferring the deltas that tuples leave out.
///
/// Fails at the first tuple for which a contour refers to points that do not exist. What the
/// tuples before it say has then been added.
pub fn simple_deltas<C: PointCoord, D: PointCoord + CoordFrom<C> + CoordFrom<S>, S: Scalar>(
    data: &GlyphVariationData,
    coords: &[i16],
    points: &[Point<C>],
    flags: &mut [PointFlags],
    contours: &[u16],
    iup_buffer: &mut [Point<D>],
    deltas: &mut [Point<D>],
) -> (r: Result<(), ReadError>)
    ensures
        ({
            let before = SimpleState {
                deltas: old(deltas)@,
                flags: old(flags)@,
                buffer: old(iup_buffer)@,
                ok: true,
            };
            let after = simple_deltas_spec::<C, D, S>(
                points@,
                contours@,
                data@,
                data.tuples@.len() as int,
                coords@,
                before,
            );
            &&& r == if after.ok {
                Ok::<(), ReadError>(())
            } else {
                Err(ReadError::OutOfBounds)
            }
            &&& final(deltas)@ == after.deltas
            &&& final(flags)@ == after.flags
            &&& final(iup_buffer)@ == after.buffer
        }),
{
    let ghost before = SimpleState {
        deltas: old(deltas)@,
        flags: old(flags)@,
        buffer: old(iup_buffer)@,
        ok: true,
    };
    let mut i: usize = 0;
    while i < data.tuples.len()
        invariant
            i <= data.tuples@.len(),
            before == (SimpleState {
                deltas: old(deltas)@,
                flags: old(flags)@,
                buffer: old(iup_buffer)@,
                ok: true,
            }),
            (SimpleState {
                deltas: deltas@,
                flags: flags@,
                buffer: iup_buffer@,
                ok: true,
            }) == simple_deltas_spec::<C, D, S>(
                points@,
                contours@,
                data@,
                i as int,
                coords@,
                before,
            ),
        decreases data.tuples@.len() - i,
    {
        assert(data@.tuples[i as int] == data.tuples@[i as int]@);
        if let Some(scalar) = data.scalar::<S>(i, coords) {
            if data.tuples[i].all_points {
                accumulate_dense_deltas(&data.tuples[i].deltas, deltas, scalar);
            } else {
                let applied = apply_sparse_deltas(
                    points,
                    flags,
                    contours,
                    iup_buffer,
                    deltas,
                    &data.tuples[i].deltas,
                    scalar,
                );
                if applied.is_err() {
                    proof {
                        lemma_failure_is_final::<C, D, S>(
                            points@,
                            contours@,
                            data@,
                            i + 1,
                            data.tuples@.len() as int,
                            coords@,
                            before,
                        );
                    }
                    return Err(ReadError::OutOfBounds);
                }
            }
        }
        i += 1;
    }
    Ok(())
}

/// Once a tuple has failed, the tuples after it change nothing.
proof fn lemma_failure_is_final<
    C: PointCoord,
    D: PointCoord + CoordFrom<C> + CoordFrom<S>,
    S: Scalar,
>(
    points: Seq<Point<C>>,
    contours: Seq<u16>,
    glyph: GlyphModel,
    m: int,
    n: int,
    coords: Seq<i16>,
    state: SimpleState<D>,
)
    requires
        0 <= m <= n,
        !simple_deltas_spec::<C, D, S>(points, contours, glyph, m, coords, state).ok,
    ensures
        simple_deltas_spec::<C, D, S>(points, contours, glyph, n, coords, state)
            == simple_deltas_spec::<C, D, S>(points, contours, glyph, m, coords, state),
    decreases n - m,
{
    if m < n {
        lemma_failure_is_final::<C, D, S>(points, contours, glyph, m, n - 1, coords, state);
    }
}

/// What [`simple_glyph`] makes of its buffers, given what was found in the `gvar` table. Unreadable
/// variation data leaves everything as it is.
pub open spec fn simple_glyph_spec<
    C: PointCoord,
    D: PointCoord + CoordFrom<C> + CoordFrom<S>,
    S: Scalar,
>(
    found: Option<Option<GlyphModel>>,
    coords: Seq<i16>,
    points: Seq<Point<C>>,
    contours: Seq<u16>,
    state: SimpleState<D>,
) -> SimpleState<D> {
    let cleared = SimpleState { deltas: zero_deltas(state.deltas.len()), ..state };
    match found {
        Some(Some(glyph)) => simple_deltas_spec::<C, D, S>(
            points,
            contours,
            glyph,
            glyph.tuples.len() as int,
            coords,
            cleared,
        ),
        Some(None) => cleared,
        None => state,
    }
}

/// Whether the buffers for a simple glyph are long enough: there are at least the phantom points,
/// and the working buffer has room for all points.
pub open spec fn buffers_fit(point_count: nat, buffer_len: nat) -> bool {
    PHANTOM_POINT_COUNT <= point_count <= buffer_len
}

/// Computes a set of deltas for the points of a simple glyph from what was found in the `gvar`
/// table.
pub fn simple_glyph_from<C: PointCoord, D: PointCoord + CoordFrom<C> + CoordFrom<S>, S: Scalar>(
    found: &Option<Option<GlyphVariationData>>,
    coords: &[i16],
    glyph: SimpleGlyph<C>,
    iup_buffer: &mut [Point<D>],
    deltas: &mut [Point<D>],
) -> (r: Result<(), ReadError>)
    ensures
        ({
            let before = SimpleState {
                deltas: old(deltas)@,
                flags: old(glyph.flags)@,
                buffer: old(iup_buffer)@,
                ok: true,
            };
            let fits = buffers_fit(glyph.points@.len(), before.buffer.len());
            let after = if fits {
                simple_glyph_spec::<C, D, S>(
                    view_data_found(*found),
                    coords@,
                    glyph.points@,
                    glyph.contours@,
                    before,
                )
            } else {
                before
            };
            &&& r == if !fits {
                Err(ReadError::InvalidArrayLen)
            } else if !after.ok {
                Err(ReadError::OutOfBounds)
            } else {
                Ok::<(), ReadError>(())
            }
            &&& final(deltas)@ == after.deltas
            &&& final(glyph.flags)@ == after.flags
            &&& final(iup_buffer)@ == after.buffer
        }),
{
    if iup_buffer.len() < glyph.points.len() || glyph.points.len() < PHANTOM_POINT_COUNT {
        return Err(ReadError::InvalidArrayLen);
    }
    match found {
        None => Ok(()),
        Some(None) => {
            clear(deltas);
            Ok(())
        },
        Some(Some(data)) => {
            clear(deltas);
            simple_deltas::<C, D, S>(
                data,
                coords,
                glyph.points,
                glyph.flags,
                glyph.contours,
                iup_buffer,
                deltas,
            )
        },
    }
}

/// Computes a set of deltas for the points of a simple glyph.
///
/// Interpolation infers the deltas that tuples with sparse sets leave out. `iup_buffer` is working
/// storage for this and must be at least as long as `glyph.points`, which must include the phantom
/// points. Missing or unreadable variation data is not an error.
pub fn simple_glyph<C: PointCoord, D: PointCoord + CoordFrom<C> + CoordFrom<S>, S: Scalar>(
    gvar: &Gvar,
    glyph_id: u32,
    coords: &[i16],
    glyph: SimpleGlyph<C>,
    iup_buffer: &mut [Point<D>],
    deltas: &mut [Point<D>],
) -> (r: Result<(), ReadError>)
    ensures
        ({
            let before = SimpleState {
                deltas: old(deltas)@,
                flags: old(glyph.flags)@,
                buffer: old(iup_buffer)@,
                ok: true,
            };
            let fits = buffers_fit(glyph.points@.len(), before.buffer.len());
            let after = if fits {
                simple_glyph_spec::<C, D, S>(
                    glyph_data(gvar@, glyph_id, coords@),
                    coords@,
                    glyph.points@,
                    glyph.contours@,
                    before,
                )
            } else {
                before
            };
            &&& r == if !fits {
                Err(ReadError::InvalidArrayLen)
            } else if !after.ok {
                Err(ReadError::OutOfBounds)
            } else {
                Ok::<(), ReadError>(())
            }
            &&& final(deltas)@ == after.deltas
            &&& final(glyph.flags)@ == after.flags
            &&& final(iup_buffer)@ == after.buffer
        }),
{
    let found = gvar.glyph_variation_data(glyph_id, coords);
    simple_glyph_from::<C, D, S>(&found, coords, glyph, iup_buffer, deltas)
}

} // verus!
