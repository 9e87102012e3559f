//! Access to the `gvar` table.
use crate::error::ReadError;
use crate::tuple::{
    tuple_applies, tuple_scalar_spec, view_tuples, GlyphDelta, GlyphModel, GlyphVariationData,
    Scalar, TupleModel, TupleVariation,
};
use skrifa::raw::tables::{gvar, variations::Tuple};
use skrifa::raw::types::{F2Dot14, GlyphId};
use skrifa::raw::{FontData, FontRead};
use vstd::prelude::*;

verus! {

/// The number of bytes in the header of a `gvar` table.
pub const HEADER_LEN: usize = 20;

/// The contents of a `gvar` table.
#[derive(Clone, Copy, Debug)]
pub struct Gvar<'a> {
    data: &'a [u8],
}

impl<'a> View for Gvar<'a> {
    type V = Seq<u8>;

    closed spec fn view(&self) -> Seq<u8> {
        self.data@
    }
}

/// What a list of tuples holds, if there is one.
pub open spec fn view_tuples_found(found: Option<Option<Vec<TupleVariation>>>) -> Option<
    Option<Seq<TupleModel>>,
> {
    match found {
        Some(Some(tuples)) => Some(Some(view_tuples(tuples@))),
        Some(None) => Some(None),
        None => None,
    }
}

/// What the variation data of a glyph holds, if there is any.
pub open spec fn view_data_found(found: Option<Option<GlyphVariationData>>) -> Option<
    Option<GlyphModel>,
> {
    match found {
        Some(Some(data)) => Some(Some(data@)),
        Some(None) => Some(None),
        None => None,
    }
}

/// The number of axes that a `gvar` table is for, as its header says.
pub open spec fn axis_count(gvar: Seq<u8>) -> int {
    gvar[4] * 256 + gvar[5]
}

/// The tuples that a `gvar` table holds for a glyph. `None` stands for data that cannot be read,
/// `Some(None)` for a glyph without variation data.
pub uninterp spec fn glyph_tuples(gvar: Seq<u8>, glyph_id: u32) -> Option<Option<Seq<TupleModel>>>;

/// For each tuple, whether it has as many axes as the table and no axis excludes it at the
/// location `coords`.
pub open spec fn active_tuples(
    tuples: Seq<TupleModel>,
    axis_count: int,
    coords: Seq<i16>,
) -> Seq<bool> {
    Seq::new(
        tuples.len(),
        |k: int| tuples[k].peak.len() == axis_count && tuple_applies(tuples[k], coords),
    )
}

/// The variation data that a `gvar` table holds for a glyph, read for the location `coords`.
pub open spec fn glyph_data(gvar: Seq<u8>, glyph_id: u32, coords: Seq<i16>) -> Option<
    Option<GlyphModel>,
> {
    match glyph_tuples(gvar, glyph_id) {
        Some(Some(tuples)) => Some(
            Some(GlyphModel { tuples, active: active_tuples(tuples, axis_count(gvar), coords) }),
        ),
        Some(None) => Some(None),
        None => None,
    }
}

/// `gvar::Gvar::read`: succeeds if the data is long enough for the header of the table.
#[verifier::external_body]
fn header_fits(data: &[u8]) -> (r: bool)
    ensures
        r == (data@.len() >= HEADER_LEN),
{
    gvar::Gvar::read(FontData::new(data)).is_ok()
}

/// `gvar::Gvar::glyph_variation_data`, with the tuples of the result spelled out: what comes back
/// is a function of the table and the glyph, and goes by the name [`glyph_tuples`].
#[verifier::external_body]
fn read_glyph_tuples(data: &[u8], glyph_id: u32) -> (r: Option<Option<Vec<TupleVariation>>>)
    ensures
        view_tuples_found(r) == glyph_tuples(data@, glyph_id),
{
    let bits = |t: Tuple| t.values().iter().map(|v| v.get().to_bits()).collect();
    let gvar = gvar::Gvar::read(FontData::new(data)).ok()?;
    let found = gvar.glyph_variation_data(GlyphId::new(glyph_id)).ok()?;
    Some(found.map(|f| f.tuples().map(|t| TupleVariation {
        peak: bits(t.peak()),
        intermediate_start: t.intermediate_start().map(bits),
        intermediate_end: t.intermediate_end().map(bits),
        all_points: t.has_deltas_for_all_points(),
        deltas: t.deltas().map(|d| GlyphDelta {
            position: d.position, x_delta: d.x_delta, y_delta: d.y_delta,
        }).collect(),
    }).collect()))
}

/// `TupleVariation::compute_scalar_f32`, asked of every tuple of a glyph whether it returns
/// anything: it does if the tuple has as many axes as the table and no axis excludes it. What the
/// scalar is plays no role.
#[verifier::external_body]
fn read_active_tuples(data: &[u8], glyph_id: u32, coords: &[i16]) -> (r: Option<Vec<bool>>)
    ensures
        match glyph_tuples(data@, glyph_id) {
            Some(Some(tuples)) => r is Some && r->0@ == active_tuples(
                tuples,
                axis_count(data@),
                coords@,
            ),
            _ => r is None,
        },
{
    let coords: Vec<F2Dot14> = coords.iter().map(|bits| F2Dot14::from_bits(*bits)).collect();
    let gvar = gvar::Gvar::read(FontData::new(data)).ok()?;
    let found = gvar.glyph_variation_data(GlyphId::new(glyph_id)).ok()??;
    Some(found.tuples().map(|tuple| tuple.compute_scalar_f32(&coords).is_some()).collect())
}

impl<'a> Gvar<'a> {
    /// Takes `data` for a `gvar` table. Fails if it is too short for the header of one.
    pub fn read(data: &'a [u8]) -> (r: Result<Self, ReadError>)
        ensures
            data@.len() >= HEADER_LEN ==> r is Ok && r->Ok_0@ == data@,
            data@.len() < HEADER_LEN ==> r == Err::<Self, ReadError>(ReadError::OutOfBounds),
    {
        if header_fits(data) {
            Ok(Gvar { data })
        } else {
            Err(ReadError::OutOfBounds)
        }
    }

    /// The variation data of a glyph, read for the location `coords`. Returns `None` if it cannot
    /// be read, and `Some(None)` if the glyph has none.
    pub fn glyph_variation_data(&self, glyph_id: u32, coords: &[i16]) -> (r: Option<
        Option<GlyphVariationData>,
    >)
        ensures
            view_data_found(r) == glyph_data(self@, glyph_id, coords@),
    {
        match read_glyph_tuples(self.data, glyph_id) {
            None => None,
            Some(None) => Some(None),
            Some(Some(tuples)) => match read_active_tuples(self.data, glyph_id, coords) {
                Some(active) => Some(Some(GlyphVariationData { tuples, active })),
                None => None,
            },
        }
    }
}

/// A tuple of a table has an effect only if it has as many axes as the table is for; if it has, it
/// applies by its own terms.
pub proof fn law_axis_count_decides<S: Scalar>(
    gvar: Seq<u8>,
    glyph_id: u32,
    coords: Seq<i16>,
    k: int,
)
    requires
        glyph_tuples(gvar, glyph_id) matches Some(Some(tuples)) && 0 <= k < tuples.len(),
    ensures
        ({
            let tuple = glyph_tuples(gvar, glyph_id)->0->0[k];
            let data = glyph_data(gvar, glyph_id, coords)->0->0;
            &&& glyph_data(gvar, glyph_id, coords) matches Some(Some(_))
            &&& data.tuples == glyph_tuples(gvar, glyph_id)->0->0
            &&& data.scalar_spec::<S>(k, coords) == if tuple.peak.len() == gvar[4] * 256 + gvar[5] {
                tuple_scalar_spec::<S>(tuple, true, coords)
            } else {
                None
            }
        }),
{
}

/// Data that is missing or cannot be read stays so, whatever the location.
pub proof fn law_missing_data_stays_missing(gvar: Seq<u8>, glyph_id: u32, coords: Seq<i16>)
    ensures
        glyph_tuples(gvar, glyph_id) is None <==> glyph_data(gvar, glyph_id, coords) is None,
        glyph_tuples(gvar, glyph_id) == Some(None::<Seq<TupleModel>>) <==> glyph_data(
            gvar,
            glyph_id,
            coords,
        ) == Some(None::<GlyphModel>),
{
}

} // verus!
