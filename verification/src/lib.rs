//! Glyph variation deltas and GPOS value record subsetting, with machine-checked contracts.
//!
//! * [`deltas`] turns the tuples of a `gvar` table into deltas for the points of simple glyphs and
//!   the component offsets of composite glyphs; [`delta_laws`] and [`sum_laws`] say what holds of
//!   them. It builds on [`gvar`], which reads the table, [`tuple`], which decides how strongly a
//!   tuple applies, and [`iup`], which infers the deltas that sparse tuples leave out;
//!   [`interpolation_laws`] says where that puts points.
//! * [`coord`] and [`tuple`] state what is asked of coordinates and scalars; [`fixed`] provides
//!   both in 16.16 fixed point.
//! * [`gpos`] decides which fields a subsetted GPOS value record keeps and how the record is
//!   written.
pub mod coord;
pub mod delta_laws;
pub mod deltas;
pub mod error;
pub mod fixed;
pub mod flags;
pub mod gpos;
pub mod gvar;
pub mod interpolation_laws;
pub mod iup;
pub mod sum_laws;
pub mod tuple;
