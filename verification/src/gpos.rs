//! Subsetting of GPOS value records.
//!
//! * [`value_format`] names the fields that a value record can have.
//! * [`value_record`] reads the fields of a value record.
//! * [`plan`] holds what subsetting does to variation indices.
//! * [`effective_format`] decides which fields are worth keeping.
//! * [`subset`] decides what is written for a record, and [`subset_laws`] says what that amounts
//!   to.
//! * [`collect`] finds the variation indices that a record refers to.
pub mod collect;
pub mod effective_format;
pub mod plan;
pub mod subset;
pub mod subset_laws;
pub mod value_format;
pub mod value_record;
