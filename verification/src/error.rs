//! Errors.
use vstd::prelude::*;

verus! {

/// What can be wrong with the data at hand.
#[derive(Clone, Copy, Debug, PartialEq, Eq, Structural)]
pub enum ReadError {
    /// A reference to something outside of the data at hand.
    OutOfBounds,
    /// A buffer whose length does not fit what it is for.
    InvalidArrayLen,
}

} // verus!
