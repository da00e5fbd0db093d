//! Failures reported by canvas and encoder operations.

use vstd::prelude::*;

verus! {

/// Why a resize, a bit-depth change or an export was refused.
#[derive(Debug, Clone, Copy, PartialEq, Eq)]
pub enum Error {
    /// The requested canvas size is not one of the enumerated square sizes.
    InvalidCanvasSize(usize, usize),
    /// The requested canvas size is enumerated but cannot be produced yet.
    UnsupportedGeometry,
    /// The bit depth is not a palette depth, or the encoder has no format for it.
    UnsupportedBitDepth,
}

impl Error {
    /// The text shown for any failure.
    pub fn to_string(&self) -> (s: String)
        ensures
            s@ == "Error received!"@,
    {
        "Error received!".to_owned()
    }
}

} // verus!
