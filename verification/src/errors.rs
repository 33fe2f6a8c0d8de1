//! Configuration errors: these indicate caller mistakes, and every
//! constructor that can meet one reports it rather than degrading silently.

use vstd::prelude::*;

verus! {

/// A configuration error found while building or rebuilding the font
/// manager.
#[derive(Clone, Debug)]
pub enum FontCacheError {
    /// The device pixel ratio is not strictly between 0 and 100.
    PixelRatioOutOfRange,
    /// The named font record's bytes are not a parseable font file.
    InvalidFontBytes(String),
}

} // verus!
