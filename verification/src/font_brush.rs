//! Platform pieces of glyph rendering.
use vstd::prelude::*;

verus! {

/// Cached arcs of a glyph outline (this platform keeps none).
pub struct CellInfo;

} // verus!
