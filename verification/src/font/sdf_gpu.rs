//! Drawing of distance fields on the GPU.
use vstd::prelude::*;

verus! {

/// Indices of the two triangles of a quad with corners 0, 1, 2, 3.
pub fn create_indices() -> (r: [u16; 6])
    ensures
        r@ == seq![0u16, 1u16, 2u16, 1u16, 2u16, 3u16],
{
    [0, 1, 2, 1, 2, 3]
}

} // verus!
