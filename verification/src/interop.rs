//! Small helpers for combining differently sized derivative shapes.

use vstd::prelude::*;

verus! {

/// The larger of two sizes, as used when two derivative containers of
/// different lengths are combined into one of the larger length.
pub fn max(a: usize, b: usize) -> (r: usize)
    ensures
        r == if a > b {
            a
        } else {
            b
        },
{
    if a > b {
        a
    } else {
        b
    }
}

} // verus!
