use vstd::prelude::*;

pub mod atom;
pub mod bond;
pub mod error;
pub mod molecule;

verus! {

/// Sum of two sizes; the caller guarantees that the sum fits in a `usize`.
pub fn add(left: usize, right: usize) -> (r: usize)
    requires
        left + right <= usize::MAX,
    ensures
        r == left + right,
{
    left + right
}

} // verus!
