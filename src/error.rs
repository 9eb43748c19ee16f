use vstd::prelude::*;

verus! {

/// Why an atom or bond lookup failed.
#[derive(Clone, Copy, PartialEq, Eq, Structural, Debug)]
pub enum MolError {
    /// An atom position is past the end of the atom list.
    IndexOutOfRange,
    /// No bond joins the two atoms in the order asked, or no atom matches.
    NotFound,
}

} // verus!
