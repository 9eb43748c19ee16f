use vstd::prelude::*;

verus! {

/// The kinds of chemical bond that a molecule records.
#[derive(Clone, Copy, PartialEq, Eq, Structural, Debug)]
pub enum BondType {
    SINGLE,
    DOUBLE,
    TRIPLE,
    AROMATIC,
    COORDINATE,
    WEAK,
}

/// A bond order, counted in half bonds: an aromatic bond (order 1.5) is three halves.
#[derive(Clone, Copy, PartialEq, Eq, Structural, Debug)]
pub struct BondOrder {
    pub halves: u32,
}

/// Twice the numeric bond order of each kind of bond.
pub open spec fn order_halves(t: BondType) -> u32 {
    match t {
        BondType::SINGLE => 2,
        BondType::DOUBLE => 4,
        BondType::TRIPLE => 6,
        BondType::AROMATIC => 3,
        BondType::COORDINATE => 2,
        BondType::WEAK => 1,
    }
}

impl BondType {
    /// The fixed bond order of this kind of bond.
    pub fn order(&self) -> (r: BondOrder)
        ensures
            r.halves == order_halves(*self),
    {
        match self {
            BondType::SINGLE => BondOrder { halves: 2 },
            BondType::DOUBLE => BondOrder { halves: 4 },
            BondType::TRIPLE => BondOrder { halves: 6 },
            BondType::AROMATIC => BondOrder { halves: 3 },
            BondType::COORDINATE => BondOrder { halves: 2 },
            BondType::WEAK => BondOrder { halves: 1 },
        }
    }
}

/// A bond materialised with copies of the two atoms it joins.
#[derive(Clone, Debug)]
pub struct Bond<A> {
    pub atom_a: A,
    pub atom_b: A,
    pub bond_type: BondType,
}

/// A bond recorded by the positions of its two atoms in a molecule's atom list.
#[derive(Clone, Copy, PartialEq, Eq, Structural, Debug)]
pub struct BondIndex {
    pub atom_1_idx: usize,
    pub atom_2_idx: usize,
    pub bond_type: BondType,
}

} // verus!

verus! {

/// The bond record `b` joins atom `i` to atom `j`, in that order.
pub open spec fn bond_matches(b: BondIndex, i: usize, j: usize) -> bool {
    b.atom_1_idx == i && b.atom_2_idx == j
}

/// Some record of `bonds` joins atom `i` to atom `j`, in that order.
pub open spec fn has_bond(bonds: Seq<BondIndex>, i: usize, j: usize) -> bool {
    exists|k: int| 0 <= k < bonds.len() && bond_matches(#[trigger] bonds[k], i, j)
}

/// Position `k` holds the first record of `bonds` that joins atom `i` to atom `j`.
pub open spec fn is_first_bond(bonds: Seq<BondIndex>, i: usize, j: usize, k: int) -> bool {
    &&& 0 <= k < bonds.len()
    &&& bond_matches(bonds[k], i, j)
    &&& forall|m: int| 0 <= m < k ==> !bond_matches(#[trigger] bonds[m], i, j)
}

} // verus!

verus! {

/// The position of the first record of `bonds` that joins atom `i` to atom `j`
/// (meaningful only where `has_bond(bonds, i, j)`).
pub open spec fn first_bond(bonds: Seq<BondIndex>, i: usize, j: usize) -> int {
    choose|k: int| is_first_bond(bonds, i, j, k)
}

/// The first matching record is unique, so `first_bond` names it.
pub proof fn lemma_first_bond_unique(bonds: Seq<BondIndex>, i: usize, j: usize, k: int)
    requires
        is_first_bond(bonds, i, j, k),
    ensures
        first_bond(bonds, i, j) == k,
        has_bond(bonds, i, j),
{
    let c = first_bond(bonds, i, j);
    assert(is_first_bond(bonds, i, j, c));
    if c < k {
        assert(!bond_matches(bonds[c], i, j));
    } else if k < c {
        assert(!bond_matches(bonds[k], i, j));
    }
}

} // verus!

verus! {

/// Bond lookup is directional: after appending a record that joins atom `i`
/// to atom `j` (with `i != j`) to records where none joins `j` to `i`, a
/// lookup of `(i, j)` finds a record and a lookup of `(j, i)` still finds none.
pub proof fn lemma_bond_lookup_is_directional(
    bonds: Seq<BondIndex>,
    i: usize,
    j: usize,
    bond_type: BondType,
)
    requires
        i != j,
        !has_bond(bonds, j, i),
    ensures
        has_bond(bonds.push(BondIndex { atom_1_idx: i, atom_2_idx: j, bond_type: bond_type }), i, j),
        !has_bond(bonds.push(BondIndex { atom_1_idx: i, atom_2_idx: j, bond_type: bond_type }), j, i),
{
    let added = bonds.push(BondIndex { atom_1_idx: i, atom_2_idx: j, bond_type: bond_type });
    assert(bond_matches(added[bonds.len() as int], i, j));
    assert forall|k: int| 0 <= k < added.len() implies !bond_matches(#[trigger] added[k], j, i) by {
        if k < bonds.len() {
            assert(added[k] == bonds[k]);
        }
    }
}

} // verus!
