use vstd::prelude::*;
use vstd::std_specs::cmp::PartialEqSpec;

use crate::atom::{copy_atom, find_atom, has_match, is_first_match, take_atom};
use crate::bond::{
    Bond, BondIndex, BondOrder, BondType, bond_matches, first_bond, has_bond, is_first_bond,
    lemma_first_bond_unique, order_halves,
};
use crate::error::MolError;

verus! {

/// Record `a` joins an earlier pair of atoms than record `b`, taking pairs in
/// row-major order.
pub open spec fn pair_before(a: BondIndex, b: BondIndex) -> bool {
    a.atom_1_idx < b.atom_1_idx || (a.atom_1_idx == b.atom_1_idx && a.atom_2_idx < b.atom_2_idx)
}

/// Some record of `bonds` from position `start` on joins atom `i` to atom `j`.
pub open spec fn listed_from(bonds: Seq<BondIndex>, start: int, i: usize, j: usize) -> bool {
    exists|k: int| start <= k < bonds.len() && bond_matches(#[trigger] bonds[k], i, j)
}

/// Each record of `bonds` from position `start` on is a single bond between
/// atoms `i < j` that `near` reported as close, and those records run in
/// row-major order of their pairs.
pub open spec fn lists_near_pairs<A, F: Fn(&A, &A) -> bool>(
    bonds: Seq<BondIndex>,
    start: int,
    atoms: Seq<A>,
    near: F,
) -> bool {
    &&& forall|k: int|
        #![trigger bonds[k]]
        start <= k < bonds.len() ==> {
            &&& bonds[k].bond_type == BondType::SINGLE
            &&& bonds[k].atom_1_idx < bonds[k].atom_2_idx
            &&& bonds[k].atom_2_idx < atoms.len()
            &&& near.ensures(
                (&atoms[bonds[k].atom_1_idx as int], &atoms[bonds[k].atom_2_idx as int]),
                true,
            )
        }
    &&& forall|k: int, l: int|
        start <= k < l < bonds.len() ==> pair_before(#[trigger] bonds[k], #[trigger] bonds[l])
}

/// Every pair of atoms `i < j` that `bonds` does not list from position
/// `start` on is one that `near` reported as far apart.
pub open spec fn omits_only_far_pairs<A, F: Fn(&A, &A) -> bool>(
    bonds: Seq<BondIndex>,
    start: int,
    atoms: Seq<A>,
    near: F,
) -> bool {
    forall|i: usize, j: usize|
        i < j < atoms.len() && !#[trigger] listed_from(bonds, start, i, j) ==> near.ensures(
            (&atoms[i as int], &atoms[j as int]),
            false,
        )
}

/// With a proximity test that gives one answer per pair of atoms, records
/// that satisfy both halves of the inference contract list a pair of atoms
/// `i < j` exactly when the test reports the two atoms close.
pub proof fn lemma_listed_exactly_when_near<A, F: Fn(&A, &A) -> bool>(
    bonds: Seq<BondIndex>,
    start: int,
    atoms: Seq<A>,
    near: F,
    i: usize,
    j: usize,
)
    requires
        lists_near_pairs(bonds, start, atoms, near),
        omits_only_far_pairs(bonds, start, atoms, near),
        forall|a: &A, b: &A, r1: bool, r2: bool|
            near.ensures((a, b), r1) && near.ensures((a, b), r2) ==> r1 == r2,
        i < j < atoms.len(),
    ensures
        listed_from(bonds, start, i, j) <==> near.ensures((&atoms[i as int], &atoms[j as int]), true),
{
    if listed_from(bonds, start, i, j) {
        let k = choose|k: int| start <= k < bonds.len() && bond_matches(#[trigger] bonds[k], i, j);
        assert(near.ensures((&atoms[bonds[k].atom_1_idx as int], &atoms[bonds[k].atom_2_idx as int]), true));
    } else {
        assert(near.ensures((&atoms[i as int], &atoms[j as int]), false));
    }
}

/// A named molecule: an ordered list of atoms and a list of bonds that refer
/// to atoms by their position in that list.
///
/// Bond records are not repaired when atoms are removed: a record whose
/// positions no longer name atoms makes `get_bond` fail with
/// `IndexOutOfRange`.
pub struct Molecule<A> {
    pub name: String,
    pub remark: String,
    atom_list: Vec<A>,
    bond_list: Vec<BondIndex>,
}

impl<A> Molecule<A> {
    /// The molecule's name.
    pub closed spec fn name_spec(&self) -> String {
        self.name
    }

    /// The molecule's free-text remark.
    pub closed spec fn remark_spec(&self) -> String {
        self.remark
    }

    /// The atoms, in insertion order.
    pub closed spec fn atoms(&self) -> Seq<A> {
        self.atom_list@
    }

    /// The bond records, in insertion order.
    pub closed spec fn bonds(&self) -> Seq<BondIndex> {
        self.bond_list@
    }

    /// An empty molecule.
    pub fn new(name: String, remark: String) -> (r: Molecule<A>)
        ensures
            r.name_spec() == name,
            r.remark_spec() == remark,
            r.atoms() == Seq::<A>::empty(),
            r.bonds() == Seq::<BondIndex>::empty(),
    {
        Molecule { name: name, remark: remark, atom_list: Vec::new(), bond_list: Vec::new() }
    }

    /// Appends a bond record joining atom `atom_1_idx` to atom `atom_2_idx`.
    /// Neither position is checked, and an existing record for the pair is kept.
    pub fn add_bond(&mut self, atom_1_idx: usize, atom_2_idx: usize, bond_type: BondType)
        ensures
            final(self).name_spec() == old(self).name_spec(),
            final(self).remark_spec() == old(self).remark_spec(),
            final(self).atoms() == old(self).atoms(),
            final(self).bonds() == old(self).bonds().push(
                BondIndex { atom_1_idx: atom_1_idx, atom_2_idx: atom_2_idx, bond_type: bond_type },
            ),
    {
        self.bond_list.push(
            BondIndex { atom_1_idx: atom_1_idx, atom_2_idx: atom_2_idx, bond_type: bond_type },
        );
    }

    /// The number of bond records.
    pub fn get_number_of_bonds(&self) -> (r: usize)
        ensures
            r == self.bonds().len(),
    {
        self.bond_list.len()
    }

    /// The position of the first bond record joining `atom_1_idx` to
    /// `atom_2_idx` in that order; a record for the reversed pair does not count.
    pub fn get_bond_index(&self, atom_1_idx: usize, atom_2_idx: usize) -> (r: Result<usize, MolError>)
        ensures
            match r {
                Ok(k) => is_first_bond(self.bonds(), atom_1_idx, atom_2_idx, k as int),
                Err(e) => e == MolError::NotFound && !has_bond(self.bonds(), atom_1_idx, atom_2_idx),
            },
    {
        let mut k: usize = 0;
        while k < self.bond_list.len()
            invariant
                k <= self.bond_list@.len(),
                forall|m: int| 0 <= m < k ==> !bond_matches(#[trigger] self.bond_list@[m], atom_1_idx, atom_2_idx),
            decreases self.bond_list@.len() - k,
        {
            let b = &self.bond_list[k];
            if b.atom_1_idx == atom_1_idx && b.atom_2_idx == atom_2_idx {
                return Ok(k);
            }
            k = k + 1;
        }
        Err(MolError::NotFound)
    }

    /// The kind of the first bond joining `atom_1_idx` to `atom_2_idx`.
    pub fn get_bond_type(&self, atom_1_idx: usize, atom_2_idx: usize) -> (r: Result<BondType, MolError>)
        ensures
            has_bond(self.bonds(), atom_1_idx, atom_2_idx) <==> r is Ok,
            r matches Ok(t) ==> t == self.bonds()[first_bond(self.bonds(), atom_1_idx, atom_2_idx)].bond_type,
            r matches Err(e) ==> e == MolError::NotFound,
    {
        let k = self.get_bond_index(atom_1_idx, atom_2_idx)?;
        proof {
            lemma_first_bond_unique(self.bonds(), atom_1_idx, atom_2_idx, k as int);
        }
        Ok(self.bond_list[k].bond_type)
    }

    /// Overwrites the kind of the first bond joining `atom_1_idx` to `atom_2_idx`.
    pub fn set_bond_type(&mut self, atom_1_idx: usize, atom_2_idx: usize, bond_type: BondType) -> (r: Result<(), MolError>)
        ensures
            final(self).name_spec() == old(self).name_spec(),
            final(self).remark_spec() == old(self).remark_spec(),
            final(self).atoms() == old(self).atoms(),
            has_bond(old(self).bonds(), atom_1_idx, atom_2_idx) <==> r is Ok,
            r is Ok ==> final(self).bonds() == old(self).bonds().update(
                first_bond(old(self).bonds(), atom_1_idx, atom_2_idx),
                BondIndex { atom_1_idx: atom_1_idx, atom_2_idx: atom_2_idx, bond_type: bond_type },
            ),
            r matches Err(e) ==> e == MolError::NotFound && final(self).bonds() == old(self).bonds(),
    {
        let k = self.get_bond_index(atom_1_idx, atom_2_idx)?;
        proof {
            lemma_first_bond_unique(self.bonds(), atom_1_idx, atom_2_idx, k as int);
        }
        self.bond_list.set(
            k,
            BondIndex { atom_1_idx: atom_1_idx, atom_2_idx: atom_2_idx, bond_type: bond_type },
        );
        Ok(())
    }

    /// Deletes the first bond joining `atom_1_idx` to `atom_2_idx`.
    pub fn remove_bond(&mut self, atom_1_idx: usize, atom_2_idx: usize) -> (r: Result<(), MolError>)
        ensures
            final(self).name_spec() == old(self).name_spec(),
            final(self).remark_spec() == old(self).remark_spec(),
            final(self).atoms() == old(self).atoms(),
            has_bond(old(self).bonds(), atom_1_idx, atom_2_idx) <==> r is Ok,
            r is Ok ==> final(self).bonds() == old(self).bonds().remove(
                first_bond(old(self).bonds(), atom_1_idx, atom_2_idx),
            ),
            r matches Err(e) ==> e == MolError::NotFound && final(self).bonds() == old(self).bonds(),
    {
        let k = self.get_bond_index(atom_1_idx, atom_2_idx)?;
        proof {
            lemma_first_bond_unique(self.bonds(), atom_1_idx, atom_2_idx, k as int);
        }
        self.bond_list.remove(k);
        Ok(())
    }

    /// The bond order of the first bond joining `atom_1_idx` to `atom_2_idx`.
    pub fn compute_bond_order(&self, atom_1_idx: usize, atom_2_idx: usize) -> (r: Result<BondOrder, MolError>)
        ensures
            has_bond(self.bonds(), atom_1_idx, atom_2_idx) <==> r is Ok,
            r matches Ok(o) ==> o.halves == order_halves(
                self.bonds()[first_bond(self.bonds(), atom_1_idx, atom_2_idx)].bond_type,
            ),
            r matches Err(e) ==> e == MolError::NotFound,
    {
        let t = self.get_bond_type(atom_1_idx, atom_2_idx)?;
        Ok(t.order())
    }

    /// Appends an atom at the end of the list.
    pub fn add_atom(&mut self, atom: A)
        ensures
            final(self).name_spec() == old(self).name_spec(),
            final(self).remark_spec() == old(self).remark_spec(),
            final(self).atoms() == old(self).atoms().push(atom),
            final(self).bonds() == old(self).bonds(),
    {
        self.atom_list.push(atom);
    }

    /// The number of atoms.
    pub fn get_number_of_atoms(&self) -> (r: usize)
        ensures
            r == self.atoms().len(),
    {
        self.atom_list.len()
    }

    /// A copy of the atom at `index`.
    pub fn get_atom(&self, index: usize) -> (r: Result<A, MolError>)
        where
            A: Clone,
        ensures
            index < self.atoms().len() <==> r is Ok,
            r matches Ok(a) ==> cloned(self.atoms()[index as int], a),
            r matches Err(e) ==> e == MolError::IndexOutOfRange,
    {
        copy_atom(&self.atom_list, index)
    }

    /// Removes the atom at `index` and returns it; each later atom moves down
    /// one position. Bond records are left as they are.
    pub fn remove_atom(&mut self, index: usize) -> (r: Result<A, MolError>)
        ensures
            final(self).name_spec() == old(self).name_spec(),
            final(self).remark_spec() == old(self).remark_spec(),
            final(self).bonds() == old(self).bonds(),
            index < old(self).atoms().len() <==> r is Ok,
            r matches Ok(a) ==> {
                &&& a == old(self).atoms()[index as int]
                &&& final(self).atoms().len() == old(self).atoms().len() - 1
                &&& forall|k: int| 0 <= k < index ==> final(self).atoms()[k] == old(self).atoms()[k]
                &&& forall|k: int|
                    index <= k < final(self).atoms().len() ==> final(self).atoms()[k]
                        == old(self).atoms()[k + 1]
            },
            r matches Err(e) ==> e == MolError::IndexOutOfRange && final(self).atoms()
                == old(self).atoms(),
    {
        take_atom(&mut self.atom_list, index)
    }

    /// The position of the first atom equal to `atom`.
    pub fn index_of(&self, atom: &A) -> (r: Result<usize, MolError>)
        where
            A: PartialEq,
        ensures
            r matches Ok(k) ==> k < self.atoms().len(),
            r matches Err(e) ==> e == MolError::NotFound,
            A::obeys_eq_spec() ==> match r {
                Ok(k) => is_first_match(self.atoms(), *atom, k as int),
                Err(_) => !has_match(self.atoms(), *atom),
            },
    {
        find_atom(&self.atom_list, atom)
    }

    /// The first bond joining `atom_1_idx` to `atom_2_idx`, with copies of
    /// both atoms. Fails with `NotFound` where no record joins them in that
    /// order, and with `IndexOutOfRange` where the record names a position
    /// past the end of the atom list.
    pub fn get_bond(&self, atom_1_idx: usize, atom_2_idx: usize) -> (r: Result<Bond<A>, MolError>)
        where
            A: Clone,
        ensures
            r is Ok <==> has_bond(self.bonds(), atom_1_idx, atom_2_idx) && atom_1_idx
                < self.atoms().len() && atom_2_idx < self.atoms().len(),
            r matches Ok(b) ==> {
                &&& cloned(self.atoms()[atom_1_idx as int], b.atom_a)
                &&& cloned(self.atoms()[atom_2_idx as int], b.atom_b)
                &&& b.bond_type == self.bonds()[first_bond(
                    self.bonds(),
                    atom_1_idx,
                    atom_2_idx,
                )].bond_type
            },
            r matches Err(e) ==> (e == MolError::NotFound <==> !has_bond(
                self.bonds(),
                atom_1_idx,
                atom_2_idx,
            )),
            r matches Err(e) ==> e == MolError::NotFound || e == MolError::IndexOutOfRange,
    {
        let k = self.get_bond_index(atom_1_idx, atom_2_idx)?;
        proof {
            lemma_first_bond_unique(self.bonds(), atom_1_idx, atom_2_idx, k as int);
        }
        let atom_a = copy_atom(&self.atom_list, atom_1_idx)?;
        let atom_b = copy_atom(&self.atom_list, atom_2_idx)?;
        Ok(Bond { atom_a: atom_a, atom_b: atom_b, bond_type: self.bond_list[k].bond_type })
    }

    /// Infers single bonds from proximity: for every pair of atoms `i < j`,
    /// in row-major order, appends a `SINGLE` bond `(i, j)` where `near`
    /// reports the two atoms close. Earlier records are kept, so a second run
    /// appends the same pairs again.
    pub fn compute_simple_bonds<F: Fn(&A, &A) -> bool>(&mut self, near: F)
        requires
            forall|a: &A, b: &A| near.requires((a, b)),
        ensures
            final(self).name_spec() == old(self).name_spec(),
            final(self).remark_spec() == old(self).remark_spec(),
            final(self).atoms() == old(self).atoms(),
            old(self).bonds().len() <= final(self).bonds().len(),
            final(self).bonds().subrange(0, old(self).bonds().len() as int) == old(self).bonds(),
            lists_near_pairs(final(self).bonds(), old(self).bonds().len() as int, old(self).atoms(), near),
            omits_only_far_pairs(final(self).bonds(), old(self).bonds().len() as int, old(self).atoms(), near),
    {
        let ghost start = self.bond_list@.len() as int;
        let ghost before = self.bond_list@;
        let n = self.atom_list.len();
        let mut i: usize = 0;
        while i < n
            invariant
                n == self.atom_list@.len(),
                self.atom_list == old(self).atom_list,
                self.name == old(self).name,
                self.remark == old(self).remark,
                start == old(self).bond_list@.len(),
                before == old(self).bond_list@,
                forall|a: &A, b: &A| near.requires((a, b)),
                i <= n,
                start <= self.bond_list@.len(),
                self.bond_list@.subrange(0, start) == before,
                lists_near_pairs(self.bond_list@, start, self.atom_list@, near),
                forall|k: int| start <= k < self.bond_list@.len() ==> (#[trigger] self.bond_list@[k]).atom_1_idx < i,
                forall|p: usize, q: usize|
                    p < q < n && p < i && !#[trigger] listed_from(self.bond_list@, start, p, q)
                        ==> near.ensures((&self.atom_list@[p as int], &self.atom_list@[q as int]), false),
            decreases n - i,
        {
            let mut j: usize = i + 1;
            while j < n
                invariant
                    n == self.atom_list@.len(),
                    self.atom_list == old(self).atom_list,
                    self.name == old(self).name,
                    self.remark == old(self).remark,
                    start == old(self).bond_list@.len(),
                    before == old(self).bond_list@,
                    forall|a: &A, b: &A| near.requires((a, b)),
                    i < n,
                    i < j <= n,
                    start <= self.bond_list@.len(),
                    self.bond_list@.subrange(0, start) == before,
                    lists_near_pairs(self.bond_list@, start, self.atom_list@, near),
                    forall|k: int|
                        start <= k < self.bond_list@.len() ==> pair_before(
                            #[trigger] self.bond_list@[k],
                            BondIndex { atom_1_idx: i, atom_2_idx: j, bond_type: BondType::SINGLE },
                        ),
                    forall|p: usize, q: usize|
                        p < q < n && (p < i || (p == i && q < j)) && !#[trigger] listed_from(
                            self.bond_list@,
                            start,
                            p,
                            q,
                        ) ==> near.ensures((&self.atom_list@[p as int], &self.atom_list@[q as int]), false),
                decreases n - j,
            {
                let close = near(&self.atom_list[i], &self.atom_list[j]);
                let ghost prev = self.bond_list@;
                if close {
                    self.bond_list.push(BondIndex { atom_1_idx: i, atom_2_idx: j, bond_type: BondType::SINGLE });
                    proof {
                        assert(self.bond_list@.subrange(0, start) =~= prev.subrange(0, start));
                        assert forall|p: usize, q: usize| listed_from(prev, start, p, q) implies listed_from(self.bond_list@, start, p, q) by {
                            let k = choose|k: int| start <= k < prev.len() && bond_matches(#[trigger] prev[k], p, q);
                            assert(self.bond_list@[k] == prev[k]);
                        }
                        let last = self.bond_list@.len() - 1;
                        assert(bond_matches(self.bond_list@[last], i, j));
                        assert(listed_from(self.bond_list@, start, i, j));
                    }
                }
                proof {
                    assert forall|p: usize, q: usize|
                        p < q < n && (p < i || (p == i && q < j + 1)) && !#[trigger] listed_from(
                            self.bond_list@,
                            start,
                            p,
                            q,
                        ) implies near.ensures((&self.atom_list@[p as int], &self.atom_list@[q as int]), false) by {
                        if p == i && q == j {
                            assert(!close);
                        } else {
                            assert(!listed_from(prev, start, p, q));
                        }
                    }
                }
                j = j + 1;
            }
            i = i + 1;
        }
        proof {
            assert(self.bond_list@.subrange(0, start) == before);
        }
    }
}

} // verus!
