use vstd::prelude::*;
use vstd::std_specs::cmp::PartialEqSpec;

use crate::error::MolError;

verus! {

/// `a` matches `b` under the atom type's own equality.
pub open spec fn atom_matches<A: PartialEq>(a: A, b: A) -> bool {
    a.eq_spec(&b)
}

/// Position `k` holds the first atom of `atoms` that matches `atom`.
pub open spec fn is_first_match<A: PartialEq>(atoms: Seq<A>, atom: A, k: int) -> bool {
    &&& 0 <= k < atoms.len()
    &&& atom_matches(atoms[k], atom)
    &&& forall|m: int| 0 <= m < k ==> !atom_matches(#[trigger] atoms[m], atom)
}

/// Some atom of `atoms` matches `atom`.
pub open spec fn has_match<A: PartialEq>(atoms: Seq<A>, atom: A) -> bool {
    exists|k: int| 0 <= k < atoms.len() && atom_matches(#[trigger] atoms[k], atom)
}

/// A copy of the atom at `index`.
pub(crate) fn copy_atom<A: Clone>(list: &Vec<A>, index: usize) -> (r: Result<A, MolError>)
    ensures
        index < list@.len() <==> r is Ok,
        r matches Ok(a) ==> cloned(list@[index as int], a),
        r matches Err(e) ==> e == MolError::IndexOutOfRange,
{
    if index < list.len() {
        Ok(list[index].clone())
    } else {
        Err(MolError::IndexOutOfRange)
    }
}

/// Takes the atom at `index` out of the list; later atoms move down by one.
pub(crate) fn take_atom<A>(list: &mut Vec<A>, index: usize) -> (r: Result<A, MolError>)
    ensures
        index < old(list)@.len() <==> r is Ok,
        r matches Ok(a) ==> a == old(list)@[index as int] && final(list)@ == old(list)@.remove(
            index as int,
        ),
        r matches Err(e) ==> e == MolError::IndexOutOfRange && final(list)@ == old(list)@,
{
    if index < list.len() {
        Ok(list.remove(index))
    } else {
        Err(MolError::IndexOutOfRange)
    }
}

/// The position of the first atom in the list that matches `atom`.
pub(crate) fn find_atom<A: PartialEq>(list: &Vec<A>, atom: &A) -> (r: Result<usize, MolError>)
    ensures
        r matches Ok(k) ==> k < list@.len(),
        r matches Err(e) ==> e == MolError::NotFound,
        A::obeys_eq_spec() ==> match r {
            Ok(k) => is_first_match(list@, *atom, k as int),
            Err(_) => !has_match(list@, *atom),
        },
{
    let mut k: usize = 0;
    while k < list.len()
        invariant
            k <= list@.len(),
            A::obeys_eq_spec() ==> forall|m: int|
                0 <= m < k ==> !atom_matches(#[trigger] list@[m], *atom),
        decreases list@.len() - k,
    {
        if list[k].eq(atom) {
            return Ok(k);
        }
        k = k + 1;
    }
    Err(MolError::NotFound)
}

} // verus!

verus! {

/// A named, ordered collection of atoms, addressed by position.
pub struct AtomGroup<A> {
    pub name: String,
    pub remark: String,
    atom_list: Vec<A>,
}

impl<A> AtomGroup<A> {
    /// The group's name.
    pub closed spec fn name_spec(&self) -> String {
        self.name
    }

    /// The group's free-text remark.
    pub closed spec fn remark_spec(&self) -> String {
        self.remark
    }

    /// The atoms, in insertion order.
    pub closed spec fn atoms(&self) -> Seq<A> {
        self.atom_list@
    }

    /// An empty group.
    pub fn new(name: String, remark: String) -> (r: AtomGroup<A>)
        ensures
            r.name_spec() == name,
            r.remark_spec() == remark,
            r.atoms() == Seq::<A>::empty(),
    {
        AtomGroup { name: name, remark: remark, atom_list: Vec::new() }
    }

    /// Appends an atom at the end of the list.
    pub fn add_atom(&mut self, atom: A)
        ensures
            final(self).name_spec() == old(self).name_spec(),
            final(self).remark_spec() == old(self).remark_spec(),
            final(self).atoms() == old(self).atoms().push(atom),
    {
        self.atom_list.push(atom);
    }

    /// The number of atoms.
    pub fn get_number_of_atoms(&self) -> (r: usize)
        ensures
            r == self.atoms().len(),
    {
        self.atom_list.len()
    }

    /// A copy of the atom at `index`.
    pub fn get_atom(&self, index: usize) -> (r: Result<A, MolError>)
        where
            A: Clone,
        ensures
            index < self.atoms().len() <==> r is Ok,
            r matches Ok(a) ==> cloned(self.atoms()[index as int], a),
            r matches Err(e) ==> e == MolError::IndexOutOfRange,
    {
        copy_atom(&self.atom_list, index)
    }

    /// Removes the atom at `index` and returns it; each later atom moves down
    /// one position.
    pub fn remove_atom(&mut self, index: usize) -> (r: Result<A, MolError>)
        ensures
            final(self).name_spec() == old(self).name_spec(),
            final(self).remark_spec() == old(self).remark_spec(),
            index < old(self).atoms().len() <==> r is Ok,
            r matches Ok(a) ==> {
                &&& a == old(self).atoms()[index as int]
                &&& final(self).atoms().len() == old(self).atoms().len() - 1
                &&& forall|k: int| 0 <= k < index ==> final(self).atoms()[k] == old(self).atoms()[k]
                &&& forall|k: int|
                    index <= k < final(self).atoms().len() ==> final(self).atoms()[k]
                        == old(self).atoms()[k + 1]
            },
            r matches Err(e) ==> e == MolError::IndexOutOfRange && final(self).atoms()
                == old(self).atoms(),
    {
        take_atom(&mut self.atom_list, index)
    }

    /// The position of the first atom equal to `atom`.
    pub fn index_of(&self, atom: &A) -> (r: Result<usize, MolError>)
        where
            A: PartialEq,
        ensures
            r matches Ok(k) ==> k < self.atoms().len(),
            r matches Err(e) ==> e == MolError::NotFound,
            A::obeys_eq_spec() ==> match r {
                Ok(k) => is_first_match(self.atoms(), *atom, k as int),
                Err(_) => !has_match(self.atoms(), *atom),
            },
    {
        find_atom(&self.atom_list, atom)
    }
}

} // verus!
