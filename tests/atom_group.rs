use fekit::atom::AtomGroup;
use fekit::error::MolError;

#[derive(Clone, PartialEq, Debug)]
struct Atom {
    center: [f32; 3],
    charge: f32,
    symbol: String,
    remark: String,
}

fn atom(center: [f32; 3], symbol: &str, remark: &str) -> Atom {
    Atom { center, charge: 0.0, symbol: symbol.to_string(), remark: remark.to_string() }
}

#[test]
fn atom_group_init() {
    let atom_group: AtomGroup<Atom> = AtomGroup::new("OH".to_string(), "Alcohol".to_string());

    assert_eq!(atom_group.name, "OH".to_string());
    assert_eq!(atom_group.remark, "Alcohol".to_string());
}

#[test]
fn atom_group_fn() {
    let mut atom_group: AtomGroup<Atom> = AtomGroup::new("OH".to_string(), "Alcohol".to_string());

    atom_group.add_atom(atom([0.0, 0.0, 0.0], "H", "Hydrogen Atom"));
    atom_group.add_atom(atom([1.0, 0.0, 0.0], "O", "Oxygen Atom"));

    let atom_1 = atom_group.get_atom(0).unwrap();
    assert_eq!(atom_1.center[0], 0.0);
    assert_eq!(atom_1.center[1], 0.0);
    assert_eq!(atom_1.center[2], 0.0);
    assert_eq!(atom_1.charge, 0.0);
    assert_eq!(atom_1.symbol, "H".to_string());
    assert_eq!(atom_1.remark, "Hydrogen Atom".to_string());

    let atom_2 = atom_group.get_atom(1).unwrap();
    assert_eq!(atom_2.center[0], 1.0);
    assert_eq!(atom_2.center[1], 0.0);
    assert_eq!(atom_2.center[2], 0.0);
    assert_eq!(atom_2.charge, 0.0);
    assert_eq!(atom_2.symbol, "O".to_string());
    assert_eq!(atom_2.remark, "Oxygen Atom".to_string());

    assert_eq!(atom_group.index_of(&atom_1), Ok(0));
    assert_eq!(atom_group.index_of(&atom_2), Ok(1));

    assert_eq!(atom_group.get_number_of_atoms(), 2);

    let removed_atom = atom_group.remove_atom(0).unwrap();
    assert_eq!(removed_atom.center[0], atom_1.center[0]);
    assert_eq!(removed_atom.center[1], atom_1.center[1]);
    assert_eq!(removed_atom.center[2], atom_1.center[2]);
    assert_eq!(removed_atom.charge, atom_1.charge);
    assert_eq!(removed_atom.symbol, atom_1.symbol);

    assert_eq!(atom_group.get_number_of_atoms(), 1);
}

#[test]
fn atom_group_errors() {
    let mut atom_group: AtomGroup<Atom> = AtomGroup::new("OH".to_string(), "Alcohol".to_string());
    atom_group.add_atom(atom([0.0, 0.0, 0.0], "H", "Hydrogen Atom"));

    assert_eq!(atom_group.get_atom(1), Err(MolError::IndexOutOfRange));
    assert_eq!(atom_group.remove_atom(5), Err(MolError::IndexOutOfRange));
    assert_eq!(atom_group.get_number_of_atoms(), 1);
    // differs from the stored atom only in z
    assert_eq!(atom_group.index_of(&atom([0.0, 0.0, 1.0], "H", "Hydrogen Atom")), Err(MolError::NotFound));
}

#[test]
fn atom_group_index_of_finds_first_match() {
    let mut atom_group: AtomGroup<Atom> = AtomGroup::new("HH".to_string(), String::new());
    atom_group.add_atom(atom([2.0, 0.0, 0.0], "H", "a"));
    atom_group.add_atom(atom([0.0, 0.0, 0.0], "H", "b"));
    atom_group.add_atom(atom([0.0, 0.0, 0.0], "H", "b"));
    assert_eq!(atom_group.index_of(&atom([0.0, 0.0, 0.0], "H", "b")), Ok(1));
}
