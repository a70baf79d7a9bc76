use kimchi_linearization::alphas::{Alphas, ArgumentType};
use kimchi_linearization::columns::GateType;

#[test]
fn registration_scenario() {
    // A base-arithmetic family of 5 constraints, then a permutation family
    // of 3: the ranges are [0, 5) and [5, 8).
    let mut a = Alphas::new();
    a.register(ArgumentType::Gate(GateType::Generic), 5);
    a.register(ArgumentType::Permutation, 3);
    assert_eq!(
        a.get_exponents(ArgumentType::Gate(GateType::Generic), 5),
        Some((0, 5))
    );
    assert_eq!(a.get_exponents(ArgumentType::Permutation, 3), Some((5, 8)));
    // Asking for more exponents than were registered fails.
    assert_eq!(a.get_exponents(ArgumentType::Permutation, 4), None);
}

#[test]
fn two_families_total_span() {
    // Two disjoint families of 3 and 4 constraints span exactly 7 exponents.
    let mut a = Alphas::new();
    a.register(ArgumentType::Gate(GateType::Zero), 3);
    a.register(ArgumentType::Lookup, 4);
    assert_eq!(a.total_registered(), 7);
    assert_eq!(a.get_exponents(ArgumentType::Gate(GateType::Zero), 3), Some((0, 3)));
    assert_eq!(a.get_exponents(ArgumentType::Lookup, 4), Some((3, 7)));
}

#[test]
fn first_family_starts_at_zero() {
    let mut a = Alphas::new();
    a.register(ArgumentType::Gate(GateType::Generic), 21);
    let range = a.get_exponents(ArgumentType::Gate(GateType::Generic), 1).unwrap();
    assert_eq!(range.0, 0);
}

#[test]
fn gate_families_share_one_range() {
    // All gate kinds draw from the one range registered under the canonical key.
    let mut a = Alphas::new();
    a.register(ArgumentType::Gate(GateType::Zero), 21);
    assert_eq!(
        a.get_exponents(ArgumentType::Gate(GateType::Poseidon), 15),
        Some((0, 15))
    );
    assert_eq!(
        a.get_exponents(ArgumentType::Gate(GateType::CompleteAdd), 3),
        Some((0, 3))
    );
}

#[test]
fn unregistered_family_fails() {
    let a = Alphas::new();
    assert_eq!(a.get_exponents(ArgumentType::Lookup, 1), None);
    let mut b = Alphas::new();
    b.register(ArgumentType::Permutation, 2);
    assert_eq!(b.get_exponents(ArgumentType::Lookup, 1), None);
}

#[test]
fn ranges_are_contiguous_and_disjoint() {
    // Successive registrations tile [0, total) in order, with no gaps.
    let mut a = Alphas::new();
    a.register(ArgumentType::Gate(GateType::Zero), 2);
    a.register(ArgumentType::Permutation, 5);
    a.register(ArgumentType::Lookup, 1);
    assert_eq!(a.get_exponents(ArgumentType::Gate(GateType::Zero), 2), Some((0, 2)));
    assert_eq!(a.get_exponents(ArgumentType::Permutation, 5), Some((2, 7)));
    assert_eq!(a.get_exponents(ArgumentType::Lookup, 1), Some((7, 8)));
    assert_eq!(a.total_registered(), 8);
}
