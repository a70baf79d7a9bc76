use kimchi_linearization::columns::{Column, GateType, COLUMNS};
use kimchi_linearization::flags::{FeatureFlags, LookupFeatures, LookupPatterns};
use kimchi_linearization::linearization::linearization_columns;

fn flags_with_patterns(patterns: LookupPatterns, runtime: bool) -> FeatureFlags {
    FeatureFlags {
        chacha: false,
        range_check: false,
        foreign_field_add: false,
        foreign_field_mul: false,
        xor: false,
        lookup_features: LookupFeatures {
            patterns,
            joint_lookup_used: false,
            uses_runtime_tables: runtime,
        },
    }
}

fn no_patterns() -> LookupPatterns {
    LookupPatterns {
        xor: false,
        chacha_final: false,
        lookup_gate: false,
        range_check_gate: false,
        foreign_field_mul_gate: false,
    }
}

#[test]
fn selector_with_absent_flags() {
    // With no configuration the selector behaves as if every lookup feature
    // were enabled: width 15, so Witness(0..15), Coefficient(0..15), the full
    // lookup column set, the permutation accumulator, and the two always-on
    // selectors.
    let cols = linearization_columns(None);
    let mut expected: Vec<Column> = Vec::new();
    for i in 0..COLUMNS {
        expected.push(Column::Witness(i));
    }
    for i in 0..COLUMNS {
        expected.push(Column::Coefficient(i));
    }
    for i in 0..=4 {
        expected.push(Column::LookupSorted(i));
    }
    expected.push(Column::LookupAggreg);
    expected.push(Column::LookupTable);
    expected.push(Column::LookupRuntimeTable);
    expected.push(Column::Z);
    expected.push(Column::Index(GateType::Poseidon));
    expected.push(Column::Index(GateType::Generic));
    assert_eq!(cols, expected);
    assert_eq!(cols.len(), 41);
}

#[test]
fn selector_without_lookups() {
    // No lookup pattern enabled: no lookup columns at all, but always the
    // witness columns, the coefficient columns, the permutation accumulator
    // and the two selectors.
    let flags = flags_with_patterns(no_patterns(), false);
    let cols = linearization_columns(Some(&flags));
    assert_eq!(cols.len(), 2 * COLUMNS + 3);
    for i in 0..COLUMNS {
        assert!(cols.contains(&Column::Witness(i)));
        assert!(cols.contains(&Column::Coefficient(i)));
    }
    assert!(cols.contains(&Column::Z));
    assert!(cols.contains(&Column::Index(GateType::Poseidon)));
    assert!(cols.contains(&Column::Index(GateType::Generic)));
    assert!(!cols.contains(&Column::LookupAggreg));
    assert!(!cols.contains(&Column::LookupTable));
    assert!(!cols.contains(&Column::LookupSorted(0)));
    assert!(!cols.contains(&Column::LookupRuntimeTable));
}

#[test]
fn selector_with_lookup_gate_only() {
    // Only the plain lookup gate: three lookups per row, so the sorted
    // polynomials are LookupSorted(0..=3); no runtime table.
    let mut patterns = no_patterns();
    patterns.lookup_gate = true;
    let flags = flags_with_patterns(patterns, false);
    let cols = linearization_columns(Some(&flags));
    for i in 0..=3 {
        assert!(cols.contains(&Column::LookupSorted(i)));
    }
    assert!(!cols.contains(&Column::LookupSorted(4)));
    assert!(cols.contains(&Column::LookupAggreg));
    assert!(cols.contains(&Column::LookupTable));
    assert!(!cols.contains(&Column::LookupRuntimeTable));
}

#[test]
fn selector_runtime_tables() {
    let mut patterns = no_patterns();
    patterns.xor = true;
    let flags = flags_with_patterns(patterns, true);
    let cols = linearization_columns(Some(&flags));
    for i in 0..=4 {
        assert!(cols.contains(&Column::LookupSorted(i)));
    }
    assert!(cols.contains(&Column::LookupRuntimeTable));
}

#[test]
fn selector_has_no_duplicates() {
    let cols = linearization_columns(None);
    for i in 0..cols.len() {
        for j in (i + 1)..cols.len() {
            assert_ne!(cols[i], cols[j]);
        }
    }
}
