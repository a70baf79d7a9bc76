use kimchi_linearization::alphas::ArgumentType;
use kimchi_linearization::columns::{Column, GateType};
use kimchi_linearization::expr::Expr;
use kimchi_linearization::flags::{FeatureFlag, FeatureFlags, LookupFeatures, LookupPatterns};
use kimchi_linearization::linearization::{constraints_expr, expr_linearization, ConstraintSources};

fn cell(i: usize) -> Expr<u64> {
    Expr::Cell(Column::Witness(i))
}

fn sources() -> ConstraintSources<u64> {
    ConstraintSources {
        poseidon: vec![cell(0), cell(1)],
        varbase_mul: vec![cell(2), Expr::Constant(3)],
        complete_add: vec![cell(3)],
        endo_mul: vec![Expr::Constant(4)],
        endo_mul_scalar: vec![cell(4)],
        chacha0: vec![cell(5)],
        chacha1: vec![cell(6)],
        chacha2: vec![Expr::Constant(7)],
        chacha_final: vec![cell(7)],
        range_check0: vec![cell(8)],
        range_check1: vec![Expr::Constant(9)],
        foreign_field_add: vec![cell(9)],
        foreign_field_mul: vec![cell(10)],
        xor: vec![Expr::Constant(11)],
        generic: vec![cell(11), cell(12), Expr::Constant(1)],
        lookup: vec![cell(13), cell(14)],
    }
}

fn all_off() -> FeatureFlags {
    FeatureFlags {
        chacha: false,
        range_check: false,
        foreign_field_add: false,
        foreign_field_mul: false,
        xor: false,
        lookup_features: LookupFeatures {
            patterns: LookupPatterns {
                xor: false,
                chacha_final: false,
                lookup_gate: false,
                range_check_gate: false,
                foreign_field_mul_gate: false,
            },
            joint_lookup_used: false,
            uses_runtime_tables: false,
        },
    }
}

fn has_conditional(e: &Expr<u64>, f: FeatureFlag) -> bool {
    match e {
        Expr::Add(a, b) => has_conditional(a, f) || has_conditional(b, f),
        Expr::Mul(a, b) => has_conditional(a, f) || has_conditional(b, f),
        Expr::EnabledIf(g, a) => *g == f || has_conditional(a, f),
        _ => false,
    }
}

const ALL_FLAGS: [FeatureFlag; 6] = [
    FeatureFlag::ChaCha,
    FeatureFlag::RangeCheck,
    FeatureFlag::ForeignFieldAdd,
    FeatureFlag::ForeignFieldMul,
    FeatureFlag::Xor,
    FeatureFlag::LookupTables,
];

#[test]
fn concrete_flags_leave_no_conditionals() {
    // With a concrete configuration a disabled family is omitted entirely
    // and an enabled one included plainly: no conditional node survives.
    let flags = all_off();
    let (expr, _) = constraints_expr(Some(&flags), true, sources());
    for f in ALL_FLAGS {
        assert!(!has_conditional(&expr, f));
    }
    let mut on = all_off();
    on.chacha = true;
    on.xor = true;
    let (expr, _) = constraints_expr(Some(&on), true, sources());
    for f in ALL_FLAGS {
        assert!(!has_conditional(&expr, f));
    }
}

#[test]
fn absent_flags_guard_every_family() {
    // With no configuration every optional family sits behind its own
    // conditional node.
    let (expr, _) = constraints_expr(None, true, sources());
    for f in ALL_FLAGS {
        assert!(has_conditional(&expr, f));
    }
}

#[test]
fn registry_layout_after_composition() {
    // The largest gate family here has 3 constraints (the base-arithmetic
    // list), the permutation argument always 3, the lookup list 2: the
    // ranges are [0,3), [3,6), [6,8).
    let (_, alphas) = constraints_expr(None, true, sources());
    assert_eq!(
        alphas.get_exponents(ArgumentType::Gate(GateType::Generic), 3),
        Some((0, 3))
    );
    assert_eq!(alphas.get_exponents(ArgumentType::Permutation, 3), Some((3, 6)));
    assert_eq!(alphas.get_exponents(ArgumentType::Lookup, 2), Some((6, 8)));
    assert_eq!(alphas.total_registered(), 8);
    // The base-arithmetic family's first constraint sits at exponent zero.
    let generic = alphas
        .get_exponents(ArgumentType::Gate(GateType::Generic), 1)
        .unwrap();
    assert_eq!(generic.0, 0);
}

#[test]
fn composition_is_deterministic() {
    // Two runs on identical inputs give byte-identical compiled programs
    // and identical registries.
    for flags in [None, Some(all_off())] {
        let (lin1, reg1) = expr_linearization(flags.as_ref(), true, sources()).unwrap();
        let (lin2, reg2) = expr_linearization(flags.as_ref(), true, sources()).unwrap();
        assert_eq!(lin1.constant_term, lin2.constant_term);
        assert_eq!(lin1.index_terms, lin2.index_terms);
        assert_eq!(reg1.total_registered(), reg2.total_registered());
        assert_eq!(
            reg1.get_exponents(ArgumentType::Permutation, 3),
            reg2.get_exponents(ArgumentType::Permutation, 3)
        );
    }
}

#[test]
fn pipeline_output_shape() {
    // One compiled coefficient program per evaluated column, in the
    // selector's order.
    let (lin, _) = expr_linearization(None, true, sources()).unwrap();
    assert_eq!(lin.index_terms.len(), 41);
    assert_eq!(lin.index_terms[0].0, Column::Witness(0));
    assert_eq!(lin.index_terms[40].0, Column::Index(GateType::Generic));
    assert!(!lin.constant_term.is_empty());
}
