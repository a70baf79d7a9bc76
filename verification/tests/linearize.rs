use kimchi_linearization::columns::Column;
use kimchi_linearization::expr::Expr;
use kimchi_linearization::flags::FeatureFlag;
use kimchi_linearization::linearization::{linearize, ConstraintSources, ExprError};
use kimchi_linearization::linearization::expr_linearization;
use kimchi_linearization::polish::{to_polish, PolishToken};

fn add(a: Expr<u64>, b: Expr<u64>) -> Expr<u64> {
    Expr::Add(Box::new(a), Box::new(b))
}

fn mul(a: Expr<u64>, b: Expr<u64>) -> Expr<u64> {
    Expr::Mul(Box::new(a), Box::new(b))
}

#[test]
fn compile_postfix_program() {
    // (w0 + 5 * alpha^2) compiles to postfix order.
    let e = add(
        Expr::Cell(Column::Witness(0)),
        mul(Expr::Constant(5), Expr::Alpha(2)),
    );
    let program = to_polish(e);
    assert_eq!(
        program,
        vec![
            PolishToken::Cell(Column::Witness(0)),
            PolishToken::Constant(5),
            PolishToken::Alpha(2),
            PolishToken::Mul,
            PolishToken::Add,
        ]
    );
}

#[test]
fn compile_conditional_skip() {
    // A guarded subexpression compiles to a skip over its own program.
    let e = Expr::EnabledIf(
        FeatureFlag::Xor,
        Box::new(add(Expr::Constant(3), Expr::One)),
    );
    let program = to_polish(e);
    assert_eq!(
        program,
        vec![
            PolishToken::SkipIf(FeatureFlag::Xor, 3),
            PolishToken::Constant(3),
            PolishToken::One,
            PolishToken::Add,
        ]
    );
}

#[test]
fn linearize_linear_expression() {
    // w0 * 4 + 9 against evaluated set {w0}: the coefficient of w0 is
    // (1 * 4 + 0), the residual (0 * 4 + 9).
    let evaluated = vec![Column::Witness(0)];
    let e = add(
        mul(Expr::Cell(Column::Witness(0)), Expr::Constant(4)),
        Expr::Constant(9),
    );
    let lin = linearize(e, &evaluated).unwrap();
    assert_eq!(lin.index_terms.len(), 1);
    assert_eq!(lin.index_terms[0].0, Column::Witness(0));
    assert_eq!(
        lin.index_terms[0].1,
        add(mul(Expr::One, Expr::Constant(4)), Expr::Zero)
    );
    assert_eq!(
        lin.constant_term,
        add(mul(Expr::Zero, Expr::Constant(4)), Expr::Constant(9))
    );
}

#[test]
fn linearize_keeps_unevaluated_columns_inline() {
    // A column outside the evaluated set stays in the residual.
    let evaluated = vec![Column::Witness(0)];
    let e: Expr<u64> = Expr::Cell(Column::Witness(7));
    let lin = linearize(e, &evaluated).unwrap();
    assert_eq!(lin.index_terms[0].1, Expr::Zero);
    assert_eq!(lin.constant_term, Expr::Cell(Column::Witness(7)));
}

#[test]
fn linearize_rejects_nonlinear_use() {
    // Two evaluated columns multiplied together cannot be linearized.
    let evaluated = vec![Column::Witness(0), Column::Witness(1)];
    let e = mul(
        Expr::Cell(Column::Witness(0)),
        Expr::Cell(Column::Witness(1)),
    );
    assert_eq!(linearize(e, &evaluated), Err(ExprError::IllegalLinearization));
}

#[test]
fn pipeline_rejects_nonlinear_constraint() {
    // A constraint family that multiplies two evaluated columns makes the
    // whole compilation fail.
    let sources = ConstraintSources {
        poseidon: vec![mul(
            Expr::Cell(Column::Witness(0)),
            Expr::Cell(Column::Witness(1)),
        )],
        varbase_mul: vec![],
        complete_add: vec![],
        endo_mul: vec![],
        endo_mul_scalar: vec![],
        chacha0: vec![],
        chacha1: vec![],
        chacha2: vec![],
        chacha_final: vec![],
        range_check0: vec![],
        range_check1: vec![],
        foreign_field_add: vec![],
        foreign_field_mul: vec![],
        xor: vec![],
        generic: vec![],
        lookup: vec![],
    };
    let r = expr_linearization(None, false, sources);
    assert_eq!(r.unwrap_err(), ExprError::IllegalLinearization);
}

#[test]
fn duplicate_is_structural() {
    let e = add(
        Expr::EnabledIf(FeatureFlag::ChaCha, Box::new(Expr::Cell(Column::Z))),
        mul(Expr::Constant(8), Expr::Zero),
    );
    assert_eq!(e.duplicate(), e);
}

#[test]
fn compile_identity_leaves() {
    assert_eq!(to_polish(Expr::<u64>::Zero), vec![PolishToken::Zero]);
    assert_eq!(to_polish(Expr::<u64>::One), vec![PolishToken::One]);
}
