//! The heart of the compiler: composition of every constraint family into
//! one joint expression, the choice of the evaluated columns, and the
//! partition of the joint expression into a linear combination of those
//! columns — per-column coefficient programs plus a residual program.

use vstd::prelude::*;

use crate::alphas::{Alphas, ArgumentType};
use crate::columns::{Column, GateType, COLUMNS};
use crate::expr::{
    combine_constraints, combine_spec, conditional_free, contains_column, eval_expr,
    has_conditional_for, lemma_combine_conditional_free, lemma_conditional_free_has_none,
    references_column, references_column_in, Expr, Valuation,
};
use crate::flags::{FeatureFlag, FeatureFlags, LookupPatterns};
use crate::polish::{polish_spec, polish_wf, to_polish, PolishToken};

verus! {

/// The one failure of this compiler: the joint expression reads an evaluated
/// column non-linearly (for instance multiplies it with another evaluated
/// column), so it cannot be split into per-column linear coefficients. This
/// marks a mis-authored constraint family and aborts setup.
#[derive(Clone, Copy, PartialEq, Eq, Structural, Debug)]
pub enum ExprError {
    IllegalLinearization,
}

/// A row of all-zero coefficients, one per evaluated column.
pub open spec fn zeros_row<C>(n: int) -> Seq<Expr<C>> {
    Seq::new(n as nat, |i: int| Expr::Zero)
}

/// The coefficient row of a bare evaluated column: one exactly at that
/// column, zero elsewhere.
pub open spec fn unit_row<C>(ev: Seq<Column>, col: Column) -> Seq<Expr<C>> {
    Seq::new(
        ev.len(),
        |i: int|
            if ev[i] == col {
                Expr::One
            } else {
                Expr::Zero
            },
    )
}

/// Pointwise sum of two coefficient rows.
pub open spec fn add_rows<C>(a: Seq<Expr<C>>, b: Seq<Expr<C>>) -> Seq<Expr<C>> {
    Seq::new(a.len(), |i: int| Expr::Add(Box::new(a[i]), Box::new(b[i])))
}

/// A coefficient row multiplied on the right by a scalar expression.
pub open spec fn scale_row<C>(a: Seq<Expr<C>>, b: Expr<C>) -> Seq<Expr<C>> {
    Seq::new(a.len(), |i: int| Expr::Mul(Box::new(a[i]), Box::new(b)))
}

/// A coefficient row multiplied on the left by a scalar expression.
pub open spec fn scale_row_left<C>(b: Expr<C>, a: Seq<Expr<C>>) -> Seq<Expr<C>> {
    Seq::new(a.len(), |i: int| Expr::Mul(Box::new(b), Box::new(a[i])))
}

/// A coefficient row with every entry guarded by a feature flag.
pub open spec fn guard_row<C>(f: FeatureFlag, a: Seq<Expr<C>>) -> Seq<Expr<C>> {
    Seq::new(a.len(), |i: int| Expr::EnabledIf(f, Box::new(a[i])))
}

/// The linearization of an expression against an evaluated-column sequence:
/// one coefficient expression per evaluated column, plus a residual that
/// reads no evaluated column. `None` when the expression is not linear in
/// the evaluated columns.
pub open spec fn lin_spec<C>(e: Expr<C>, ev: Seq<Column>) -> Option<(Seq<Expr<C>>, Expr<C>)>
    decreases e,
{
    match e {
        Expr::Cell(col) => if ev.contains(col) {
            Some((unit_row(ev, col), Expr::Zero))
        } else {
            Some((zeros_row(ev.len() as int), Expr::Cell(col)))
        },
        Expr::Add(a, b) => match (lin_spec(*a, ev), lin_spec(*b, ev)) {
            (Some((ca, ka)), Some((cb, kb))) => Some(
                (add_rows(ca, cb), Expr::Add(Box::new(ka), Box::new(kb))),
            ),
            _ => None,
        },
        Expr::Mul(a, b) => if !references_column_in(*b, ev) {
            match lin_spec(*a, ev) {
                Some((ca, ka)) => Some((scale_row(ca, *b), Expr::Mul(Box::new(ka), b))),
                None => None,
            }
        } else if !references_column_in(*a, ev) {
            match lin_spec(*b, ev) {
                Some((cb, kb)) => Some((scale_row_left(*a, cb), Expr::Mul(a, Box::new(kb)))),
                None => None,
            }
        } else {
            None
        },
        Expr::EnabledIf(f, a) => match lin_spec(*a, ev) {
            Some((ca, ka)) => Some((guard_row(f, ca), Expr::EnabledIf(f, Box::new(ka)))),
            None => None,
        },
        _ => Some((zeros_row(ev.len() as int), e)),
    }
}

/// The value of a coefficient row against its columns: the sum over the row
/// of coefficient times column value.
pub open spec fn row_sum<C>(coeffs: Seq<Expr<C>>, ev: Seq<Column>, v: Valuation<C>) -> int
    decreases coeffs.len(),
{
    if coeffs.len() == 0 {
        0
    } else {
        row_sum(coeffs.drop_last(), ev.drop_last(), v) + eval_expr(coeffs.last(), v) * v.cols[
            ev.last()
        ]
    }
}

proof fn lemma_row_sum_zeros<C>(ev: Seq<Column>, v: Valuation<C>)
    ensures
        row_sum(zeros_row::<C>(ev.len() as int), ev, v) == 0,
    decreases ev.len(),
{
    if ev.len() > 0 {
        assert(zeros_row::<C>(ev.len() as int).drop_last() =~= zeros_row::<C>(
            ev.drop_last().len() as int,
        ));
        lemma_row_sum_zeros::<C>(ev.drop_last(), v);
        assert(zeros_row::<C>(ev.len() as int).last() == Expr::<C>::Zero);
    }
}

proof fn lemma_row_sum_unit_absent<C>(ev: Seq<Column>, col: Column, v: Valuation<C>)
    requires
        !ev.contains(col),
    ensures
        row_sum(unit_row::<C>(ev, col), ev, v) == 0,
{
    assert(unit_row::<C>(ev, col) =~= zeros_row::<C>(ev.len() as int));
    lemma_row_sum_zeros::<C>(ev, v);
}

proof fn lemma_row_sum_unit<C>(ev: Seq<Column>, col: Column, v: Valuation<C>)
    requires
        ev.no_duplicates(),
        ev.contains(col),
    ensures
        row_sum(unit_row::<C>(ev, col), ev, v) == v.cols[col],
    decreases ev.len(),
{
    let row = unit_row::<C>(ev, col);
    assert(row.drop_last() =~= unit_row::<C>(ev.drop_last(), col));
    if ev.last() == col {
        assert(!ev.drop_last().contains(col)) by {
            if ev.drop_last().contains(col) {
                let i = choose|i: int| 0 <= i < ev.drop_last().len() && ev.drop_last()[i] == col;
                assert(ev[i] == ev[ev.len() - 1]);
            }
        }
        lemma_row_sum_unit_absent::<C>(ev.drop_last(), col, v);
        assert(row.last() == Expr::<C>::One);
    } else {
        assert(ev.drop_last().contains(col)) by {
            let i = choose|i: int| 0 <= i < ev.len() && ev[i] == col;
            assert(i < ev.len() - 1);
            assert(ev.drop_last()[i] == col);
        }
        lemma_row_sum_unit::<C>(ev.drop_last(), col, v);
        assert(row.last() == Expr::<C>::Zero);
    }
}

proof fn lemma_row_sum_add<C>(a: Seq<Expr<C>>, b: Seq<Expr<C>>, ev: Seq<Column>, v: Valuation<C>)
    requires
        a.len() == ev.len(),
        b.len() == ev.len(),
    ensures
        row_sum(add_rows(a, b), ev, v) == row_sum(a, ev, v) + row_sum(b, ev, v),
    decreases ev.len(),
{
    if ev.len() > 0 {
        assert(add_rows(a, b).drop_last() =~= add_rows(a.drop_last(), b.drop_last()));
        lemma_row_sum_add(a.drop_last(), b.drop_last(), ev.drop_last(), v);
        let x = eval_expr(a.last(), v);
        let y = eval_expr(b.last(), v);
        let c = v.cols[ev.last()];
        assert(add_rows(a, b).last() == Expr::Add(Box::new(a.last()), Box::new(b.last())));
        assert(eval_expr(add_rows(a, b).last(), v) == x + y);
        assert((x + y) * c == x * c + y * c) by (nonlinear_arith);
    }
}

proof fn lemma_row_sum_scale<C>(a: Seq<Expr<C>>, b: Expr<C>, ev: Seq<Column>, v: Valuation<C>)
    requires
        a.len() == ev.len(),
    ensures
        row_sum(scale_row(a, b), ev, v) == row_sum(a, ev, v) * eval_expr(b, v),
    decreases ev.len(),
{
    let bv = eval_expr(b, v);
    if ev.len() == 0 {
        assert(row_sum(scale_row(a, b), ev, v) == 0);
    } else {
        assert(scale_row(a, b).drop_last() =~= scale_row(a.drop_last(), b));
        lemma_row_sum_scale(a.drop_last(), b, ev.drop_last(), v);
        let s = row_sum(a.drop_last(), ev.drop_last(), v);
        let x = eval_expr(a.last(), v);
        let c = v.cols[ev.last()];
        assert(scale_row(a, b).last() == Expr::Mul(Box::new(a.last()), Box::new(b)));
        assert(eval_expr(scale_row(a, b).last(), v) == x * bv);
        assert(s * bv + (x * bv) * c == (s + x * c) * bv) by (nonlinear_arith);
    }
}

proof fn lemma_row_sum_scale_left<C>(b: Expr<C>, a: Seq<Expr<C>>, ev: Seq<Column>, v: Valuation<C>)
    requires
        a.len() == ev.len(),
    ensures
        row_sum(scale_row_left(b, a), ev, v) == eval_expr(b, v) * row_sum(a, ev, v),
    decreases ev.len(),
{
    let bv = eval_expr(b, v);
    if ev.len() == 0 {
        assert(row_sum(scale_row_left(b, a), ev, v) == 0);
    } else {
        assert(scale_row_left(b, a).drop_last() =~= scale_row_left(b, a.drop_last()));
        lemma_row_sum_scale_left(b, a.drop_last(), ev.drop_last(), v);
        let s = row_sum(a.drop_last(), ev.drop_last(), v);
        let x = eval_expr(a.last(), v);
        let c = v.cols[ev.last()];
        assert(scale_row_left(b, a).last() == Expr::Mul(Box::new(b), Box::new(a.last())));
        assert(eval_expr(scale_row_left(b, a).last(), v) == bv * x);
        assert(bv * s + (bv * x) * c == bv * (s + x * c)) by (nonlinear_arith);
    }
}

proof fn lemma_row_sum_guard<C>(f: FeatureFlag, a: Seq<Expr<C>>, ev: Seq<Column>, v: Valuation<C>)
    requires
        a.len() == ev.len(),
    ensures
        row_sum(guard_row(f, a), ev, v) == if v.flags[f] {
            row_sum(a, ev, v)
        } else {
            0
        },
    decreases ev.len(),
{
    if ev.len() > 0 {
        assert(guard_row(f, a).drop_last() =~= guard_row(f, a.drop_last()));
        lemma_row_sum_guard(f, a.drop_last(), ev.drop_last(), v);
        assert(guard_row(f, a).last() == Expr::EnabledIf(f, Box::new(a.last())));
    }
}

/// Soundness of the linearization: whenever it succeeds, the source
/// expression equals, under every valuation, the sum over the evaluated
/// columns of coefficient times column value, plus the residual.
pub proof fn lemma_lin_spec_correct<C>(
    e: Expr<C>,
    ev: Seq<Column>,
    coeffs: Seq<Expr<C>>,
    k: Expr<C>,
    v: Valuation<C>,
)
    requires
        ev.no_duplicates(),
        lin_spec(e, ev) == Some((coeffs, k)),
    ensures
        coeffs.len() == ev.len(),
        eval_expr(e, v) == row_sum(coeffs, ev, v) + eval_expr(k, v),
    decreases e,
{
    match e {
        Expr::Cell(col) => {
            if ev.contains(col) {
                lemma_row_sum_unit::<C>(ev, col, v);
            } else {
                lemma_row_sum_zeros::<C>(ev, v);
            }
        },
        Expr::Add(a, b) => {
            if let Some((ca, ka)) = lin_spec(*a, ev) {
                if let Some((cb, kb)) = lin_spec(*b, ev) {
                    lemma_lin_spec_correct(*a, ev, ca, ka, v);
                    lemma_lin_spec_correct(*b, ev, cb, kb, v);
                    lemma_row_sum_add(ca, cb, ev, v);
                }
            }
        },
        Expr::Mul(a, b) => {
            if !references_column_in(*b, ev) {
                if let Some((ca, ka)) = lin_spec(*a, ev) {
                    lemma_lin_spec_correct(*a, ev, ca, ka, v);
                    lemma_row_sum_scale(ca, *b, ev, v);
                    let bv = eval_expr(*b, v);
                    assert((row_sum(ca, ev, v) + eval_expr(ka, v)) * bv == row_sum(ca, ev, v) * bv
                        + eval_expr(ka, v) * bv) by (nonlinear_arith);
                }
            } else if !references_column_in(*a, ev) {
                if let Some((cb, kb)) = lin_spec(*b, ev) {
                    lemma_lin_spec_correct(*b, ev, cb, kb, v);
                    lemma_row_sum_scale_left(*a, cb, ev, v);
                    let av = eval_expr(*a, v);
                    assert(av * (row_sum(cb, ev, v) + eval_expr(kb, v)) == av * row_sum(cb, ev, v)
                        + av * eval_expr(kb, v)) by (nonlinear_arith);
                }
            }
        },
        Expr::EnabledIf(f, a) => {
            if let Some((ca, ka)) = lin_spec(*a, ev) {
                lemma_lin_spec_correct(*a, ev, ca, ka, v);
                lemma_row_sum_guard(f, ca, ev, v);
            }
        },
        _ => {
            lemma_row_sum_zeros::<C>(ev, v);
        },
    }
}

/// A successful linearization has exactly one coefficient per evaluated
/// column.
pub proof fn lemma_lin_spec_len<C>(e: Expr<C>, ev: Seq<Column>, coeffs: Seq<Expr<C>>, k: Expr<C>)
    requires
        lin_spec(e, ev) == Some((coeffs, k)),
    ensures
        coeffs.len() == ev.len(),
    decreases e,
{
    match e {
        Expr::Add(a, b) => {
            if let Some((ca, ka)) = lin_spec(*a, ev) {
                if let Some((cb, kb)) = lin_spec(*b, ev) {
                    lemma_lin_spec_len(*a, ev, ca, ka);
                }
            }
        },
        Expr::Mul(a, b) => {
            if !references_column_in(*b, ev) {
                if let Some((ca, ka)) = lin_spec(*a, ev) {
                    lemma_lin_spec_len(*a, ev, ca, ka);
                }
            } else if !references_column_in(*a, ev) {
                if let Some((cb, kb)) = lin_spec(*b, ev) {
                    lemma_lin_spec_len(*b, ev, cb, kb);
                }
            }
        },
        Expr::EnabledIf(f, a) => {
            if let Some((ca, ka)) = lin_spec(*a, ev) {
                lemma_lin_spec_len(*a, ev, ca, ka);
            }
        },
        _ => {},
    }
}

fn zeros_vec<C>(n: usize) -> (r: Vec<Expr<C>>)
    ensures
        r@ == zeros_row::<C>(n as int),
{
    let mut r: Vec<Expr<C>> = Vec::new();
    let mut i: usize = 0;
    while i < n
        invariant
            i <= n,
            r@.len() == i,
            forall|j: int| 0 <= j < i ==> r@[j] == Expr::<C>::Zero,
        decreases n - i,
    {
        r.push(Expr::Zero);
        i = i + 1;
    }
    proof {
        assert(r@ =~= zeros_row::<C>(n as int));
    }
    r
}

fn unit_vec<C>(ev: &Vec<Column>, col: Column) -> (r: Vec<Expr<C>>)
    ensures
        r@ == unit_row::<C>(ev@, col),
{
    let mut r: Vec<Expr<C>> = Vec::new();
    let mut i: usize = 0;
    while i < ev.len()
        invariant
            i <= ev@.len(),
            r@.len() == i,
            forall|j: int|
                0 <= j < i ==> r@[j] == (if ev@[j] == col {
                    Expr::<C>::One
                } else {
                    Expr::<C>::Zero
                }),
        decreases ev@.len() - i,
    {
        if ev[i] == col {
            r.push(Expr::One);
        } else {
            r.push(Expr::Zero);
        }
        i = i + 1;
    }
    proof {
        assert(r@ =~= unit_row::<C>(ev@, col));
    }
    r
}

fn add_vecs<C>(a: Vec<Expr<C>>, b: Vec<Expr<C>>) -> (r: Vec<Expr<C>>)
    requires
        a@.len() == b@.len(),
    ensures
        r@ == add_rows(a@, b@),
{
    let ghost ga = a@;
    let ghost gb = b@;
    let mut a = a;
    let mut b = b;
    let mut r: Vec<Expr<C>> = Vec::new();
    let mut i: usize = 0;
    let total: usize = a.len();
    proof {
        assert(ga.len() == total as int);
    }
    while a.len() > 0
        invariant
            ga.len() <= usize::MAX,
            i + a@.len() == ga.len(),
            b@.len() == a@.len(),
            a@ =~= ga.skip(i as int),
            b@ =~= gb.skip(i as int),
            gb.len() == ga.len(),
            r@.len() == i,
            forall|j: int|
                0 <= j < i ==> r@[j] == Expr::Add(Box::new(ga[j]), Box::new(gb[j])),
        decreases a@.len(),
    {
        let x = a.remove(0);
        let y = b.remove(0);
        proof {
            assert(x == ga[i as int]);
            assert(y == gb[i as int]);
        }
        r.push(Expr::Add(Box::new(x), Box::new(y)));
        i = i + 1;
    }
    proof {
        assert(r@ =~= add_rows(ga, gb));
    }
    r
}

fn scale_vec<C: Copy>(a: Vec<Expr<C>>, b: &Expr<C>) -> (r: Vec<Expr<C>>)
    ensures
        r@ == scale_row(a@, *b),
{
    let ghost ga = a@;
    let mut a = a;
    let mut r: Vec<Expr<C>> = Vec::new();
    let mut i: usize = 0;
    let total: usize = a.len();
    proof {
        assert(ga.len() == total as int);
    }
    while a.len() > 0
        invariant
            ga.len() <= usize::MAX,
            i + a@.len() == ga.len(),
            a@ =~= ga.skip(i as int),
            r@.len() == i,
            forall|j: int| 0 <= j < i ==> r@[j] == Expr::Mul(Box::new(ga[j]), Box::new(*b)),
        decreases a@.len(),
    {
        let x = a.remove(0);
        proof {
            assert(x == ga[i as int]);
        }
        r.push(Expr::Mul(Box::new(x), Box::new(b.duplicate())));
        i = i + 1;
    }
    proof {
        assert(r@ =~= scale_row(ga, *b));
    }
    r
}

fn scale_vec_left<C: Copy>(b: &Expr<C>, a: Vec<Expr<C>>) -> (r: Vec<Expr<C>>)
    ensures
        r@ == scale_row_left(*b, a@),
{
    let ghost ga = a@;
    let mut a = a;
    let mut r: Vec<Expr<C>> = Vec::new();
    let mut i: usize = 0;
    let total: usize = a.len();
    proof {
        assert(ga.len() == total as int);
    }
    while a.len() > 0
        invariant
            ga.len() <= usize::MAX,
            i + a@.len() == ga.len(),
            a@ =~= ga.skip(i as int),
            r@.len() == i,
            forall|j: int| 0 <= j < i ==> r@[j] == Expr::Mul(Box::new(*b), Box::new(ga[j])),
        decreases a@.len(),
    {
        let x = a.remove(0);
        proof {
            assert(x == ga[i as int]);
        }
        r.push(Expr::Mul(Box::new(b.duplicate()), Box::new(x)));
        i = i + 1;
    }
    proof {
        assert(r@ =~= scale_row_left(*b, ga));
    }
    r
}

fn guard_vec<C>(f: FeatureFlag, a: Vec<Expr<C>>) -> (r: Vec<Expr<C>>)
    ensures
        r@ == guard_row(f, a@),
{
    let ghost ga = a@;
    let mut a = a;
    let mut r: Vec<Expr<C>> = Vec::new();
    let mut i: usize = 0;
    let total: usize = a.len();
    proof {
        assert(ga.len() == total as int);
    }
    while a.len() > 0
        invariant
            ga.len() <= usize::MAX,
            i + a@.len() == ga.len(),
            a@ =~= ga.skip(i as int),
            r@.len() == i,
            forall|j: int| 0 <= j < i ==> r@[j] == Expr::EnabledIf(f, Box::new(ga[j])),
        decreases a@.len(),
    {
        let x = a.remove(0);
        proof {
            assert(x == ga[i as int]);
        }
        r.push(Expr::EnabledIf(f, Box::new(x)));
        i = i + 1;
    }
    proof {
        assert(r@ =~= guard_row(f, ga));
    }
    r
}

/// Splits an expression into one coefficient per evaluated column plus a
/// residual, or fails when an evaluated column is read non-linearly.
fn linearize_parts<C: Copy>(e: Expr<C>, evaluated: &Vec<Column>) -> (r: Result<
    (Vec<Expr<C>>, Expr<C>),
    ExprError,
>)
    ensures
        match r {
            Ok(p) => lin_spec(e, evaluated@) == Some((p.0@, p.1)),
            Err(_) => lin_spec(e, evaluated@) is None,
        },
    decreases e,
{
    match e {
        Expr::Constant(c) => Ok((zeros_vec(evaluated.len()), Expr::Constant(c))),
        Expr::Alpha(k) => Ok((zeros_vec(evaluated.len()), Expr::Alpha(k))),
        Expr::Zero => Ok((zeros_vec(evaluated.len()), Expr::Zero)),
        Expr::One => Ok((zeros_vec(evaluated.len()), Expr::One)),
        Expr::Cell(col) => {
            if contains_column(evaluated, col) {
                Ok((unit_vec(evaluated, col), Expr::Zero))
            } else {
                Ok((zeros_vec(evaluated.len()), Expr::Cell(col)))
            }
        },
        Expr::Add(a, b) => {
            let ghost ea = *a;
            let ghost eb = *b;
            let (ca, ka) = match linearize_parts(*a, evaluated) {
                Ok(p) => p,
                Err(err) => {
                    return Err(err);
                },
            };
            let (cb, kb) = match linearize_parts(*b, evaluated) {
                Ok(p) => p,
                Err(err) => {
                    return Err(err);
                },
            };
            proof {
                lemma_lin_spec_len(ea, evaluated@, ca@, ka);
                lemma_lin_spec_len(eb, evaluated@, cb@, kb);
            }
            Ok((add_vecs(ca, cb), Expr::Add(Box::new(ka), Box::new(kb))))
        },
        Expr::Mul(a, b) => {
            if !references_column(&*b, evaluated) {
                let (ca, ka) = match linearize_parts(*a, evaluated) {
                    Ok(p) => p,
                    Err(err) => {
                        return Err(err);
                    },
                };
                let coeffs = scale_vec(ca, &*b);
                Ok((coeffs, Expr::Mul(Box::new(ka), b)))
            } else if !references_column(&*a, evaluated) {
                let (cb, kb) = match linearize_parts(*b, evaluated) {
                    Ok(p) => p,
                    Err(err) => {
                        return Err(err);
                    },
                };
                let coeffs = scale_vec_left(&*a, cb);
                Ok((coeffs, Expr::Mul(a, Box::new(kb))))
            } else {
                Err(ExprError::IllegalLinearization)
            }
        },
        Expr::EnabledIf(f, a) => {
            let (ca, ka) = match linearize_parts(*a, evaluated) {
                Ok(p) => p,
                Err(err) => {
                    return Err(err);
                },
            };
            Ok((guard_vec(f, ca), Expr::EnabledIf(f, Box::new(ka))))
        },
    }
}


/// The configuration a possibly-absent flags argument resolves to: an absent
/// configuration behaves as if every optional family were enabled, since the
/// joint expression can still reference them through conditional nodes.
pub open spec fn resolved_flags(flags: Option<FeatureFlags>) -> FeatureFlags {
    match flags {
        Some(f) => f,
        None => FeatureFlags::all_enabled_spec(),
    }
}

/// The view of a borrowed optional flags argument.
pub open spec fn opt_flags_view(flags: Option<&FeatureFlags>) -> Option<FeatureFlags> {
    match flags {
        Some(f) => Some(*f),
        None => None,
    }
}

/// Whether the lookup columns take part in the linearization: they do exactly
/// when some lookup pattern is enabled.
pub open spec fn lookup_columns_used(f: FeatureFlags) -> bool {
    f.lookup_features.patterns != LookupPatterns::all_disabled()
}

/// Membership in the evaluated-column set, as a predicate.
pub open spec fn is_linearization_column(f: FeatureFlags, c: Column) -> bool {
    match c {
        Column::Witness(i) => i < COLUMNS,
        Column::Coefficient(i) => i < COLUMNS,
        Column::Z => true,
        Column::Index(g) => g == GateType::Poseidon || g == GateType::Generic,
        Column::LookupSorted(i) => lookup_columns_used(f) && i
            <= f.lookup_features.patterns.max_lookups_per_row_spec(),
        Column::LookupAggreg => lookup_columns_used(f),
        Column::LookupTable => lookup_columns_used(f),
        Column::LookupRuntimeTable => lookup_columns_used(f)
            && f.lookup_features.uses_runtime_tables,
    }
}

pub open spec fn witness_columns_seq() -> Seq<Column> {
    Seq::new(COLUMNS as nat, |i: int| Column::Witness(i as usize))
}

pub open spec fn coefficient_columns_seq() -> Seq<Column> {
    Seq::new(COLUMNS as nat, |i: int| Column::Coefficient(i as usize))
}

pub open spec fn lookup_columns_seq(f: FeatureFlags) -> Seq<Column> {
    if lookup_columns_used(f) {
        Seq::new(
            (f.lookup_features.patterns.max_lookups_per_row_spec() + 1) as nat,
            |i: int| Column::LookupSorted(i as usize),
        ) + seq![Column::LookupAggreg, Column::LookupTable] + (
        if f.lookup_features.uses_runtime_tables {
            seq![Column::LookupRuntimeTable]
        } else {
            Seq::empty()
        })
    } else {
        Seq::empty()
    }
}

/// The evaluated-column set, in its fixed order: the witness columns, the
/// coefficient columns, the lookup columns of the configuration, then the
/// permutation accumulator and the two always-on selectors.
pub open spec fn linearization_columns_spec(f: FeatureFlags) -> Seq<Column> {
    witness_columns_seq() + coefficient_columns_seq() + lookup_columns_seq(f) + seq![
        Column::Z,
        Column::Index(GateType::Poseidon),
        Column::Index(GateType::Generic),
    ]
}

/// Every entry of the evaluated-column sequence satisfies the membership
/// predicate.
proof fn lemma_lin_cols_index(f: FeatureFlags, i: int)
    requires
        0 <= i < linearization_columns_spec(f).len(),
    ensures
        is_linearization_column(f, linearization_columns_spec(f)[i]),
{
    let s = linearization_columns_spec(f);
    let lk = lookup_columns_seq(f);
    let w = COLUMNS as int;
    if i < w {
        assert(s[i] == Column::Witness(i as usize));
    } else if i < 2 * w {
        assert(s[i] == Column::Coefficient((i - w) as usize));
    } else if i < 2 * w + lk.len() {
        let j = i - 2 * w;
        let m = f.lookup_features.patterns.max_lookups_per_row_spec();
        assert(s[i] == lk[j]);
        if j <= m {
            assert(lk[j] == Column::LookupSorted(j as usize));
        } else if j == m + 1 {
            assert(lk[j] == Column::LookupAggreg);
        } else if j == m + 2 {
            assert(lk[j] == Column::LookupTable);
        } else {
            assert(f.lookup_features.uses_runtime_tables);
            assert(lk[j] == Column::LookupRuntimeTable);
        }
    } else {
        let j = i - (2 * w + lk.len());
        if j == 0 {
            assert(s[i] == Column::Z);
        } else if j == 1 {
            assert(s[i] == Column::Index(GateType::Poseidon));
        } else {
            assert(s[i] == Column::Index(GateType::Generic));
        }
    }
}

/// The evaluated-column sequence holds exactly the columns of the membership
/// predicate.
pub proof fn lemma_linearization_columns_complete(f: FeatureFlags, c: Column)
    ensures
        linearization_columns_spec(f).contains(c) <==> is_linearization_column(f, c),
{
    let s = linearization_columns_spec(f);
    let lk = lookup_columns_seq(f);
    let w = COLUMNS as int;
    let m = f.lookup_features.patterns.max_lookups_per_row_spec();
    if s.contains(c) {
        let i = choose|i: int| 0 <= i < s.len() && s[i] == c;
        lemma_lin_cols_index(f, i);
    }
    if is_linearization_column(f, c) {
        match c {
            Column::Witness(i) => {
                assert(s[i as int] == c);
            },
            Column::Coefficient(i) => {
                assert(s[w + i] == c);
            },
            Column::Z => {
                assert(s[2 * w + lk.len()] == c);
            },
            Column::Index(g) => {
                if g == GateType::Poseidon {
                    assert(s[2 * w + lk.len() + 1] == c);
                } else {
                    assert(s[2 * w + lk.len() + 2] == c);
                }
            },
            Column::LookupSorted(i) => {
                assert(lk[i as int] == c);
                assert(s[2 * w + i] == c);
            },
            Column::LookupAggreg => {
                assert(lk[m + 1] == c);
                assert(s[2 * w + m + 1] == c);
            },
            Column::LookupTable => {
                assert(lk[m + 2] == c);
                assert(s[2 * w + m + 2] == c);
            },
            Column::LookupRuntimeTable => {
                assert(lk[m + 3] == c);
                assert(s[2 * w + m + 3] == c);
            },
        }
    }
}

/// No column appears twice in the evaluated-column sequence.
pub proof fn lemma_linearization_columns_no_dup(f: FeatureFlags)
    ensures
        linearization_columns_spec(f).no_duplicates(),
{
    let s = linearization_columns_spec(f);
    let lk = lookup_columns_seq(f);
    let w = COLUMNS as int;
    let m = f.lookup_features.patterns.max_lookups_per_row_spec();
    assert forall|i: int, j: int| 0 <= i < j < s.len() implies s[i] != s[j] by {
        if i < w {
            assert(s[i] == Column::Witness(i as usize));
        } else if i < 2 * w {
            assert(s[i] == Column::Coefficient((i - w) as usize));
        } else if i < 2 * w + lk.len() {
            assert(s[i] == lk[i - 2 * w]);
        } else {
            let d = i - (2 * w + lk.len());
            assert(s[i] == seq![
                Column::Z,
                Column::Index(GateType::Poseidon),
                Column::Index(GateType::Generic),
            ][d]);
        }
        if j < w {
            assert(s[j] == Column::Witness(j as usize));
        } else if j < 2 * w {
            assert(s[j] == Column::Coefficient((j - w) as usize));
        } else if j < 2 * w + lk.len() {
            assert(s[j] == lk[j - 2 * w]);
        } else {
            let d = j - (2 * w + lk.len());
            assert(s[j] == seq![
                Column::Z,
                Column::Index(GateType::Poseidon),
                Column::Index(GateType::Generic),
            ][d]);
        }
    }
}

fn witness_segment() -> (r: Vec<Column>)
    ensures
        r@ == witness_columns_seq(),
{
    let mut r: Vec<Column> = Vec::new();
    let mut i: usize = 0;
    while i < COLUMNS
        invariant
            i <= COLUMNS,
            r@.len() == i,
            forall|j: int| 0 <= j < i ==> r@[j] == Column::Witness(j as usize),
        decreases COLUMNS - i,
    {
        r.push(Column::Witness(i));
        i = i + 1;
    }
    proof {
        assert(r@ =~= witness_columns_seq());
    }
    r
}

fn coefficient_segment() -> (r: Vec<Column>)
    ensures
        r@ == coefficient_columns_seq(),
{
    let mut r: Vec<Column> = Vec::new();
    let mut i: usize = 0;
    while i < COLUMNS
        invariant
            i <= COLUMNS,
            r@.len() == i,
            forall|j: int| 0 <= j < i ==> r@[j] == Column::Coefficient(j as usize),
        decreases COLUMNS - i,
    {
        r.push(Column::Coefficient(i));
        i = i + 1;
    }
    proof {
        assert(r@ =~= coefficient_columns_seq());
    }
    r
}

fn lookup_segment(f: &FeatureFlags) -> (r: Vec<Column>)
    ensures
        r@ == lookup_columns_seq(*f),
{
    let mut r: Vec<Column> = Vec::new();
    let disabled = LookupPatterns::default();
    if f.lookup_features.patterns == disabled {
        proof {
            assert(r@ =~= lookup_columns_seq(*f));
        }
        return r;
    }
    let max_per_row = f.lookup_features.patterns.max_lookups_per_row();
    let mut i: usize = 0;
    while i <= max_per_row
        invariant
            i <= max_per_row + 1,
            max_per_row == f.lookup_features.patterns.max_lookups_per_row_spec(),
            r@.len() == i,
            forall|j: int| 0 <= j < i ==> r@[j] == Column::LookupSorted(j as usize),
        decreases max_per_row + 1 - i,
    {
        r.push(Column::LookupSorted(i));
        i = i + 1;
    }
    r.push(Column::LookupAggreg);
    r.push(Column::LookupTable);
    if f.lookup_features.uses_runtime_tables {
        r.push(Column::LookupRuntimeTable);
    }
    proof {
        assert(r@ =~= lookup_columns_seq(*f));
    }
    r
}

/// The set of columns the linearizer is allowed to isolate: the polynomials
/// that the protocol commits to and opens separately. With an absent flags
/// argument every lookup feature is treated as enabled, since the joint
/// expression can still reference the lookup columns under conditional nodes.
pub fn linearization_columns(feature_flags: Option<&FeatureFlags>) -> (r: Vec<Column>)
    ensures
        r@ == linearization_columns_spec(resolved_flags(opt_flags_view(feature_flags))),
        r@.no_duplicates(),
        forall|c: Column| r@.contains(c) <==> is_linearization_column(
            resolved_flags(opt_flags_view(feature_flags)),
            c,
        ),
{
    let flags = match feature_flags {
        Some(f) => *f,
        None => FeatureFlags::all_enabled(),
    };
    let ghost rf = resolved_flags(opt_flags_view(feature_flags));
    proof {
        assert(flags == rf);
    }
    let mut h = witness_segment();
    let mut coeffs = coefficient_segment();
    h.append(&mut coeffs);
    let mut lookups = lookup_segment(&flags);
    h.append(&mut lookups);
    h.push(Column::Z);
    h.push(Column::Index(GateType::Poseidon));
    h.push(Column::Index(GateType::Generic));
    proof {
        assert(h@ =~= linearization_columns_spec(rf));
        lemma_linearization_columns_no_dup(rf);
        assert forall|c: Column| h@.contains(c) <==> is_linearization_column(rf, c) by {
            lemma_linearization_columns_complete(rf, c);
        }
    }
    h
}



/// The permutation argument contributes a statically-known number of
/// constraints to the joint identity.
pub const PERMUTATION_CONSTRAINTS: u32 = 3;

/// The constraint lists of every family, supplied by the per-family
/// constraint providers. Each gate family's list is combined with challenge
/// powers counted from the start of the shared gate exponent range; the
/// lookup list must be the one computed for the lookup configuration that the
/// flags argument of the composition resolves to.
pub struct ConstraintSources<C> {
    pub poseidon: Vec<Expr<C>>,
    pub varbase_mul: Vec<Expr<C>>,
    pub complete_add: Vec<Expr<C>>,
    pub endo_mul: Vec<Expr<C>>,
    pub endo_mul_scalar: Vec<Expr<C>>,
    pub chacha0: Vec<Expr<C>>,
    pub chacha1: Vec<Expr<C>>,
    pub chacha2: Vec<Expr<C>>,
    pub chacha_final: Vec<Expr<C>>,
    pub range_check0: Vec<Expr<C>>,
    pub range_check1: Vec<Expr<C>>,
    pub foreign_field_add: Vec<Expr<C>>,
    pub foreign_field_mul: Vec<Expr<C>>,
    pub xor: Vec<Expr<C>>,
    pub generic: Vec<Expr<C>>,
    pub lookup: Vec<Expr<C>>,
}

pub open spec fn max2(a: int, b: int) -> int {
    if a >= b {
        a
    } else {
        b
    }
}

impl<C> ConstraintSources<C> {
    /// The largest constraint count of any gate family: all gate families
    /// share one exponent range, so only the largest count matters for its
    /// size.
    pub open spec fn max_gate_constraints(self) -> int {
        max2(
            max2(
                max2(
                    max2(
                        max2(
                            max2(self.poseidon@.len() as int, self.varbase_mul@.len() as int),
                            max2(self.complete_add@.len() as int, self.endo_mul@.len() as int),
                        ),
                        max2(
                            max2(self.endo_mul_scalar@.len() as int, self.chacha0@.len() as int),
                            max2(self.chacha1@.len() as int, self.chacha2@.len() as int),
                        ),
                    ),
                    max2(
                        max2(self.chacha_final@.len() as int, self.range_check0@.len() as int),
                        max2(self.range_check1@.len() as int, self.foreign_field_add@.len() as int),
                    ),
                ),
                max2(
                    max2(self.foreign_field_mul@.len() as int, self.xor@.len() as int),
                    self.generic@.len() as int,
                ),
            ),
            0,
        )
    }

    /// All the exponents the composition registers fit a 32-bit count.
    pub open spec fn counts_fit(self) -> bool {
        self.max_gate_constraints() + PERMUTATION_CONSTRAINTS + self.lookup@.len() <= u32::MAX
    }

    /// The sum of the always-on families' weighted constraints.
    pub open spec fn mandatory_sum(self) -> Expr<C> {
        Expr::Add(
            Box::new(
                Expr::Add(
                    Box::new(
                        Expr::Add(
                            Box::new(
                                Expr::Add(
                                    Box::new(combine_spec(0, self.poseidon@)),
                                    Box::new(combine_spec(0, self.varbase_mul@)),
                                ),
                            ),
                            Box::new(combine_spec(0, self.complete_add@)),
                        ),
                    ),
                    Box::new(combine_spec(0, self.endo_mul@)),
                ),
            ),
            Box::new(combine_spec(0, self.endo_mul_scalar@)),
        )
    }

    /// The sum of the four chacha gates' weighted constraints.
    pub open spec fn chacha_sum(self) -> Expr<C> {
        Expr::Add(
            Box::new(
                Expr::Add(
                    Box::new(
                        Expr::Add(
                            Box::new(combine_spec(0, self.chacha0@)),
                            Box::new(combine_spec(0, self.chacha1@)),
                        ),
                    ),
                    Box::new(combine_spec(0, self.chacha2@)),
                ),
            ),
            Box::new(combine_spec(0, self.chacha_final@)),
        )
    }

    /// The sum of the range-check gadget's weighted constraints.
    pub open spec fn range_check_sum(self) -> Expr<C> {
        Expr::Add(
            Box::new(combine_spec(0, self.range_check0@)),
            Box::new(combine_spec(0, self.range_check1@)),
        )
    }

    /// Every supplied constraint is free of conditional nodes: conditional
    /// nodes are the composer's own device.
    pub open spec fn conditional_free_sources(self) -> bool {
        &&& seq_conditional_free(self.poseidon@)
        &&& seq_conditional_free(self.varbase_mul@)
        &&& seq_conditional_free(self.complete_add@)
        &&& seq_conditional_free(self.endo_mul@)
        &&& seq_conditional_free(self.endo_mul_scalar@)
        &&& seq_conditional_free(self.chacha0@)
        &&& seq_conditional_free(self.chacha1@)
        &&& seq_conditional_free(self.chacha2@)
        &&& seq_conditional_free(self.chacha_final@)
        &&& seq_conditional_free(self.range_check0@)
        &&& seq_conditional_free(self.range_check1@)
        &&& seq_conditional_free(self.foreign_field_add@)
        &&& seq_conditional_free(self.foreign_field_mul@)
        &&& seq_conditional_free(self.xor@)
        &&& seq_conditional_free(self.generic@)
        &&& seq_conditional_free(self.lookup@)
    }
}

/// Every expression of the list is free of conditional nodes.
pub open spec fn seq_conditional_free<C>(cs: Seq<Expr<C>>) -> bool {
    forall|i: int| 0 <= i < cs.len() ==> crate::expr::conditional_free(#[trigger] cs[i])
}

/// Whether a concrete configuration enables the family behind a flag. An
/// absent configuration enables none statically: the family stays behind its
/// conditional node.
pub open spec fn opt_enabled(flags: Option<FeatureFlags>, which: FeatureFlag) -> bool {
    match flags {
        Some(f) => match which {
            FeatureFlag::ChaCha => f.chacha,
            FeatureFlag::RangeCheck => f.range_check,
            FeatureFlag::ForeignFieldAdd => f.foreign_field_add,
            FeatureFlag::ForeignFieldMul => f.foreign_field_mul,
            FeatureFlag::Xor => f.xor,
            FeatureFlag::LookupTables => lookup_columns_used(f),
        },
        None => false,
    }
}

/// How one optional family joins the running sum: added plainly when its
/// flag is statically on, omitted when statically off, and wrapped in a
/// conditional node when no configuration was given.
pub open spec fn with_optional<C>(
    base: Expr<C>,
    flags: Option<FeatureFlags>,
    which: FeatureFlag,
    fam: Expr<C>,
) -> Expr<C> {
    match flags {
        Some(_) => if opt_enabled(flags, which) {
            Expr::Add(Box::new(base), Box::new(fam))
        } else {
            base
        },
        None => Expr::Add(Box::new(base), Box::new(Expr::EnabledIf(which, Box::new(fam)))),
    }
}

/// The joint constraint expression of the whole circuit, as a function of
/// the configuration, the base-arithmetic toggle and the supplied constraint
/// lists.
pub open spec fn compose_spec<C>(
    flags: Option<FeatureFlags>,
    generic: bool,
    s: ConstraintSources<C>,
) -> Expr<C> {
    let e1 = s.mandatory_sum();
    let e2 = with_optional(e1, flags, FeatureFlag::ChaCha, s.chacha_sum());
    let e3 = with_optional(e2, flags, FeatureFlag::RangeCheck, s.range_check_sum());
    let e4 = with_optional(
        e3,
        flags,
        FeatureFlag::ForeignFieldAdd,
        combine_spec(0, s.foreign_field_add@),
    );
    let e5 = with_optional(
        e4,
        flags,
        FeatureFlag::ForeignFieldMul,
        combine_spec(0, s.foreign_field_mul@),
    );
    let e6 = with_optional(e5, flags, FeatureFlag::Xor, combine_spec(0, s.xor@));
    let e7 = if generic {
        Expr::Add(Box::new(e6), Box::new(combine_spec(0, s.generic@)))
    } else {
        e6
    };
    let lk = combine_spec(s.max_gate_constraints() + PERMUTATION_CONSTRAINTS, s.lookup@);
    match flags {
        Some(_) => Expr::Add(Box::new(e7), Box::new(lk)),
        None => Expr::Add(
            Box::new(e7),
            Box::new(Expr::EnabledIf(FeatureFlag::LookupTables, Box::new(lk))),
        ),
    }
}

/// The exponent registry the composition leaves behind: the shared gate
/// range first, then the permutation argument, then the lookup argument.
pub open spec fn composed_registry_entries<C>(s: ConstraintSources<C>) -> Seq<
    (ArgumentType, u32, u32),
> {
    seq![
        (ArgumentType::Gate(GateType::Zero), 0u32, s.max_gate_constraints() as u32),
        (
            ArgumentType::Permutation,
            s.max_gate_constraints() as u32,
            PERMUTATION_CONSTRAINTS,
        ),
        (
            ArgumentType::Lookup,
            (s.max_gate_constraints() + PERMUTATION_CONSTRAINTS) as u32,
            s.lookup@.len() as u32,
        ),
    ]
}

/// Builds the joint constraint expression and the finalized exponent
/// registry. All gate families share one exponent range, sized by the
/// largest family and registered first, so the base-arithmetic gate's first
/// constraint is weighted by the challenge to the power zero — the invariant
/// the public-input combination downstream depends on.
#[verifier::rlimit(80)]
pub fn constraints_expr<C>(
    feature_flags: Option<&FeatureFlags>,
    generic: bool,
    sources: ConstraintSources<C>,
) -> (r: (Expr<C>, Alphas))
    requires
        sources.counts_fit(),
    ensures
        r.0 == compose_spec(opt_flags_view(feature_flags), generic, sources),
        r.1.wf(),
        r.1.entries() == composed_registry_entries(sources),
        r.1.next_power == sources.max_gate_constraints() + PERMUTATION_CONSTRAINTS
            + sources.lookup@.len(),
        r.1.registered(ArgumentType::Gate(GateType::Generic)),
        r.1.entry_for(ArgumentType::Gate(GateType::Generic)).0 == 0,
{
    let ghost gs = sources;
    let ConstraintSources {
        poseidon,
        varbase_mul,
        complete_add,
        endo_mul,
        endo_mul_scalar,
        chacha0,
        chacha1,
        chacha2,
        chacha_final,
        range_check0,
        range_check1,
        foreign_field_add,
        foreign_field_mul,
        xor,
        generic: generic_constraints,
        lookup,
    } = sources;

    // Size the shared gate range by the largest gate family.
    let mut m: usize = poseidon.len();
    if varbase_mul.len() > m {
        m = varbase_mul.len();
    }
    if complete_add.len() > m {
        m = complete_add.len();
    }
    if endo_mul.len() > m {
        m = endo_mul.len();
    }
    if endo_mul_scalar.len() > m {
        m = endo_mul_scalar.len();
    }
    if chacha0.len() > m {
        m = chacha0.len();
    }
    if chacha1.len() > m {
        m = chacha1.len();
    }
    if chacha2.len() > m {
        m = chacha2.len();
    }
    if chacha_final.len() > m {
        m = chacha_final.len();
    }
    if range_check0.len() > m {
        m = range_check0.len();
    }
    if range_check1.len() > m {
        m = range_check1.len();
    }
    if foreign_field_add.len() > m {
        m = foreign_field_add.len();
    }
    if foreign_field_mul.len() > m {
        m = foreign_field_mul.len();
    }
    if xor.len() > m {
        m = xor.len();
    }
    if generic_constraints.len() > m {
        m = generic_constraints.len();
    }
    proof {
        assert(m as int == gs.max_gate_constraints());
    }

    let mut powers_of_alpha = Alphas::new();
    powers_of_alpha.register(ArgumentType::Gate(GateType::Zero), m as u32);

    let mut expr = combine_constraints(0, poseidon);
    expr = Expr::Add(Box::new(expr), Box::new(combine_constraints(0, varbase_mul)));
    expr = Expr::Add(Box::new(expr), Box::new(combine_constraints(0, complete_add)));
    expr = Expr::Add(Box::new(expr), Box::new(combine_constraints(0, endo_mul)));
    expr = Expr::Add(Box::new(expr), Box::new(combine_constraints(0, endo_mul_scalar)));
    proof {
        assert(expr == gs.mandatory_sum());
    }

    match feature_flags {
        Some(f) => {
            if f.chacha {
                let mut cc = combine_constraints(0, chacha0);
                cc = Expr::Add(Box::new(cc), Box::new(combine_constraints(0, chacha1)));
                cc = Expr::Add(Box::new(cc), Box::new(combine_constraints(0, chacha2)));
                cc = Expr::Add(Box::new(cc), Box::new(combine_constraints(0, chacha_final)));
                expr = Expr::Add(Box::new(expr), Box::new(cc));
            }
        },
        None => {
            let mut cc = combine_constraints(0, chacha0);
            cc = Expr::Add(Box::new(cc), Box::new(combine_constraints(0, chacha1)));
            cc = Expr::Add(Box::new(cc), Box::new(combine_constraints(0, chacha2)));
            cc = Expr::Add(Box::new(cc), Box::new(combine_constraints(0, chacha_final)));
            expr = Expr::Add(
                Box::new(expr),
                Box::new(Expr::EnabledIf(FeatureFlag::ChaCha, Box::new(cc))),
            );
        },
    }

    match feature_flags {
        Some(f) => {
            if f.range_check {
                let rc = Expr::Add(
                    Box::new(combine_constraints(0, range_check0)),
                    Box::new(combine_constraints(0, range_check1)),
                );
                expr = Expr::Add(Box::new(expr), Box::new(rc));
            }
        },
        None => {
            let rc = Expr::Add(
                Box::new(combine_constraints(0, range_check0)),
                Box::new(combine_constraints(0, range_check1)),
            );
            expr = Expr::Add(
                Box::new(expr),
                Box::new(Expr::EnabledIf(FeatureFlag::RangeCheck, Box::new(rc))),
            );
        },
    }

    match feature_flags {
        Some(f) => {
            if f.foreign_field_add {
                expr = Expr::Add(
                    Box::new(expr),
                    Box::new(combine_constraints(0, foreign_field_add)),
                );
            }
        },
        None => {
            expr = Expr::Add(
                Box::new(expr),
                Box::new(
                    Expr::EnabledIf(
                        FeatureFlag::ForeignFieldAdd,
                        Box::new(combine_constraints(0, foreign_field_add)),
                    ),
                ),
            );
        },
    }

    match feature_flags {
        Some(f) => {
            if f.foreign_field_mul {
                expr = Expr::Add(
                    Box::new(expr),
                    Box::new(combine_constraints(0, foreign_field_mul)),
                );
            }
        },
        None => {
            expr = Expr::Add(
                Box::new(expr),
                Box::new(
                    Expr::EnabledIf(
                        FeatureFlag::ForeignFieldMul,
                        Box::new(combine_constraints(0, foreign_field_mul)),
                    ),
                ),
            );
        },
    }

    match feature_flags {
        Some(f) => {
            if f.xor {
                expr = Expr::Add(Box::new(expr), Box::new(combine_constraints(0, xor)));
            }
        },
        None => {
            expr = Expr::Add(
                Box::new(expr),
                Box::new(
                    Expr::EnabledIf(FeatureFlag::Xor, Box::new(combine_constraints(0, xor))),
                ),
            );
        },
    }

    if generic {
        expr = Expr::Add(Box::new(expr), Box::new(combine_constraints(0, generic_constraints)));
    }

    // The permutation argument is registered after every gate family.
    proof {
        assert(!powers_of_alpha.registered(ArgumentType::Permutation));
    }
    powers_of_alpha.register(ArgumentType::Permutation, PERMUTATION_CONSTRAINTS);

    // The lookup argument's count depends on the configuration the caller
    // computed its constraint list for.
    let constraints_len: u32 = lookup.len() as u32;
    proof {
        assert(!powers_of_alpha.registered(ArgumentType::Lookup));
    }
    powers_of_alpha.register(ArgumentType::Lookup, constraints_len);
    let lookup_start: u32 = (m as u32) + PERMUTATION_CONSTRAINTS;
    let combined = combine_constraints(lookup_start, lookup);
    match feature_flags {
        Some(_) => {
            expr = Expr::Add(Box::new(expr), Box::new(combined));
        },
        None => {
            expr = Expr::Add(
                Box::new(expr),
                Box::new(Expr::EnabledIf(FeatureFlag::LookupTables, Box::new(combined))),
            );
        },
    }

    proof {
        assert(powers_of_alpha.entries() =~= composed_registry_entries(gs));
        assert(powers_of_alpha.entries()[0].0 == ArgumentType::Gate(GateType::Generic).canonical_spec());
        crate::alphas::lemma_first_family_starts_at_zero(
            powers_of_alpha,
            ArgumentType::Gate(GateType::Generic),
        );
        assert(expr == compose_spec(opt_flags_view(feature_flags), generic, gs));
    }
    (expr, powers_of_alpha)
}



/// A linearization result: for each evaluated column the artifact that
/// computes its coefficient, plus the residual artifact.
#[derive(Debug, PartialEq, Eq)]
pub struct Linearization<T> {
    pub constant_term: T,
    pub index_terms: Vec<(Column, T)>,
}

/// Partitions an expression into a linear combination of the evaluated
/// columns: one coefficient expression per evaluated column, plus a
/// residual. Fails exactly when the expression reads an evaluated column
/// non-linearly.
pub fn linearize<C: Copy>(e: Expr<C>, evaluated: &Vec<Column>) -> (r: Result<
    Linearization<Expr<C>>,
    ExprError,
>)
    ensures
        match r {
            Ok(l) => {
                &&& l.index_terms@.len() == evaluated@.len()
                &&& lin_spec(e, evaluated@) == Some(
                    (l.index_terms@.map_values(|t: (Column, Expr<C>)| t.1), l.constant_term),
                )
                &&& forall|i: int|
                    0 <= i < evaluated@.len() ==> (#[trigger] l.index_terms@[i]).0
                        == evaluated@[i]
            },
            Err(_) => lin_spec(e, evaluated@) is None,
        },
{
    let ghost ge = e;
    let (coeffs, konst) = match linearize_parts(e, evaluated) {
        Ok(p) => p,
        Err(err) => {
            return Err(err);
        },
    };
    proof {
        lemma_lin_spec_len(ge, evaluated@, coeffs@, konst);
    }
    let ghost gcoeffs = coeffs@;
    let mut coeffs = coeffs;
    let mut index_terms: Vec<(Column, Expr<C>)> = Vec::new();
    let mut i: usize = 0;
    let total: usize = coeffs.len();
    proof {
        assert(gcoeffs.len() == total as int);
    }
    while coeffs.len() > 0
        invariant
            gcoeffs.len() <= usize::MAX,
            gcoeffs.len() == evaluated@.len(),
            i + coeffs@.len() == gcoeffs.len(),
            coeffs@ =~= gcoeffs.skip(i as int),
            index_terms@.len() == i,
            forall|j: int|
                0 <= j < i ==> (#[trigger] index_terms@[j]).0 == evaluated@[j]
                    && index_terms@[j].1 == gcoeffs[j],
        decreases coeffs@.len(),
    {
        let c = coeffs.remove(0);
        proof {
            assert(c == gcoeffs[i as int]);
        }
        let col = evaluated[i];
        index_terms.push((col, c));
        i = i + 1;
    }
    proof {
        assert(index_terms@.map_values(|t: (Column, Expr<C>)| t.1) =~= gcoeffs);
    }
    Ok(Linearization { constant_term: konst, index_terms })
}

/// Compiles every part of a linearization into its postfix program.
pub fn linearization_to_polish<C>(l: Linearization<Expr<C>>) -> (r: Linearization<
    Vec<PolishToken<C>>,
>)
    ensures
        r.constant_term@ == polish_spec(l.constant_term),
        polish_wf(l.constant_term),
        r.index_terms@.len() == l.index_terms@.len(),
        forall|i: int|
            0 <= i < l.index_terms@.len() ==> (#[trigger] r.index_terms@[i]).0
                == l.index_terms@[i].0 && r.index_terms@[i].1@ == polish_spec(
                l.index_terms@[i].1,
            ) && polish_wf(l.index_terms@[i].1),
{
    let Linearization { constant_term, index_terms } = l;
    let constant_prog = to_polish(constant_term);
    let ghost gterms = index_terms@;
    let mut index_terms = index_terms;
    let mut out: Vec<(Column, Vec<PolishToken<C>>)> = Vec::new();
    let mut i: usize = 0;
    let total: usize = index_terms.len();
    proof {
        assert(gterms.len() == total as int);
    }
    while index_terms.len() > 0
        invariant
            gterms.len() <= usize::MAX,
            i + index_terms@.len() == gterms.len(),
            index_terms@ =~= gterms.skip(i as int),
            out@.len() == i,
            forall|j: int|
                0 <= j < i ==> (#[trigger] out@[j]).0 == gterms[j].0 && out@[j].1@
                    == polish_spec(gterms[j].1) && polish_wf(gterms[j].1),
        decreases index_terms@.len(),
    {
        let (col, e) = index_terms.remove(0);
        proof {
            assert(col == gterms[i as int].0 && e == gterms[i as int].1);
        }
        let prog = to_polish(e);
        out.push((col, prog));
        i = i + 1;
    }
    Linearization { constant_term: constant_prog, index_terms: out }
}

/// What a successful run of the whole pipeline returns, as a predicate over
/// the inputs: the registry layout and every compiled program are functions
/// of the configuration and the supplied constraints alone.
pub open spec fn linearized_result_ok<C>(
    flags: Option<FeatureFlags>,
    generic: bool,
    s: ConstraintSources<C>,
    lin: Linearization<Vec<PolishToken<C>>>,
    registry: Alphas,
) -> bool {
    let e = compose_spec(flags, generic, s);
    let cols = linearization_columns_spec(resolved_flags(flags));
    let parts = lin_spec(e, cols)->Some_0;
    &&& registry.wf()
    &&& registry.entries() == composed_registry_entries(s)
    &&& registry.registered(ArgumentType::Gate(GateType::Generic))
    &&& registry.entry_for(ArgumentType::Gate(GateType::Generic)).0 == 0
    &&& lin_spec(e, cols) is Some
    &&& lin.constant_term@ == polish_spec(parts.1)
    &&& polish_wf(parts.1)
    &&& lin.index_terms@.len() == cols.len()
    &&& forall|i: int|
        0 <= i < cols.len() ==> (#[trigger] lin.index_terms@[i]).0 == cols[i]
            && lin.index_terms@[i].1@ == polish_spec(parts.0[i]) && polish_wf(parts.0[i])
}

/// The whole pipeline: selects the evaluated columns, composes the joint
/// expression and the exponent registry, linearizes the expression against
/// the columns, and compiles every part into a postfix program. Fails
/// exactly when the joint expression reads an evaluated column
/// non-linearly.
pub fn expr_linearization<C: Copy>(
    feature_flags: Option<&FeatureFlags>,
    generic: bool,
    sources: ConstraintSources<C>,
) -> (r: Result<(Linearization<Vec<PolishToken<C>>>, Alphas), ExprError>)
    requires
        sources.counts_fit(),
    ensures
        match r {
            Ok(p) => linearized_result_ok(
                opt_flags_view(feature_flags),
                generic,
                sources,
                p.0,
                p.1,
            ),
            Err(_) => lin_spec(
                compose_spec(opt_flags_view(feature_flags), generic, sources),
                linearization_columns_spec(resolved_flags(opt_flags_view(feature_flags))),
            ) is None,
        },
{
    let ghost gs = sources;
    let evaluated_cols = linearization_columns(feature_flags);
    let (expr, powers_of_alpha) = constraints_expr(feature_flags, generic, sources);
    let lin = match linearize(expr, &evaluated_cols) {
        Ok(l) => l,
        Err(err) => {
            return Err(err);
        },
    };
    let compiled = linearization_to_polish(lin);
    proof {
        let e = compose_spec(opt_flags_view(feature_flags), generic, gs);
        let cols = linearization_columns_spec(resolved_flags(opt_flags_view(feature_flags)));
        let parts = lin_spec(e, cols)->Some_0;
        assert(parts.0 == lin.index_terms@.map_values(|t: (Column, Expr<C>)| t.1));
        assert(forall|i: int|
            0 <= i < cols.len() ==> #[trigger] parts.0[i] == lin.index_terms@[i].1);
    }
    Ok((compiled, powers_of_alpha))
}

/// Determinism of the pipeline: two results for the same inputs carry
/// identical registries and byte-identical compiled programs.
pub proof fn lemma_composition_deterministic<C>(
    flags: Option<FeatureFlags>,
    generic: bool,
    s: ConstraintSources<C>,
    lin1: Linearization<Vec<PolishToken<C>>>,
    reg1: Alphas,
    lin2: Linearization<Vec<PolishToken<C>>>,
    reg2: Alphas,
)
    requires
        linearized_result_ok(flags, generic, s, lin1, reg1),
        linearized_result_ok(flags, generic, s, lin2, reg2),
    ensures
        lin1.constant_term@ == lin2.constant_term@,
        lin1.index_terms@.len() == lin2.index_terms@.len(),
        forall|i: int|
            0 <= i < lin1.index_terms@.len() ==> (#[trigger] lin1.index_terms@[i]).0
                == lin2.index_terms@[i].0 && lin1.index_terms@[i].1@ == lin2.index_terms@[i].1@,
        reg1.entries() == reg2.entries(),
        reg1.next_power == reg2.next_power,
{
    let cols = linearization_columns_spec(resolved_flags(flags));
    assert(reg1.next_power as int == Alphas::prefix_total(reg1.entries(), reg1.entries().len() as int));
    assert(reg2.next_power as int == Alphas::prefix_total(reg2.entries(), reg2.entries().len() as int));
}

proof fn lemma_has_enabled_if<C>(x: Expr<C>, f: FeatureFlag)
    ensures
        has_conditional_for(Expr::EnabledIf(f, Box::new(x)), f),
{
}

/// With a concrete configuration the composed expression is free of
/// conditional nodes: every optional family is either pruned or included
/// plainly. Holds whenever the supplied constraints themselves carry no
/// conditional node.
pub proof fn lemma_compose_concrete_conditional_free<C>(
    f: FeatureFlags,
    generic: bool,
    s: ConstraintSources<C>,
)
    requires
        s.conditional_free_sources(),
    ensures
        conditional_free(compose_spec(Some(f), generic, s)),
{
    let flags = Some(f);
    lemma_combine_conditional_free(0, s.poseidon@);
    lemma_combine_conditional_free(0, s.varbase_mul@);
    lemma_combine_conditional_free(0, s.complete_add@);
    lemma_combine_conditional_free(0, s.endo_mul@);
    lemma_combine_conditional_free(0, s.endo_mul_scalar@);
    lemma_combine_conditional_free(0, s.chacha0@);
    lemma_combine_conditional_free(0, s.chacha1@);
    lemma_combine_conditional_free(0, s.chacha2@);
    lemma_combine_conditional_free(0, s.chacha_final@);
    lemma_combine_conditional_free(0, s.range_check0@);
    lemma_combine_conditional_free(0, s.range_check1@);
    lemma_combine_conditional_free(0, s.foreign_field_add@);
    lemma_combine_conditional_free(0, s.foreign_field_mul@);
    lemma_combine_conditional_free(0, s.xor@);
    lemma_combine_conditional_free(0, s.generic@);
    lemma_combine_conditional_free(
        s.max_gate_constraints() + PERMUTATION_CONSTRAINTS,
        s.lookup@,
    );
    let p = combine_spec(0, s.poseidon@);
    let vb = combine_spec(0, s.varbase_mul@);
    let ca = combine_spec(0, s.complete_add@);
    let em = combine_spec(0, s.endo_mul@);
    let es = combine_spec(0, s.endo_mul_scalar@);
    let m1 = Expr::Add(Box::new(p), Box::new(vb));
    assert(conditional_free(m1));
    let m2 = Expr::Add(Box::new(m1), Box::new(ca));
    assert(conditional_free(m2));
    let m3 = Expr::Add(Box::new(m2), Box::new(em));
    assert(conditional_free(m3));
    let m4 = Expr::Add(Box::new(m3), Box::new(es));
    assert(conditional_free(m4));
    assert(m4 == s.mandatory_sum());
    let c1 = Expr::Add(
        Box::new(combine_spec(0, s.chacha0@)),
        Box::new(combine_spec(0, s.chacha1@)),
    );
    assert(conditional_free(c1));
    let c2 = Expr::Add(Box::new(c1), Box::new(combine_spec(0, s.chacha2@)));
    assert(conditional_free(c2));
    let c3 = Expr::Add(Box::new(c2), Box::new(combine_spec(0, s.chacha_final@)));
    assert(conditional_free(c3));
    assert(c3 == s.chacha_sum());
    let rc = Expr::Add(
        Box::new(combine_spec(0, s.range_check0@)),
        Box::new(combine_spec(0, s.range_check1@)),
    );
    assert(conditional_free(rc));
    assert(rc == s.range_check_sum());
    let e1 = s.mandatory_sum();
    let e2 = with_optional(e1, flags, FeatureFlag::ChaCha, s.chacha_sum());
    assert(conditional_free(e2));
    let e3 = with_optional(e2, flags, FeatureFlag::RangeCheck, s.range_check_sum());
    assert(conditional_free(e3));
    let e4 = with_optional(
        e3,
        flags,
        FeatureFlag::ForeignFieldAdd,
        combine_spec(0, s.foreign_field_add@),
    );
    assert(conditional_free(e4));
    let e5 = with_optional(
        e4,
        flags,
        FeatureFlag::ForeignFieldMul,
        combine_spec(0, s.foreign_field_mul@),
    );
    assert(conditional_free(e5));
    let e6 = with_optional(e5, flags, FeatureFlag::Xor, combine_spec(0, s.xor@));
    assert(conditional_free(e6));
    let e7 = if generic {
        Expr::Add(Box::new(e6), Box::new(combine_spec(0, s.generic@)))
    } else {
        e6
    };
    assert(conditional_free(e7));
    let lk = combine_spec(s.max_gate_constraints() + PERMUTATION_CONSTRAINTS, s.lookup@);
    let whole = Expr::Add(Box::new(e7), Box::new(lk));
    assert(conditional_free(whole));
    assert(whole == compose_spec(flags, generic, s));
}

/// With a concrete configuration no conditional node for any flag exists in
/// the composed expression; in particular, a disabled family leaves no
/// conditional wrapper behind.
pub proof fn lemma_compose_concrete_no_conditional<C>(
    f: FeatureFlags,
    generic: bool,
    s: ConstraintSources<C>,
    which: FeatureFlag,
)
    requires
        s.conditional_free_sources(),
    ensures
        !has_conditional_for(compose_spec(Some(f), generic, s), which),
{
    lemma_compose_concrete_conditional_free(f, generic, s);
    lemma_conditional_free_has_none(compose_spec(Some(f), generic, s), which);
}

/// With no configuration given, the composed expression carries a
/// conditional node for every optional family's flag.
pub proof fn lemma_compose_generic_has_conditionals<C>(
    generic: bool,
    s: ConstraintSources<C>,
    which: FeatureFlag,
)
    ensures
        has_conditional_for(compose_spec(None, generic, s), which),
{
    let flags = Option::<FeatureFlags>::None;
    let e1 = s.mandatory_sum();
    let e2 = with_optional(e1, flags, FeatureFlag::ChaCha, s.chacha_sum());
    let e3 = with_optional(e2, flags, FeatureFlag::RangeCheck, s.range_check_sum());
    let e4 = with_optional(
        e3,
        flags,
        FeatureFlag::ForeignFieldAdd,
        combine_spec(0, s.foreign_field_add@),
    );
    let e5 = with_optional(
        e4,
        flags,
        FeatureFlag::ForeignFieldMul,
        combine_spec(0, s.foreign_field_mul@),
    );
    let e6 = with_optional(e5, flags, FeatureFlag::Xor, combine_spec(0, s.xor@));
    let e7 = if generic {
        Expr::Add(Box::new(e6), Box::new(combine_spec(0, s.generic@)))
    } else {
        e6
    };
    let lk = combine_spec(s.max_gate_constraints() + PERMUTATION_CONSTRAINTS, s.lookup@);
    let whole = Expr::Add(
        Box::new(e7),
        Box::new(Expr::EnabledIf(FeatureFlag::LookupTables, Box::new(lk))),
    );
    assert(whole == compose_spec(flags, generic, s));
    match which {
        FeatureFlag::ChaCha => {
            lemma_has_enabled_if(s.chacha_sum(), which);
            assert(has_conditional_for(e2, which));
            assert(has_conditional_for(e3, which));
            assert(has_conditional_for(e4, which));
            assert(has_conditional_for(e5, which));
            assert(has_conditional_for(e6, which));
            assert(has_conditional_for(e7, which));
            assert(has_conditional_for(whole, which));
        },
        FeatureFlag::RangeCheck => {
            lemma_has_enabled_if(s.range_check_sum(), which);
            assert(has_conditional_for(e3, which));
            assert(has_conditional_for(e4, which));
            assert(has_conditional_for(e5, which));
            assert(has_conditional_for(e6, which));
            assert(has_conditional_for(e7, which));
            assert(has_conditional_for(whole, which));
        },
        FeatureFlag::ForeignFieldAdd => {
            lemma_has_enabled_if(combine_spec(0, s.foreign_field_add@), which);
            assert(has_conditional_for(e4, which));
            assert(has_conditional_for(e5, which));
            assert(has_conditional_for(e6, which));
            assert(has_conditional_for(e7, which));
            assert(has_conditional_for(whole, which));
        },
        FeatureFlag::ForeignFieldMul => {
            lemma_has_enabled_if(combine_spec(0, s.foreign_field_mul@), which);
            assert(has_conditional_for(e5, which));
            assert(has_conditional_for(e6, which));
            assert(has_conditional_for(e7, which));
            assert(has_conditional_for(whole, which));
        },
        FeatureFlag::Xor => {
            lemma_has_enabled_if(combine_spec(0, s.xor@), which);
            assert(has_conditional_for(e6, which));
            assert(has_conditional_for(e7, which));
            assert(has_conditional_for(whole, which));
        },
        FeatureFlag::LookupTables => {
            lemma_has_enabled_if(lk, which);
            assert(has_conditional_for(whole, which));
        },
    }
}



/// Whatever the configuration — also an absent one — the evaluated-column
/// set contains every witness column, every coefficient column, the
/// permutation accumulator, and the selectors of the hash-permutation and
/// base-arithmetic gates.
pub proof fn lemma_linearization_columns_minimum(flags: Option<FeatureFlags>, i: int)
    requires
        0 <= i < COLUMNS,
    ensures
        linearization_columns_spec(resolved_flags(flags)).contains(Column::Witness(i as usize)),
        linearization_columns_spec(resolved_flags(flags)).contains(
            Column::Coefficient(i as usize),
        ),
        linearization_columns_spec(resolved_flags(flags)).contains(Column::Z),
        linearization_columns_spec(resolved_flags(flags)).contains(
            Column::Index(GateType::Poseidon),
        ),
        linearization_columns_spec(resolved_flags(flags)).contains(
            Column::Index(GateType::Generic),
        ),
{
    let f = resolved_flags(flags);
    lemma_linearization_columns_complete(f, Column::Witness(i as usize));
    lemma_linearization_columns_complete(f, Column::Coefficient(i as usize));
    lemma_linearization_columns_complete(f, Column::Z);
    lemma_linearization_columns_complete(f, Column::Index(GateType::Poseidon));
    lemma_linearization_columns_complete(f, Column::Index(GateType::Generic));
}

/// End-to-end soundness of a successful pipeline run: under every valuation
/// the joint expression's value is the sum, over the evaluated columns, of
/// the value its compiled coefficient program pushes times the column's
/// value, plus the value the residual program pushes.
pub proof fn lemma_linearization_sound<C>(
    flags: Option<FeatureFlags>,
    generic: bool,
    s: ConstraintSources<C>,
    lin: Linearization<Vec<PolishToken<C>>>,
    registry: Alphas,
    v: Valuation<C>,
)
    requires
        linearized_result_ok(flags, generic, s, lin, registry),
    ensures
        ({
            let e = compose_spec(flags, generic, s);
            let cols = linearization_columns_spec(resolved_flags(flags));
            let parts = lin_spec(e, cols)->Some_0;
            &&& eval_expr(e, v) == row_sum(parts.0, cols, v) + eval_expr(parts.1, v)
            &&& crate::polish::run_tokens(lin.constant_term@, v, Seq::empty()) == Some(
                seq![eval_expr(parts.1, v)],
            )
            &&& forall|i: int|
                0 <= i < cols.len() ==> crate::polish::run_tokens(
                    (#[trigger] lin.index_terms@[i]).1@,
                    v,
                    Seq::empty(),
                ) == Some(seq![eval_expr(parts.0[i], v)])
        }),
{
    let e = compose_spec(flags, generic, s);
    let cols = linearization_columns_spec(resolved_flags(flags));
    let parts = lin_spec(e, cols)->Some_0;
    assert(lin_spec(e, cols) == Some((parts.0, parts.1)));
    lemma_linearization_columns_no_dup(resolved_flags(flags));
    lemma_lin_spec_correct(e, cols, parts.0, parts.1, v);
    crate::polish::lemma_polish_correct(parts.1, v, Seq::empty());
    assert(Seq::<int>::empty().push(eval_expr(parts.1, v)) =~= seq![eval_expr(parts.1, v)]);
    assert forall|i: int| 0 <= i < cols.len() implies crate::polish::run_tokens(
        (#[trigger] lin.index_terms@[i]).1@,
        v,
        Seq::empty(),
    ) == Some(seq![eval_expr(parts.0[i], v)]) by {
        crate::polish::lemma_polish_correct(parts.0[i], v, Seq::empty());
        assert(Seq::<int>::empty().push(eval_expr(parts.0[i], v)) =~= seq![
            eval_expr(parts.0[i], v),
        ]);
    }
}


} // verus!
