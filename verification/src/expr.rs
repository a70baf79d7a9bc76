//! The symbolic expression algebra: polynomials over columns, constants and
//! challenge powers, with conditional subexpressions gated by a feature flag.
//! Every node owns its children, so an expression is a finite tree.
//!
//! The meaning of an expression is given by [`eval_expr`] against a
//! [`Valuation`] that interprets columns, constants, the challenge and the
//! feature flags. The proofs of the compiler and of the linearizer are stated
//! against this evaluation.

use vstd::arithmetic::power::pow;
use vstd::prelude::*;

use crate::columns::Column;
use crate::flags::FeatureFlag;

verus! {

/// A symbolic polynomial expression over an abstract constant type `C`.
#[derive(Debug, PartialEq, Eq)]
pub enum Expr<C> {
    /// An opaque constant supplied by a constraint family.
    Constant(C),
    /// The value of a column on the current row.
    Cell(Column),
    /// The verifier's random challenge raised to the given exponent.
    Alpha(u32),
    /// The additive identity.
    Zero,
    /// The multiplicative identity.
    One,
    Add(Box<Expr<C>>, Box<Expr<C>>),
    Mul(Box<Expr<C>>, Box<Expr<C>>),
    /// The guarded subexpression contributes only when the flag is active at
    /// proving time.
    EnabledIf(FeatureFlag, Box<Expr<C>>),
}

/// An interpretation of the leaves of an expression: a value for every
/// column, every constant and every feature flag, and the challenge itself.
#[verifier::reject_recursive_types(C)]
pub struct Valuation<C> {
    pub cols: Map<Column, int>,
    pub consts: Map<C, int>,
    pub alpha: int,
    pub flags: Map<FeatureFlag, bool>,
}

/// The meaning of an expression under a valuation.
pub open spec fn eval_expr<C>(e: Expr<C>, v: Valuation<C>) -> int
    decreases e,
{
    match e {
        Expr::Constant(c) => v.consts[c],
        Expr::Cell(col) => v.cols[col],
        Expr::Alpha(k) => pow(v.alpha, k as nat),
        Expr::Zero => 0,
        Expr::One => 1,
        Expr::Add(a, b) => eval_expr(*a, v) + eval_expr(*b, v),
        Expr::Mul(a, b) => eval_expr(*a, v) * eval_expr(*b, v),
        Expr::EnabledIf(f, a) => if v.flags[f] {
            eval_expr(*a, v)
        } else {
            0
        },
    }
}

impl<C: Copy> Expr<C> {
    /// A structural copy, with the contract that a derived `Clone` would not
    /// carry.
    pub fn duplicate(&self) -> (r: Expr<C>)
        ensures
            r == *self,
        decreases *self,
    {
        match self {
            Expr::Constant(c) => Expr::Constant(*c),
            Expr::Cell(col) => Expr::Cell(*col),
            Expr::Alpha(k) => Expr::Alpha(*k),
            Expr::Zero => Expr::Zero,
            Expr::One => Expr::One,
            Expr::Add(a, b) => Expr::Add(Box::new(a.duplicate()), Box::new(b.duplicate())),
            Expr::Mul(a, b) => Expr::Mul(Box::new(a.duplicate()), Box::new(b.duplicate())),
            Expr::EnabledIf(f, a) => Expr::EnabledIf(*f, Box::new(a.duplicate())),
        }
    }
}

/// The weighted sum of a family's constraints: constraint `i` is multiplied
/// by the challenge to the power `start + i`, and the products are summed
/// left to right from zero.
pub open spec fn combine_spec<C>(start: int, cs: Seq<Expr<C>>) -> Expr<C>
    decreases cs.len(),
{
    if cs.len() == 0 {
        Expr::Zero
    } else {
        Expr::Add(
            Box::new(combine_spec(start, cs.drop_last())),
            Box::new(
                Expr::Mul(
                    Box::new(Expr::Alpha((start + cs.len() - 1) as u32)),
                    Box::new(cs.last()),
                ),
            ),
        )
    }
}

/// Weights a family's constraints by consecutive challenge powers starting at
/// `start` and sums them.
pub fn combine_constraints<C>(start: u32, constraints: Vec<Expr<C>>) -> (r: Expr<C>)
    requires
        start + constraints@.len() <= u32::MAX,
    ensures
        r == combine_spec(start as int, constraints@),
{
    let ghost all = constraints@;
    let mut cs = constraints;
    let mut acc = Expr::Zero;
    let mut i: usize = 0;
    proof {
        assert(all.take(0) =~= Seq::<Expr<C>>::empty());
    }
    while cs.len() > 0
        invariant
            i + cs@.len() == all.len(),
            cs@ =~= all.skip(i as int),
            acc == combine_spec(start as int, all.take(i as int)),
            start + all.len() <= u32::MAX,
        decreases cs@.len(),
    {
        let c = cs.remove(0);
        proof {
            assert(c == all[i as int]);
        }
        let a = Expr::Alpha(start + (i as u32));
        acc = Expr::Add(Box::new(acc), Box::new(Expr::Mul(Box::new(a), Box::new(c))));
        proof {
            let j = i as int + 1;
            assert(all.take(j).drop_last() =~= all.take(j - 1));
            assert(all.take(j).last() == all[j - 1]);
            assert(cs@ =~= all.skip(j));
        }
        i = i + 1;
    }
    proof {
        assert(all.take(i as int) =~= all);
    }
    acc
}

/// Whether the expression reads any of the given columns, also under
/// conditional nodes.
pub open spec fn references_column_in<C>(e: Expr<C>, cols: Seq<Column>) -> bool
    decreases e,
{
    match e {
        Expr::Cell(col) => cols.contains(col),
        Expr::Add(a, b) => references_column_in(*a, cols) || references_column_in(*b, cols),
        Expr::Mul(a, b) => references_column_in(*a, cols) || references_column_in(*b, cols),
        Expr::EnabledIf(_, a) => references_column_in(*a, cols),
        _ => false,
    }
}

/// Whether `cols` holds `c`.
pub fn contains_column(cols: &Vec<Column>, c: Column) -> (r: bool)
    ensures
        r == cols@.contains(c),
{
    let mut i: usize = 0;
    while i < cols.len()
        invariant
            0 <= i <= cols@.len(),
            forall|j: int| 0 <= j < i ==> cols@[j] != c,
        decreases cols@.len() - i,
    {
        if cols[i] == c {
            return true;
        }
        i = i + 1;
    }
    false
}

/// Whether the expression reads any of the given columns.
pub fn references_column<C>(e: &Expr<C>, cols: &Vec<Column>) -> (r: bool)
    ensures
        r == references_column_in(*e, cols@),
    decreases *e,
{
    match e {
        Expr::Cell(col) => contains_column(cols, *col),
        Expr::Add(a, b) => references_column(a, cols) || references_column(b, cols),
        Expr::Mul(a, b) => references_column(a, cols) || references_column(b, cols),
        Expr::EnabledIf(_, a) => references_column(a, cols),
        _ => false,
    }
}

/// Whether the expression holds a conditional node keyed to the given flag.
pub open spec fn has_conditional_for<C>(e: Expr<C>, f: FeatureFlag) -> bool
    decreases e,
{
    match e {
        Expr::Add(a, b) => has_conditional_for(*a, f) || has_conditional_for(*b, f),
        Expr::Mul(a, b) => has_conditional_for(*a, f) || has_conditional_for(*b, f),
        Expr::EnabledIf(g, a) => g == f || has_conditional_for(*a, f),
        _ => false,
    }
}

/// Whether the expression holds no conditional node at all.
pub open spec fn conditional_free<C>(e: Expr<C>) -> bool
    decreases e,
{
    match e {
        Expr::Add(a, b) => conditional_free(*a) && conditional_free(*b),
        Expr::Mul(a, b) => conditional_free(*a) && conditional_free(*b),
        Expr::EnabledIf(_, _) => false,
        _ => true,
    }
}

/// A weighted sum of conditional-free constraints is conditional-free.
pub proof fn lemma_combine_conditional_free<C>(start: int, cs: Seq<Expr<C>>)
    requires
        forall|i: int| 0 <= i < cs.len() ==> conditional_free(#[trigger] cs[i]),
    ensures
        conditional_free(combine_spec(start, cs)),
    decreases cs.len(),
{
    if cs.len() > 0 {
        assert(forall|i: int|
            0 <= i < cs.drop_last().len() ==> #[trigger] cs.drop_last()[i] == cs[i]);
        lemma_combine_conditional_free(start, cs.drop_last());
        let a = Expr::<C>::Alpha((start + cs.len() - 1) as u32);
        let m = Expr::Mul(Box::new(a), Box::new(cs.last()));
        assert(cs.last() == cs[cs.len() - 1]);
        assert(conditional_free(a));
        assert(conditional_free(m));
        assert(combine_spec(start, cs) == Expr::Add(
            Box::new(combine_spec(start, cs.drop_last())),
            Box::new(m),
        ));
    }
}

/// A conditional-free expression holds no conditional node for any flag.
pub proof fn lemma_conditional_free_has_none<C>(e: Expr<C>, f: FeatureFlag)
    requires
        conditional_free(e),
    ensures
        !has_conditional_for(e, f),
    decreases e,
{
    match e {
        Expr::Add(a, b) => {
            lemma_conditional_free_has_none(*a, f);
            lemma_conditional_free_has_none(*b, f);
        },
        Expr::Mul(a, b) => {
            lemma_conditional_free_has_none(*a, f);
            lemma_conditional_free_has_none(*b, f);
        },
        _ => {},
    }
}


/// The challenge-weighted sum of a constraint list, as a number: constraint
/// `i` counts with weight `alpha` to the power `start + i`.
pub open spec fn weighted_sum<C>(start: int, cs: Seq<Expr<C>>, v: Valuation<C>) -> int
    decreases cs.len(),
{
    if cs.len() == 0 {
        0
    } else {
        weighted_sum(start, cs.drop_last(), v) + pow(v.alpha, (start + cs.len() - 1) as nat)
            * eval_expr(cs.last(), v)
    }
}

/// The combined expression of a family evaluates to the challenge-weighted
/// sum of its constraints.
pub proof fn lemma_combine_spec_eval<C>(start: int, cs: Seq<Expr<C>>, v: Valuation<C>)
    requires
        0 <= start,
        start + cs.len() <= u32::MAX,
    ensures
        eval_expr(combine_spec(start, cs), v) == weighted_sum(start, cs, v),
    decreases cs.len(),
{
    if cs.len() > 0 {
        lemma_combine_spec_eval(start, cs.drop_last(), v);
        let k = (start + cs.len() - 1) as u32;
        assert(k as nat == (start + cs.len() - 1) as nat);
        let m = Expr::Mul(Box::new(Expr::<C>::Alpha(k)), Box::new(cs.last()));
        assert(eval_expr(Expr::<C>::Alpha(k), v) == pow(v.alpha, k as nat));
        assert(eval_expr(m, v) == pow(v.alpha, k as nat) * eval_expr(cs.last(), v));
        assert(combine_spec(start, cs) == Expr::Add(
            Box::new(combine_spec(start, cs.drop_last())),
            Box::new(m),
        ));
    }
}


} // verus!
