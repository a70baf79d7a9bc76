//! Compilation of an expression tree into a flat postfix program, evaluated
//! in a single pass with an explicit value stack. The compiler is proved
//! against [`run_tokens`]: running the compiled program pushes exactly the
//! value of the source expression.

use vstd::arithmetic::power::pow;
use vstd::prelude::*;

use crate::columns::Column;
use crate::expr::{eval_expr, Expr, Valuation};
use crate::flags::FeatureFlag;

verus! {

/// One instruction of a compiled program.
#[derive(Debug, PartialEq, Eq)]
pub enum PolishToken<C> {
    /// Push an opaque constant.
    Constant(C),
    /// Push the value of a column.
    Cell(Column),
    /// Push the challenge raised to the given exponent.
    Alpha(u32),
    /// Push the additive identity.
    Zero,
    /// Push the multiplicative identity.
    One,
    /// Pop two values and push their sum.
    Add,
    /// Pop two values and push their product.
    Mul,
    /// When the flag is inactive, skip the next `n` tokens and push zero in
    /// place of the value they would have produced.
    SkipIf(FeatureFlag, usize),
}

/// Runs a program on a stack; `None` on stack underflow or a skip past the
/// end of the program.
pub open spec fn run_tokens<C>(
    toks: Seq<PolishToken<C>>,
    v: Valuation<C>,
    stack: Seq<int>,
) -> Option<Seq<int>>
    decreases toks.len(),
{
    if toks.len() == 0 {
        Some(stack)
    } else {
        let rest = toks.skip(1);
        match toks[0] {
            PolishToken::Constant(c) => run_tokens(rest, v, stack.push(v.consts[c])),
            PolishToken::Cell(col) => run_tokens(rest, v, stack.push(v.cols[col])),
            PolishToken::Alpha(k) => run_tokens(rest, v, stack.push(pow(v.alpha, k as nat))),
            PolishToken::Zero => run_tokens(rest, v, stack.push(0)),
            PolishToken::One => run_tokens(rest, v, stack.push(1)),
            PolishToken::Add => if stack.len() < 2 {
                None
            } else {
                run_tokens(
                    rest,
                    v,
                    stack.drop_last().drop_last().push(
                        stack[stack.len() - 2] + stack[stack.len() - 1],
                    ),
                )
            },
            PolishToken::Mul => if stack.len() < 2 {
                None
            } else {
                run_tokens(
                    rest,
                    v,
                    stack.drop_last().drop_last().push(
                        stack[stack.len() - 2] * stack[stack.len() - 1],
                    ),
                )
            },
            PolishToken::SkipIf(f, n) => if v.flags[f] {
                run_tokens(rest, v, stack)
            } else if n <= rest.len() {
                run_tokens(rest.skip(n as int), v, stack.push(0))
            } else {
                None
            },
        }
    }
}

/// The program a given expression compiles to.
pub open spec fn polish_spec<C>(e: Expr<C>) -> Seq<PolishToken<C>>
    decreases e,
{
    match e {
        Expr::Constant(c) => seq![PolishToken::Constant(c)],
        Expr::Cell(col) => seq![PolishToken::Cell(col)],
        Expr::Alpha(k) => seq![PolishToken::Alpha(k)],
        Expr::Zero => seq![PolishToken::Zero],
        Expr::One => seq![PolishToken::One],
        Expr::Add(a, b) => polish_spec(*a) + polish_spec(*b) + seq![PolishToken::Add],
        Expr::Mul(a, b) => polish_spec(*a) + polish_spec(*b) + seq![PolishToken::Mul],
        Expr::EnabledIf(f, a) => seq![
            PolishToken::SkipIf(f, polish_spec(*a).len() as usize),
        ] + polish_spec(*a),
    }
}

/// Every guarded subprogram is short enough for its skip distance to be
/// stored exactly. This holds of every program the compiler itself emits.
pub open spec fn polish_wf<C>(e: Expr<C>) -> bool
    decreases e,
{
    match e {
        Expr::Add(a, b) => polish_wf(*a) && polish_wf(*b),
        Expr::Mul(a, b) => polish_wf(*a) && polish_wf(*b),
        Expr::EnabledIf(_, a) => polish_wf(*a) && polish_spec(*a).len() <= usize::MAX,
        _ => true,
    }
}

/// Running a concatenation runs the two parts in order.
pub proof fn lemma_run_append<C>(
    t1: Seq<PolishToken<C>>,
    t2: Seq<PolishToken<C>>,
    v: Valuation<C>,
    stack: Seq<int>,
    s1: Seq<int>,
)
    requires
        run_tokens(t1, v, stack) == Some(s1),
    ensures
        run_tokens(t1 + t2, v, stack) == run_tokens(t2, v, s1),
    decreases t1.len(),
{
    if t1.len() == 0 {
        assert(t1 + t2 =~= t2);
    } else {
        let rest = t1.skip(1);
        assert((t1 + t2)[0] == t1[0]);
        assert((t1 + t2).skip(1) =~= rest + t2);
        match t1[0] {
            PolishToken::Constant(c) => {
                lemma_run_append(rest, t2, v, stack.push(v.consts[c]), s1);
            },
            PolishToken::Cell(col) => {
                lemma_run_append(rest, t2, v, stack.push(v.cols[col]), s1);
            },
            PolishToken::Alpha(k) => {
                lemma_run_append(rest, t2, v, stack.push(pow(v.alpha, k as nat)), s1);
            },
            PolishToken::Zero => {
                lemma_run_append(rest, t2, v, stack.push(0), s1);
            },
            PolishToken::One => {
                lemma_run_append(rest, t2, v, stack.push(1), s1);
            },
            PolishToken::Add => {
                lemma_run_append(
                    rest,
                    t2,
                    v,
                    stack.drop_last().drop_last().push(
                        stack[stack.len() - 2] + stack[stack.len() - 1],
                    ),
                    s1,
                );
            },
            PolishToken::Mul => {
                lemma_run_append(
                    rest,
                    t2,
                    v,
                    stack.drop_last().drop_last().push(
                        stack[stack.len() - 2] * stack[stack.len() - 1],
                    ),
                    s1,
                );
            },
            PolishToken::SkipIf(f, n) => {
                if v.flags[f] {
                    lemma_run_append(rest, t2, v, stack, s1);
                } else {
                    assert(n <= rest.len());
                    assert((rest + t2).skip(n as int) =~= rest.skip(n as int) + t2);
                    lemma_run_append(rest.skip(n as int), t2, v, stack.push(0), s1);
                }
            },
        }
    }
}

/// A one-token push program pushes its value.
proof fn lemma_run_single<C>(p: Seq<PolishToken<C>>, v: Valuation<C>, stack: Seq<int>, x: int)
    requires
        p.len() == 1,
        match p[0] {
            PolishToken::Constant(c) => x == v.consts[c],
            PolishToken::Cell(col) => x == v.cols[col],
            PolishToken::Alpha(k) => x == pow(v.alpha, k as nat),
            PolishToken::Zero => x == 0,
            PolishToken::One => x == 1,
            _ => false,
        },
    ensures
        run_tokens(p, v, stack) == Some(stack.push(x)),
{
    assert(p.skip(1) =~= Seq::<PolishToken<C>>::empty());
    assert(run_tokens(p.skip(1), v, stack.push(x)) == Some(stack.push(x)));
}

/// Compiler correctness: on any starting stack, the compiled program runs to
/// completion and pushes exactly the value of the source expression.
pub proof fn lemma_polish_correct<C>(e: Expr<C>, v: Valuation<C>, stack: Seq<int>)
    requires
        polish_wf(e),
    ensures
        run_tokens(polish_spec(e), v, stack) == Some(stack.push(eval_expr(e, v))),
    decreases e,
{
    match e {
        Expr::Constant(c) => {
            lemma_run_single(polish_spec(e), v, stack, v.consts[c]);
        },
        Expr::Cell(col) => {
            lemma_run_single(polish_spec(e), v, stack, v.cols[col]);
        },
        Expr::Alpha(k) => {
            lemma_run_single(polish_spec(e), v, stack, pow(v.alpha, k as nat));
        },
        Expr::Zero => {
            lemma_run_single(polish_spec(e), v, stack, 0);
        },
        Expr::One => {
            lemma_run_single(polish_spec(e), v, stack, 1);
        },
        Expr::Add(a, b) => {
            let pa = polish_spec(*a);
            let pb = polish_spec(*b);
            let va = eval_expr(*a, v);
            let vb = eval_expr(*b, v);
            lemma_polish_correct(*a, v, stack);
            lemma_polish_correct(*b, v, stack.push(va));
            let op = seq![PolishToken::<C>::Add];
            assert(polish_spec(e) =~= pa + (pb + op));
            lemma_run_append(pa, pb + op, v, stack, stack.push(va));
            lemma_run_append(pb, op, v, stack.push(va), stack.push(va).push(vb));
            let s2 = stack.push(va).push(vb);
            assert(s2[s2.len() - 2] == va && s2[s2.len() - 1] == vb);
            assert(s2.drop_last().drop_last() =~= stack);
            assert(op.skip(1) =~= Seq::<PolishToken<C>>::empty());
            let s3 = s2.drop_last().drop_last().push(s2[s2.len() - 2] + s2[s2.len() - 1]);
            assert(run_tokens(op.skip(1), v, s3) == Some(s3));
            assert(run_tokens(op, v, s2) == Some(s3));
            assert(s3 =~= stack.push(va + vb));
        },
        Expr::Mul(a, b) => {
            let pa = polish_spec(*a);
            let pb = polish_spec(*b);
            let va = eval_expr(*a, v);
            let vb = eval_expr(*b, v);
            lemma_polish_correct(*a, v, stack);
            lemma_polish_correct(*b, v, stack.push(va));
            let op = seq![PolishToken::<C>::Mul];
            assert(polish_spec(e) =~= pa + (pb + op));
            lemma_run_append(pa, pb + op, v, stack, stack.push(va));
            lemma_run_append(pb, op, v, stack.push(va), stack.push(va).push(vb));
            let s2 = stack.push(va).push(vb);
            assert(s2[s2.len() - 2] == va && s2[s2.len() - 1] == vb);
            assert(s2.drop_last().drop_last() =~= stack);
            assert(op.skip(1) =~= Seq::<PolishToken<C>>::empty());
            let s3 = s2.drop_last().drop_last().push(s2[s2.len() - 2] * s2[s2.len() - 1]);
            assert(run_tokens(op.skip(1), v, s3) == Some(s3));
            assert(run_tokens(op, v, s2) == Some(s3));
            assert(s3 =~= stack.push(va * vb));
        },
        Expr::EnabledIf(f, a) => {
            let pa = polish_spec(*a);
            let whole = polish_spec(e);
            assert(whole[0] == PolishToken::<C>::SkipIf(f, pa.len() as usize));
            assert(whole.skip(1) =~= pa);
            if v.flags[f] {
                lemma_polish_correct(*a, v, stack);
                assert(run_tokens(whole.skip(1), v, stack) == Some(stack.push(eval_expr(*a, v))));
            } else {
                assert(pa.len() as usize as int == pa.len());
                assert(pa.skip(pa.len() as int) =~= Seq::<PolishToken<C>>::empty());
                assert(run_tokens(pa.skip(pa.len() as int), v, stack.push(0)) == Some(
                    stack.push(0),
                ));
                assert(run_tokens(whole, v, stack) == Some(stack.push(0)));
            }
        },
    }
}

/// Compiles an expression into its postfix program.
pub fn to_polish<C>(e: Expr<C>) -> (r: Vec<PolishToken<C>>)
    ensures
        r@ == polish_spec(e),
        polish_wf(e),
    decreases e,
{
    match e {
        Expr::Constant(c) => {
            let mut r = Vec::new();
            r.push(PolishToken::Constant(c));
            proof {
                assert(r@ =~= polish_spec(e));
            }
            r
        },
        Expr::Cell(col) => {
            let mut r = Vec::new();
            r.push(PolishToken::Cell(col));
            proof {
                assert(r@ =~= polish_spec(e));
            }
            r
        },
        Expr::Alpha(k) => {
            let mut r = Vec::new();
            r.push(PolishToken::Alpha(k));
            proof {
                assert(r@ =~= polish_spec(e));
            }
            r
        },
        Expr::Zero => {
            let mut r = Vec::new();
            r.push(PolishToken::Zero);
            proof {
                assert(r@ =~= polish_spec(e));
            }
            r
        },
        Expr::One => {
            let mut r = Vec::new();
            r.push(PolishToken::One);
            proof {
                assert(r@ =~= polish_spec(e));
            }
            r
        },
        Expr::Add(a, b) => {
            let ghost ge = e;
            let mut r = to_polish(*a);
            let mut rb = to_polish(*b);
            r.append(&mut rb);
            r.push(PolishToken::Add);
            proof {
                assert(r@ =~= polish_spec(ge));
            }
            r
        },
        Expr::Mul(a, b) => {
            let ghost ge = e;
            let mut r = to_polish(*a);
            let mut rb = to_polish(*b);
            r.append(&mut rb);
            r.push(PolishToken::Mul);
            proof {
                assert(r@ =~= polish_spec(ge));
            }
            r
        },
        Expr::EnabledIf(f, a) => {
            let ghost ge = e;
            let mut sub = to_polish(*a);
            let n = sub.len();
            let mut r = Vec::new();
            r.push(PolishToken::SkipIf(f, n));
            r.append(&mut sub);
            proof {
                assert(r@ =~= polish_spec(ge));
            }
            r
        },
    }
}

} // verus!
