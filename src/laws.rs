//! What holds of every inversion.
use vstd::prelude::*;
use vstd::arithmetic::div_mod::{lemma_div_by_multiple, lemma_fundamental_div_mod, lemma_mod_multiples_basic};
use crate::expr::{
    BinOp, Expr, ParseError, apply, arith_only, eval, has_other_var, is_arith, mentions, occurrences,
    supported,
};
use crate::inverter::{grouped, invert, inverse, solution};

verus! {

/// No step on the way down to `x` loses information when `x` is `v`:
/// no operand that multiplies the side holding `x` is zero, and no dividend
/// whose divisor holds `x` is zero.
pub open spec fn reversible(e: Expr, x: Seq<char>, v: nat) -> bool
    decreases e,
{
    match e {
        Expr::Binary(op, l, r) => if mentions(*l, x) {
            reversible(*l, x, v) && (op is Mul ==> eval(*r, x, v) != Some(0nat))
        } else {
            reversible(*r, x, v) && ((op is Mul || op is Div) ==> eval(*l, x, v) != Some(0nat))
        },
        _ => true,
    }
}

/// On the way down from the root to the node where the occurrences of `x`
/// part (or to a leaf), every operator is one of `+ - * /` and every operand
/// set aside holds no variable.
pub open spec fn clear_to_unknown(e: Expr, x: Seq<char>) -> bool
    decreases e,
{
    match e {
        Expr::Binary(op, l, r) => is_arith(op) && if mentions(*l, x) && !mentions(*r, x) {
            !has_other_var(*r, x) && clear_to_unknown(*l, x)
        } else if !mentions(*l, x) && mentions(*r, x) {
            !has_other_var(*l, x) && clear_to_unknown(*r, x)
        } else {
            true
        },
        _ => true,
    }
}

proof fn lemma_mentions_occurrences(e: Expr, x: Seq<char>)
    ensures
        mentions(e, x) <==> occurrences(e, x) > 0,
    decreases e,
{
    match e {
        Expr::Binary(_, l, r) => {
            lemma_mentions_occurrences(*l, x);
            lemma_mentions_occurrences(*r, x);
        },
        Expr::Paren(inner) => lemma_mentions_occurrences(*inner, x),
        _ => {},
    }
}

/// A tree that has a value reads no variable but `x`.
proof fn lemma_eval_no_other_var(e: Expr, x: Seq<char>, v: nat)
    requires
        eval(e, x, v) is Some,
    ensures
        !has_other_var(e, x),
    decreases e,
{
    match e {
        Expr::Binary(_, l, r) => {
            lemma_eval_no_other_var(*l, x, v);
            lemma_eval_no_other_var(*r, x, v);
        },
        Expr::Paren(inner) => lemma_eval_no_other_var(*inner, x, v),
        _ => {},
    }
}

/// A tree without `x` that has a value has no variable at all, so its value
/// does not depend on which variable is bound.
proof fn lemma_eval_closed(e: Expr, x: Seq<char>, v: nat, y: Seq<char>, u: nat)
    requires
        !mentions(e, x),
        eval(e, x, v) is Some,
    ensures
        eval(e, y, u) == eval(e, x, v),
    decreases e,
{
    match e {
        Expr::Binary(_, l, r) => {
            lemma_eval_closed(*l, x, v, y, u);
            lemma_eval_closed(*r, x, v, y, u);
        },
        Expr::Paren(inner) => lemma_eval_closed(*inner, x, v, y, u),
        _ => {},
    }
}

proof fn lemma_grouped_arith(acc: Expr, op: BinOp)
    requires
        is_arith(op),
    ensures
        grouped(acc, op) matches Ok(g) && forall|y: Seq<char>, u: nat| eval(g, y, u) == #[trigger] eval(acc, y, u),
{
}

/// The step that undoes `op` gives back the operand that held the unknown.
proof fn lemma_undo_step(op: BinOp, a: nat, b: nat, c: nat, left: bool)
    requires
        is_arith(op),
        apply(op, a, b) == Some(c),
        left ==> (op is Mul ==> b != 0),
        !left ==> ((op is Mul || op is Div) ==> a != 0),
    ensures
        left ==> apply(inverse(op)->Ok_0, c, b) == Some(a),
        !left && (op is Add || op is Mul) ==> apply(inverse(op)->Ok_0, c, a) == Some(b),
        !left && (op is Sub || op is Div) ==> apply(op, a, c) == Some(b),
{
    let ai = a as int;
    let bi = b as int;
    if op is Mul {
        if left {
            lemma_mod_multiples_basic(ai, bi);
            lemma_div_by_multiple(ai, bi);
        } else {
            assert(ai * bi == bi * ai) by (nonlinear_arith);
            lemma_mod_multiples_basic(bi, ai);
            lemma_div_by_multiple(bi, ai);
        }
    } else if op is Div {
        lemma_fundamental_div_mod(ai, bi);
        let ci = c as int;
        assert(ai == bi * ci);
        if left {
            assert(ci * bi == bi * ci) by (nonlinear_arith);
        } else {
            assert(ci != 0) by (nonlinear_arith)
                requires ai == bi * ci, ai != 0;
            lemma_mod_multiples_basic(bi, ci);
            lemma_div_by_multiple(bi, ci);
        }
    }
}

proof fn lemma_invert_recovers(e: Expr, acc: Expr, x: Seq<char>, t: Seq<char>, v: nat, w: nat)
    requires
        supported(e),
        arith_only(e),
        occurrences(e, x) == 1,
        eval(e, x, v) is Some,
        eval(acc, t, w) == eval(e, x, v),
        reversible(e, x, v),
    ensures
        invert(e, acc, x) matches Ok(res) && eval(res, t, w) == Some(v),
    decreases e,
{
    match e {
        Expr::Binary(op, l, r) => {
            lemma_mentions_occurrences(*l, x);
            lemma_mentions_occurrences(*r, x);
            let a = eval(*l, x, v)->Some_0;
            let b = eval(*r, x, v)->Some_0;
            let c = eval(e, x, v)->Some_0;
            let inv = inverse(op)->Ok_0;
            lemma_eval_no_other_var(*l, x, v);
            lemma_eval_no_other_var(*r, x, v);
            if mentions(*l, x) {
                lemma_eval_closed(*r, x, v, t, w);
                lemma_grouped_arith(acc, inv);
                lemma_undo_step(op, a, b, c, true);
                let g = grouped(acc, inv)->Ok_0;
                assert(eval(g, t, w) == eval(acc, t, w));
                lemma_invert_recovers(*l, Expr::Binary(inv, Box::new(g), r), x, t, v, w);
            } else if op is Add || op is Mul {
                lemma_eval_closed(*l, x, v, t, w);
                lemma_grouped_arith(acc, inv);
                lemma_undo_step(op, a, b, c, false);
                let g = grouped(acc, inv)->Ok_0;
                assert(eval(g, t, w) == eval(acc, t, w));
                lemma_invert_recovers(*r, Expr::Binary(inv, Box::new(g), l), x, t, v, w);
            } else {
                lemma_eval_closed(*l, x, v, t, w);
                lemma_grouped_arith(acc, op);
                lemma_undo_step(op, a, b, c, false);
                let g = grouped(acc, op)->Ok_0;
                assert(eval(g, t, w) == eval(acc, t, w));
                lemma_invert_recovers(*r, Expr::Binary(op, l, Box::new(g)), x, t, v, w);
            }
        },
        _ => {},
    }
}

/// Round trip: if an expression built from literals, `+ - * /` and one
/// occurrence of `x` has the exact natural value `w` when `x` is `v`, and no
/// step towards `x` multiplies by zero or divides zero, then solving it for `x`
/// succeeds and the inverse, with its parameter `t` bound to `w`, evaluates to `v`.
pub proof fn lemma_round_trip(e: Expr, x: Seq<char>, t: String, v: nat)
    requires
        supported(e),
        arith_only(e),
        occurrences(e, x) == 1,
        eval(e, x, v) is Some,
        reversible(e, x, v),
    ensures
        solution(e, Expr::Var(t), x) matches Ok(inv) && eval(inv, t@, eval(e, x, v)->Some_0) == Some(v),
{
    lemma_invert_recovers(e, Expr::Var(t), x, t@, v, eval(e, x, v)->Some_0);
}

/// An expression without `x` fails with `NoSolveFor`, whenever it is not a
/// lone variable and its root operator, if any, is one of `+ - * /`.
pub proof fn lemma_absent_unknown(e: Expr, x: Seq<char>, acc: Expr)
    requires
        supported(e),
        occurrences(e, x) == 0,
        !(e is Var),
        e matches Expr::Binary(op, _, _) ==> is_arith(op),
    ensures
        solution(e, acc, x) == Err::<Expr, ParseError>(ParseError::NoSolveFor),
{
    if let Expr::Binary(_, l, r) = e {
        lemma_mentions_occurrences(*l, x);
        lemma_mentions_occurrences(*r, x);
    }
}

proof fn lemma_invert_multiple(e: Expr, acc: Expr, x: Seq<char>)
    requires
        supported(e),
        occurrences(e, x) >= 2,
        clear_to_unknown(e, x),
    ensures
        invert(e, acc, x) == Err::<Expr, ParseError>(ParseError::Multiple),
    decreases e,
{
    if let Expr::Binary(op, l, r) = e {
        lemma_mentions_occurrences(*l, x);
        lemma_mentions_occurrences(*r, x);
        let inv = inverse(op)->Ok_0;
        if mentions(*l, x) && !mentions(*r, x) {
            lemma_grouped_arith(acc, inv);
            lemma_invert_multiple(*l, Expr::Binary(inv, Box::new(grouped(acc, inv)->Ok_0), r), x);
        } else if !mentions(*l, x) && mentions(*r, x) {
            if op is Add || op is Mul {
                lemma_grouped_arith(acc, inv);
                lemma_invert_multiple(*r, Expr::Binary(inv, Box::new(grouped(acc, inv)->Ok_0), l), x);
            } else {
                lemma_grouped_arith(acc, op);
                lemma_invert_multiple(*r, Expr::Binary(op, l, Box::new(grouped(acc, op)->Ok_0)), x);
            }
        }
    }
}

/// An expression with two or more occurrences of `x` fails with `Multiple`,
/// whenever every operator on the way down to where they part is one of
/// `+ - * /` and no operand set aside on the way holds another variable.
pub proof fn lemma_repeated_unknown(e: Expr, x: Seq<char>, acc: Expr)
    requires
        supported(e),
        occurrences(e, x) >= 2,
        clear_to_unknown(e, x),
    ensures
        solution(e, acc, x) == Err::<Expr, ParseError>(ParseError::Multiple),
{
    lemma_invert_multiple(e, acc, x);
}

proof fn lemma_invert_stray(e: Expr, acc: Expr, x: Seq<char>)
    requires
        supported(e),
        arith_only(e),
        occurrences(e, x) == 1,
        has_other_var(e, x),
    ensures
        invert(e, acc, x) == Err::<Expr, ParseError>(ParseError::UnexpectedIdentifier),
    decreases e,
{
    if let Expr::Binary(op, l, r) = e {
        lemma_mentions_occurrences(*l, x);
        lemma_mentions_occurrences(*r, x);
        let inv = inverse(op)->Ok_0;
        if mentions(*l, x) {
            if !has_other_var(*r, x) {
                lemma_grouped_arith(acc, inv);
                lemma_invert_stray(*l, Expr::Binary(inv, Box::new(grouped(acc, inv)->Ok_0), r), x);
            }
        } else if !has_other_var(*l, x) {
            if op is Add || op is Mul {
                lemma_grouped_arith(acc, inv);
                lemma_invert_stray(*r, Expr::Binary(inv, Box::new(grouped(acc, inv)->Ok_0), l), x);
            } else {
                lemma_grouped_arith(acc, op);
                lemma_invert_stray(*r, Expr::Binary(op, l, Box::new(grouped(acc, op)->Ok_0)), x);
            }
        }
    }
}

/// An expression built from `+ - * /` with one occurrence of `x` and any
/// other variable fails with `UnexpectedIdentifier`: `x` must be the only
/// free variable, wherever the stray one stands.
pub proof fn lemma_stray_identifier(e: Expr, x: Seq<char>, acc: Expr)
    requires
        supported(e),
        arith_only(e),
        occurrences(e, x) == 1,
        has_other_var(e, x),
    ensures
        solution(e, acc, x) == Err::<Expr, ParseError>(ParseError::UnexpectedIdentifier),
{
    lemma_invert_stray(e, acc, x);
}

/// An expression with any node kind other than literal, constant, variable or
/// binary operation fails with `Validation`, before any rewriting.
pub proof fn lemma_unsupported_rejected(e: Expr, x: Seq<char>, acc: Expr)
    requires
        !supported(e),
    ensures
        solution(e, acc, x) == Err::<Expr, ParseError>(ParseError::Validation),
{
}

} // verus!
