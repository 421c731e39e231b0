//! Inversion of a single-variable arithmetic expression.
use vstd::prelude::*;
use crate::expr::{BinOp, Closure, Expr, ParseError, has_other_var, mentions, supported};

verus! {

/// The algebraic inverse of an operator: `+` and `-` undo each other, as do `*` and `/`.
pub open spec fn inverse(op: BinOp) -> Result<BinOp, ParseError> {
    match op {
        BinOp::Add => Ok(BinOp::Sub),
        BinOp::Sub => Ok(BinOp::Add),
        BinOp::Mul => Ok(BinOp::Div),
        BinOp::Div => Ok(BinOp::Mul),
        _ => Err(ParseError::BinOp),
    }
}

/// `e` as the operand of a new `op` node: a composite `e` is grouped under `*` and `/`.
/// Under `+` and `-` no grouping node is added, so where `e` becomes the right
/// operand of `-`, a printer that writes the tree flat reads back `l - m - n`
/// for the tree `l - (m - n)`.
pub open spec fn grouped(e: Expr, op: BinOp) -> Result<Expr, ParseError> {
    match e {
        Expr::Lit(_) => Ok(e),
        Expr::Const(_) => Ok(e),
        Expr::Var(_) => Ok(e),
        _ => match op {
            BinOp::Add => Ok(e),
            BinOp::Sub => Ok(e),
            BinOp::Mul => Ok(Expr::Paren(Box::new(e))),
            BinOp::Div => Ok(Expr::Paren(Box::new(e))),
            _ => Err(ParseError::BinOp),
        },
    }
}

/// Walks `e` down to the unknown `x`, wrapping the accumulator `acc` in the
/// operation that undoes each step; the accumulator at the unknown is the answer.
/// The operand set aside at each step must hold no variable: `x` is the only
/// free variable an invertible expression may have.
pub open spec fn invert(e: Expr, acc: Expr, x: Seq<char>) -> Result<Expr, ParseError>
    decreases e,
{
    match e {
        Expr::Binary(op, l, r) => {
            let in_l = mentions(*l, x);
            let in_r = mentions(*r, x);
            match inverse(op) {
                Err(k) => Err(k),
                Ok(inv) => if in_l && !in_r {
                    if has_other_var(*r, x) {
                        Err(ParseError::UnexpectedIdentifier)
                    } else {
                        match grouped(acc, inv) {
                            Ok(g) => invert(*l, Expr::Binary(inv, Box::new(g), r), x),
                            Err(k) => Err(k),
                        }
                    }
                } else if !in_l && in_r {
                    if has_other_var(*l, x) {
                        Err(ParseError::UnexpectedIdentifier)
                    } else if op is Add || op is Mul {
                        match grouped(acc, inv) {
                            Ok(g) => invert(*r, Expr::Binary(inv, Box::new(g), l), x),
                            Err(k) => Err(k),
                        }
                    } else if op is Sub || op is Div {
                        match grouped(acc, op) {
                            Ok(g) => invert(*r, Expr::Binary(op, l, Box::new(g)), x),
                            Err(k) => Err(k),
                        }
                    } else {
                        Err(ParseError::BinOp)
                    }
                } else if in_l && in_r {
                    Err(ParseError::Multiple)
                } else {
                    Err(ParseError::NoSolveFor)
                }
            }
        },
        Expr::Var(name) => if name@ == x {
            Ok(acc)
        } else {
            Err(ParseError::UnexpectedIdentifier)
        },
        Expr::Lit(_) => Err(ParseError::NoSolveFor),
        Expr::Const(_) => Err(ParseError::NoSolveFor),
        _ => Err(ParseError::Validation),
    }
}

/// What solving `body` for `x` gives from the starting accumulator `acc`:
/// the validation failure, the inversion failure, or the inverse's body.
pub open spec fn solution(body: Expr, acc: Expr, x: Seq<char>) -> Result<Expr, ParseError> {
    if supported(body) {
        invert(body, acc, x)
    } else {
        Err(ParseError::Validation)
    }
}

/// The state of one inversion: the accumulator, the unknown, and the name
/// that the inverse's single parameter gets.
///
/// Call [`ClosureInverter::solve`] to build the inverse closure.
pub struct ClosureInverter {
    pub target_expr: Box<Expr>,
    pub solve_for: String,
    pub target_ident: String,
}

impl ClosureInverter {
    pub fn new(solve_for: String, target_ident: String) -> (r: Self)
        ensures
            *r.target_expr == Expr::Var(target_ident),
            r.solve_for == solve_for,
            r.target_ident == target_ident,
    {
        let start = Expr::Var(target_ident.clone());
        ClosureInverter { target_expr: Box::new(start), solve_for, target_ident }
    }

    /// Whether every node of `e` is a literal, a constant, a variable or a binary operation.
    pub fn validate_expr(e: &Expr) -> (r: bool)
        ensures
            r == supported(*e),
        decreases e,
    {
        match e {
            Expr::Binary(_, l, r) => Self::validate_expr(l) && Self::validate_expr(r),
            Expr::Lit(_) => true,
            Expr::Const(_) => true,
            Expr::Var(_) => true,
            _ => false,
        }
    }

    /// Whether the variable `target` occurs in `e`.
    pub fn check_contains_target(e: &Expr, target: &String) -> (r: bool)
        requires
            supported(*e),
        ensures
            r == mentions(*e, target@),
        decreases e,
    {
        match e {
            Expr::Binary(_, l, r) => Self::check_contains_target(l, target)
                || Self::check_contains_target(r, target),
            Expr::Lit(_) => false,
            Expr::Var(name) => *name == *target,
            _ => false,
        }
    }

    /// Whether some variable other than `target` occurs in `e`.
    pub fn check_other_identifier(e: &Expr, target: &String) -> (r: bool)
        requires
            supported(*e),
        ensures
            r == has_other_var(*e, target@),
        decreases e,
    {
        match e {
            Expr::Binary(_, l, r) => Self::check_other_identifier(l, target)
                || Self::check_other_identifier(r, target),
            Expr::Lit(_) => false,
            Expr::Var(name) => !(*name == *target),
            _ => false,
        }
    }

    /// `e` as the operand of a new `target_op` node, grouped where that is needed.
    pub fn parenthesize(e: Box<Expr>, target_op: BinOp) -> (r: Result<Box<Expr>, ParseError>)
        ensures
            r matches Ok(g) ==> grouped(*e, target_op) == Ok::<Expr, ParseError>(*g),
            r matches Err(k) ==> grouped(*e, target_op) == Err::<Expr, ParseError>(k),
    {
        match *e {
            Expr::Lit(_) => Ok(e),
            Expr::Const(_) => Ok(e),
            Expr::Var(_) => Ok(e),
            _ => match target_op {
                BinOp::Add | BinOp::Sub => Ok(e),
                BinOp::Mul | BinOp::Div => Ok(Box::new(Expr::Paren(e))),
                _ => Err(ParseError::BinOp),
            },
        }
    }

    fn build_expr_binary(left: Box<Expr>, op: BinOp, right: Box<Expr>) -> (r: Box<Expr>)
        ensures
            *r == Expr::Binary(op, left, right),
    {
        Box::new(Expr::Binary(op, left, right))
    }

    /// Descends `e` to the unknown, rebuilding the accumulator at each step.
    fn parse_expr(e: Expr, acc: Box<Expr>, solve_for: &String) -> (r: Result<Box<Expr>, ParseError>)
        requires
            supported(e),
        ensures
            r matches Ok(a) ==> invert(e, *acc, solve_for@) == Ok::<Expr, ParseError>(*a),
            r matches Err(k) ==> invert(e, *acc, solve_for@) == Err::<Expr, ParseError>(k),
        decreases e,
    {
        match e {
            Expr::Binary(op, l, r) => {
                let left = Self::check_contains_target(&l, solve_for);
                let right = Self::check_contains_target(&r, solve_for);
                let inverted_op = match inverse_bin_op(op) {
                    Ok(inv) => inv,
                    Err(k) => return Err(k),
                };
                if left && !right {
                    if Self::check_other_identifier(&r, solve_for) {
                        return Err(ParseError::UnexpectedIdentifier);
                    }
                    let g = match Self::parenthesize(acc, inverted_op) {
                        Ok(g) => g,
                        Err(k) => return Err(k),
                    };
                    let next = Self::build_expr_binary(g, inverted_op, r);
                    Self::parse_expr(*l, next, solve_for)
                } else if !left && right {
                    if Self::check_other_identifier(&l, solve_for) {
                        return Err(ParseError::UnexpectedIdentifier);
                    }
                    match op {
                        BinOp::Add | BinOp::Mul => {
                            let g = match Self::parenthesize(acc, inverted_op) {
                                Ok(g) => g,
                                Err(k) => return Err(k),
                            };
                            let next = Self::build_expr_binary(g, inverted_op, l);
                            Self::parse_expr(*r, next, solve_for)
                        },
                        BinOp::Sub | BinOp::Div => {
                            let g = match Self::parenthesize(acc, op) {
                                Ok(g) => g,
                                Err(k) => return Err(k),
                            };
                            let next = Self::build_expr_binary(l, op, g);
                            Self::parse_expr(*r, next, solve_for)
                        },
                        _ => Err(ParseError::BinOp),
                    }
                } else if left && right {
                    Err(ParseError::Multiple)
                } else {
                    Err(ParseError::NoSolveFor)
                }
            },
            Expr::Var(name) => {
                if name == *solve_for {
                    Ok(acc)
                } else {
                    Err(ParseError::UnexpectedIdentifier)
                }
            },
            _ => Err(ParseError::NoSolveFor),
        }
    }

    /// Inverts `closure`: the result is a closure of the one parameter
    /// `target_ident` whose body computes `solve_for` from the closure's value.
    pub fn solve(self, closure: &Closure) -> (r: Result<Closure, ParseError>)
        ensures
            match solution(*closure.body, *self.target_expr, self.solve_for@) {
                Ok(b) => r matches Ok(c) && *c.body == b && c.inputs@ == seq![self.target_ident],
                Err(k) => r == Err::<Closure, ParseError>(k),
            },
    {
        if Self::validate_expr(&closure.body) {
            let body: Expr = (*closure.body).clone();
            let target_expr = match Self::parse_expr(body, self.target_expr, &self.solve_for) {
                Ok(a) => a,
                Err(k) => return Err(k),
            };
            let inputs = vec![self.target_ident];
            Ok(Closure { inputs, body: target_expr })
        } else {
            Err(ParseError::Validation)
        }
    }
}

/// The inverse of `op`, or `BinOp` for an operator that has none here.
pub fn inverse_bin_op(op: BinOp) -> (r: Result<BinOp, ParseError>)
    ensures
        r == inverse(op),
{
    match op {
        BinOp::Add => Ok(BinOp::Sub),
        BinOp::Sub => Ok(BinOp::Add),
        BinOp::Mul => Ok(BinOp::Div),
        BinOp::Div => Ok(BinOp::Mul),
        _ => Err(ParseError::BinOp),
    }
}

} // verus!
