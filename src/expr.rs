//! Expression trees, the failures of inversion, and the meaning of a tree.
use vstd::prelude::*;

verus! {

/// A binary operator. Only `Add`, `Sub`, `Mul` and `Div` can be inverted;
/// the others may still occur in operands that do not hold the unknown.
#[derive(Clone, Copy, Debug, PartialEq, Eq, Structural)]
pub enum BinOp {
    Add,
    Sub,
    Mul,
    Div,
    Rem,
    And,
    Or,
    BitXor,
    BitAnd,
    BitOr,
    Shl,
    Shr,
    Equal,
    Less,
    LessEqual,
    NotEqual,
    GreaterEqual,
    Greater,
    AddAssign,
    SubAssign,
    MulAssign,
    DivAssign,
    RemAssign,
    BitXorAssign,
    BitAndAssign,
    BitOrAssign,
    ShlAssign,
    ShrAssign,
}

/// An expression tree.
///
/// `Lit`, `Const`, `Var` and `Binary` are the node kinds that inversion accepts.
/// `Const` is a literal kept as its source text (a float, a suffixed or wide
/// integer): inversion carries it through without reading its value.
/// `Paren` is an explicit grouping node; inversion emits it but does not accept it.
/// `Unsupported` stands for any other node kind (unary operators, calls, ...).
#[derive(Debug, PartialEq, Eq)]
pub enum Expr {
    Lit(u64),
    Const(String),
    Var(String),
    Binary(BinOp, Box<Expr>, Box<Expr>),
    Paren(Box<Expr>),
    Unsupported,
}

/// Why an expression could not be inverted.
#[derive(Clone, Copy, Debug, PartialEq, Eq, Structural)]
pub enum ParseError {
    /// An operator outside `+ - * /` where one had to be inverted.
    BinOp,
    /// The unknown occurs on both sides of some binary node.
    Multiple,
    /// A subtree that had to hold the unknown does not.
    NoSolveFor,
    /// A variable other than the unknown was reached.
    UnexpectedIdentifier,
    /// The tree holds a node kind other than literal, constant, variable or binary operation.
    Validation,
}

/// A closure: its parameter names and its body.
#[derive(Debug, PartialEq, Eq)]
pub struct Closure {
    pub inputs: Vec<String>,
    pub body: Box<Expr>,
}

impl Clone for Expr {
    fn clone(&self) -> (r: Self)
        ensures
            r == *self,
        decreases self,
    {
        match self {
            Expr::Lit(n) => Expr::Lit(*n),
            Expr::Const(text) => Expr::Const(text.clone()),
            Expr::Var(name) => Expr::Var(name.clone()),
            Expr::Binary(op, l, r) => {
                let l2: Expr = (**l).clone();
                let r2: Expr = (**r).clone();
                Expr::Binary(*op, Box::new(l2), Box::new(r2))
            },
            Expr::Paren(inner) => {
                let i2: Expr = (**inner).clone();
                Expr::Paren(Box::new(i2))
            },
            Expr::Unsupported => Expr::Unsupported,
        }
    }
}

/// True of the four operators that inversion handles.
pub open spec fn is_arith(op: BinOp) -> bool {
    op is Add || op is Sub || op is Mul || op is Div
}

/// Every node is a literal, a constant, a variable or a binary operation.
pub open spec fn supported(e: Expr) -> bool
    decreases e,
{
    match e {
        Expr::Lit(_) => true,
        Expr::Const(_) => true,
        Expr::Var(_) => true,
        Expr::Binary(_, l, r) => supported(*l) && supported(*r),
        _ => false,
    }
}

/// Every binary operator in the tree is one of `+ - * /`.
pub open spec fn arith_only(e: Expr) -> bool
    decreases e,
{
    match e {
        Expr::Binary(op, l, r) => is_arith(op) && arith_only(*l) && arith_only(*r),
        Expr::Paren(inner) => arith_only(*inner),
        _ => true,
    }
}

/// How many leaves of the tree are the variable `x`.
pub open spec fn occurrences(e: Expr, x: Seq<char>) -> nat
    decreases e,
{
    match e {
        Expr::Var(name) => if name@ == x { 1 } else { 0 },
        Expr::Binary(_, l, r) => occurrences(*l, x) + occurrences(*r, x),
        Expr::Paren(inner) => occurrences(*inner, x),
        _ => 0,
    }
}

/// The variable `x` occurs somewhere in the tree.
pub open spec fn mentions(e: Expr, x: Seq<char>) -> bool
    decreases e,
{
    match e {
        Expr::Var(name) => name@ == x,
        Expr::Binary(_, l, r) => mentions(*l, x) || mentions(*r, x),
        Expr::Paren(inner) => mentions(*inner, x),
        _ => false,
    }
}

/// Some variable other than `x` occurs in the tree.
pub open spec fn has_other_var(e: Expr, x: Seq<char>) -> bool
    decreases e,
{
    match e {
        Expr::Var(name) => name@ != x,
        Expr::Binary(_, l, r) => has_other_var(*l, x) || has_other_var(*r, x),
        Expr::Paren(inner) => has_other_var(*inner, x),
        _ => false,
    }
}

/// The value of a tree over the naturals when `x` has the value `v`.
/// `None` where the tree reads another variable or a constant, subtracts past zero,
/// divides by zero or divides with a remainder, or holds another operator or node kind.
pub open spec fn eval(e: Expr, x: Seq<char>, v: nat) -> Option<nat>
    decreases e,
{
    match e {
        Expr::Lit(n) => Some(n as nat),
        Expr::Var(name) => if name@ == x { Some(v) } else { None },
        Expr::Paren(inner) => eval(*inner, x, v),
        Expr::Binary(op, l, r) => match (eval(*l, x, v), eval(*r, x, v)) {
            (Some(a), Some(b)) => apply(op, a, b),
            _ => None,
        },
        Expr::Const(_) => None,
        Expr::Unsupported => None,
    }
}

/// One operator on two naturals, defined where the result is an exact natural.
pub open spec fn apply(op: BinOp, a: nat, b: nat) -> Option<nat> {
    match op {
        BinOp::Add => Some(a + b),
        BinOp::Sub => if a >= b { Some((a - b) as nat) } else { None },
        BinOp::Mul => Some(a * b),
        BinOp::Div => if b != 0 && a % b == 0 { Some(a / b) } else { None },
        _ => None,
    }
}

} // verus!
