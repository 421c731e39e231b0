//! Symbolic inversion of single-variable arithmetic expressions.
pub mod expr;
pub mod inverter;
pub mod laws;

pub use expr::{BinOp, Closure, Expr, ParseError};
pub use inverter::{ClosureInverter, inverse_bin_op};
