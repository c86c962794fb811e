//! Statements: an expression evaluated for its effect, or printed.
use vstd::prelude::*;
use crate::expr::Expr;

verus! {

#[derive(Debug)]
pub enum Stmt {
    Expression { expression: Expr },
    Print { expression: Expr },
}

} // verus!
