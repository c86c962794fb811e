//! Expression trees. Each node owns its children.
use vstd::prelude::*;
use crate::token::{Literal, Token};

verus! {

#[derive(Debug)]
pub enum Expr {
    Binary { left: Box<Expr>, operator: Token, right: Box<Expr> },
    Grouping { expression: Box<Expr> },
    Literal { value: Option<Literal> },
    Ternary { left: Box<Expr>, mid: Box<Expr>, right: Box<Expr> },
    Unary { operator: Token, right: Box<Expr> },
}

impl Expr {
    pub fn binary(left: Expr, operator: Token, right: Expr) -> (r: Expr)
        ensures
            r == (Expr::Binary { left: Box::new(left), operator, right: Box::new(right) }),
    {
        Expr::Binary { left: Box::new(left), operator, right: Box::new(right) }
    }

    pub fn grouping(expression: Expr) -> (r: Expr)
        ensures
            r == (Expr::Grouping { expression: Box::new(expression) }),
    {
        Expr::Grouping { expression: Box::new(expression) }
    }

    pub fn literal(value: Option<Literal>) -> (r: Expr)
        ensures
            r == (Expr::Literal { value }),
    {
        Expr::Literal { value }
    }

    pub fn ternary(left: Expr, mid: Expr, right: Expr) -> (r: Expr)
        ensures
            r == (Expr::Ternary { left: Box::new(left), mid: Box::new(mid), right: Box::new(right) }),
    {
        Expr::Ternary { left: Box::new(left), mid: Box::new(mid), right: Box::new(right) }
    }

    pub fn unary(operator: Token, right: Expr) -> (r: Expr)
        ensures
            r == (Expr::Unary { operator, right: Box::new(right) }),
    {
        Expr::Unary { operator, right: Box::new(right) }
    }
}

} // verus!
