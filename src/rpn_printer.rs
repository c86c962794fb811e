//! Prints a tree in reverse Polish notation: `-123 45.67 *`.
use vstd::prelude::*;
use crate::ast_printer::{accepts_numbers, optional_literal_text, print_optional_literal, writes_numbers};
use crate::expr::Expr;

verus! {

/// Postfix form of a tree: operands first, then the operator; a grouping
/// prints as its content, and a unary operator sticks to its operand.
pub open spec fn postfix_text(nt: spec_fn(Seq<char>) -> Seq<char>, e: Expr) -> Seq<char>
    decreases e,
{
    match e {
        Expr::Binary { left, operator, right } => postfix_text(nt, *left) + " "@ + postfix_text(nt, *right)
            + " "@ + operator.lexeme@,
        Expr::Grouping { expression } => postfix_text(nt, *expression),
        Expr::Literal { value } => optional_literal_text(nt, value),
        Expr::Ternary { left, mid, right } => postfix_text(nt, *left) + " "@ + postfix_text(nt, *mid)
            + " "@ + postfix_text(nt, *right) + " ?:"@,
        Expr::Unary { operator, right } => operator.lexeme@ + postfix_text(nt, *right),
    }
}

pub struct RpnPrinter;

impl RpnPrinter {
    /// Postfix form of `e`; `number` writes a number literal.
    pub fn print<N: Fn(String) -> String>(e: &Expr, number: &N) -> (r: String)
        requires
            accepts_numbers(*number),
        ensures
            forall|nt: spec_fn(Seq<char>) -> Seq<char>| #[trigger] writes_numbers(*number, nt) ==> r@ == postfix_text(nt, *e),
        decreases e,
    {
        match e {
            Expr::Binary { left, operator, right } => {
                let mut r = Self::print(left, number);
                r.append(" ");
                r.append(Self::print(right, number).as_str());
                r.append(" ");
                r.append(operator.lexeme.as_str());
                r
            },
            Expr::Grouping { expression } => Self::print(expression, number),
            Expr::Literal { value } => print_optional_literal(value, number),
            Expr::Ternary { left, mid, right } => {
                let mut r = Self::print(left, number);
                r.append(" ");
                r.append(Self::print(mid, number).as_str());
                r.append(" ");
                r.append(Self::print(right, number).as_str());
                r.append(" ?:");
                r
            },
            Expr::Unary { operator, right } => {
                let mut r = operator.lexeme.clone();
                r.append(Self::print(right, number).as_str());
                r
            },
        }
    }
}

} // verus!
