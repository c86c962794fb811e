//! Prints a tree in parenthesized prefix form: `(* (- 123) (group 45.67))`.
//!
//! A number literal is printed as its value, not as it was written: the
//! caller passes the function that writes the number a decimal text stands
//! for (`1.50` prints as `1.5` in binary64 notation).
use vstd::prelude::*;
use crate::expr::Expr;
use crate::token::{Literal, LiteralView};

verus! {

/// Every text that the closure `number` writes for a number literal is the
/// one that `nt` gives.
pub open spec fn writes_numbers<N: Fn(String) -> String>(
    number: N,
    nt: spec_fn(Seq<char>) -> Seq<char>,
) -> bool {
    forall|t: String, r: String| #[trigger] call_ensures(number, (t,), r) ==> r@ == nt(t@)
}

pub open spec fn accepts_numbers<N: Fn(String) -> String>(number: N) -> bool {
    forall|t: String| call_requires(number, (t,))
}

/// Text of a literal: `nil`, `true`, `false`, a number as `nt` writes it,
/// or a string in double quotes.
pub open spec fn literal_text(nt: spec_fn(Seq<char>) -> Seq<char>, v: LiteralView) -> Seq<char> {
    match v {
        LiteralView::Nil => "nil"@,
        LiteralView::Bool(b) => if b {
            "true"@
        } else {
            "false"@
        },
        LiteralView::Number(t) => nt(t),
        LiteralView::Str(t) => "\""@ + t + "\""@,
    }
}

pub open spec fn optional_literal_text(
    nt: spec_fn(Seq<char>) -> Seq<char>,
    v: Option<Literal>,
) -> Seq<char> {
    match v {
        Some(l) => literal_text(nt, l@),
        None => "nil"@,
    }
}

/// Prefix form of a tree.
pub open spec fn prefix_text(nt: spec_fn(Seq<char>) -> Seq<char>, e: Expr) -> Seq<char>
    decreases e,
{
    match e {
        Expr::Binary { left, operator, right } => "("@ + operator.lexeme@ + " "@
            + prefix_text(nt, *left) + " "@ + prefix_text(nt, *right) + ")"@,
        Expr::Grouping { expression } => "(group "@ + prefix_text(nt, *expression) + ")"@,
        Expr::Literal { value } => optional_literal_text(nt, value),
        Expr::Ternary { left, mid, right } => "(?: "@ + prefix_text(nt, *left) + " "@
            + prefix_text(nt, *mid) + " "@ + prefix_text(nt, *right) + ")"@,
        Expr::Unary { operator, right } => "("@ + operator.lexeme@ + " "@ + prefix_text(nt, *right)
            + ")"@,
    }
}

impl Literal {
    /// The literal as source-like text, its number written by `number`.
    pub fn print<N: Fn(String) -> String>(&self, number: &N) -> (r: String)
        requires
            accepts_numbers(*number),
        ensures
            forall|nt: spec_fn(Seq<char>) -> Seq<char>| #[trigger] writes_numbers(*number, nt) ==> r@ == literal_text(nt, self@),
    {
        match self {
            Literal::Nil => String::from_str("nil"),
            Literal::Bool(b) => if *b {
                String::from_str("true")
            } else {
                String::from_str("false")
            },
            Literal::Number(t) => number(t.clone()),
            Literal::Str(t) => {
                let mut r = String::from_str("\"");
                r.append(t.as_str());
                r.append("\"");
                r
            },
        }
    }
}

pub fn print_optional_literal<N: Fn(String) -> String>(v: &Option<Literal>, number: &N) -> (r: String)
    requires
        accepts_numbers(*number),
    ensures
        forall|nt: spec_fn(Seq<char>) -> Seq<char>| #[trigger] writes_numbers(*number, nt) ==> r@ == optional_literal_text(nt, *v),
{
    match v {
        Some(l) => l.print(number),
        None => String::from_str("nil"),
    }
}

pub struct AstPrinter;

impl AstPrinter {
    /// Prefix form of `e`; `number` writes a number literal.
    pub fn print<N: Fn(String) -> String>(e: &Expr, number: &N) -> (r: String)
        requires
            accepts_numbers(*number),
        ensures
            forall|nt: spec_fn(Seq<char>) -> Seq<char>| #[trigger] writes_numbers(*number, nt) ==> r@ == prefix_text(nt, *e),
        decreases e,
    {
        match e {
            Expr::Binary { left, operator, right } => {
                let mut r = String::from_str("(");
                r.append(operator.lexeme.as_str());
                r.append(" ");
                r.append(Self::print(left, number).as_str());
                r.append(" ");
                r.append(Self::print(right, number).as_str());
                r.append(")");
                r
            },
            Expr::Grouping { expression } => {
                let mut r = String::from_str("(group ");
                r.append(Self::print(expression, number).as_str());
                r.append(")");
                r
            },
            Expr::Literal { value } => print_optional_literal(value, number),
            Expr::Ternary { left, mid, right } => {
                let mut r = String::from_str("(?: ");
                r.append(Self::print(left, number).as_str());
                r.append(" ");
                r.append(Self::print(mid, number).as_str());
                r.append(" ");
                r.append(Self::print(right, number).as_str());
                r.append(")");
                r
            },
            Expr::Unary { operator, right } => {
                let mut r = String::from_str("(");
                r.append(operator.lexeme.as_str());
                r.append(" ");
                r.append(Self::print(right, number).as_str());
                r.append(")");
                r
            },
        }
    }
}

} // verus!
