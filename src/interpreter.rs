//! Tree-walking evaluator.
//!
//! Numbers are IEEE-754 binary64 values held as their bit patterns. Every
//! operation on them (reading a literal, arithmetic, comparison, equality)
//! is asked of a number system that the caller hands in as two closures,
//! one that gives numbers and one that compares them; the
//! evaluator decides everything else: operand types, errors, truthiness,
//! equality of other values, string concatenation and which branch of a
//! ternary is taken.
//!
//! The ternary evaluates its condition and then only the branch it
//! selects. The comma operator evaluates its left operand, drops the value,
//! and yields the right one.
use vstd::prelude::*;
use crate::expr::Expr;
use crate::stmt::Stmt;
use crate::token::{Literal, Token, TokenType};

verus! {

/// A runtime value.
#[derive(Debug)]
pub enum Value {
    Null,
    Bool(bool),
    /// Bit pattern of a binary64 number.
    Number(u64),
    String(String),
}

impl Clone for Value {
    fn clone(&self) -> (r: Self)
        ensures
            r == *self,
    {
        match self {
            Value::Null => Value::Null,
            Value::Bool(b) => Value::Bool(*b),
            Value::Number(n) => Value::Number(*n),
            Value::String(s) => Value::String(s.clone()),
        }
    }
}

/// A request to the number system for a number.
#[derive(Debug)]
pub enum NumberOp {
    /// The value of a decimal literal, such as `45.67`.
    Parse(String),
    Negate(u64),
    Add(u64, u64),
    Subtract(u64, u64),
    Multiply(u64, u64),
    Divide(u64, u64),
}

/// A question to the number system about two numbers.
#[derive(Debug)]
pub enum NumberTest {
    Greater(u64, u64),
    GreaterEqual(u64, u64),
    Less(u64, u64),
    LessEqual(u64, u64),
    Equal(u64, u64),
}

/// What went wrong while evaluating.
#[derive(Debug, Clone, Copy, PartialEq, Eq, Structural)]
pub enum RuntimeErrorKind {
    OperandMustBeNumber,
    OperandsMustBeNumbers,
    OperandsMustBeNumbersOrStrings,
    UnknownOperator,
}

/// A runtime error, anchored at the operator that raised it.
#[derive(Debug)]
pub struct RuntimeError {
    pub token: Token,
    pub kind: RuntimeErrorKind,
}

impl RuntimeError {
    pub fn new(token: Token, kind: RuntimeErrorKind) -> (r: RuntimeError)
        ensures
            r == (RuntimeError { token, kind }),
    {
        RuntimeError { token, kind }
    }
}

/// Mathematical model of a [`Value`].
pub enum ValueView {
    Null,
    Bool(bool),
    Number(u64),
    String(Seq<char>),
}

impl View for Value {
    type V = ValueView;

    open spec fn view(&self) -> ValueView {
        match self {
            Value::Null => ValueView::Null,
            Value::Bool(b) => ValueView::Bool(*b),
            Value::Number(n) => ValueView::Number(*n),
            Value::String(s) => ValueView::String(s@),
        }
    }
}

/// Outcome of an evaluation, over models of values.
pub type Outcome = Result<ValueView, RuntimeError>;

pub open spec fn result_view(r: Result<Value, RuntimeError>) -> Outcome {
    match r {
        Ok(v) => Ok(v@),
        Err(e) => Err(e),
    }
}

/// A number system, as a function from requests to values.
/// The first function gives numbers, the second answers questions.
pub type NumberSystem = (spec_fn(NumberOp) -> u64, spec_fn(NumberTest) -> bool);

/// Every answer that the closures `compute` and `test` give is the one
/// that `ar` gives.
pub open spec fn follows<F: Fn(NumberOp) -> u64, T: Fn(NumberTest) -> bool>(
    compute: F,
    test: T,
    ar: NumberSystem,
) -> bool {
    &&& forall|op: NumberOp, v: u64| #[trigger] call_ensures(compute, (op,), v) ==> v == (ar.0)(op)
    &&& forall|q: NumberTest, b: bool| #[trigger] call_ensures(test, (q,), b) ==> b == (ar.1)(q)
}

/// Null and false are false; every other value is true, `0` and `""`
/// included.
pub open spec fn truthy(v: ValueView) -> bool {
    match v {
        ValueView::Null => false,
        ValueView::Bool(b) => b,
        _ => true,
    }
}

/// Equality of two values that are not both numbers: same variant and same
/// payload.
pub open spec fn same_value(a: ValueView, b: ValueView) -> bool {
    match (a, b) {
        (ValueView::Null, ValueView::Null) => true,
        (ValueView::Bool(x), ValueView::Bool(y)) => x == y,
        (ValueView::String(x), ValueView::String(y)) => x == y,
        _ => false,
    }
}

pub open spec fn runtime_error(op: Token, kind: RuntimeErrorKind) -> Outcome {
    Err(RuntimeError { token: op, kind })
}

/// The request for `-`, `/` or `*` on two numbers.
pub open spec fn number_op(kind: TokenType, a: u64, b: u64) -> NumberOp {
    match kind {
        TokenType::Minus => NumberOp::Subtract(a, b),
        TokenType::Slash => NumberOp::Divide(a, b),
        _ => NumberOp::Multiply(a, b),
    }
}

/// The question for `>`, `>=`, `<` or `<=` on two numbers.
pub open spec fn number_test(kind: TokenType, a: u64, b: u64) -> NumberTest {
    match kind {
        TokenType::Greater => NumberTest::Greater(a, b),
        TokenType::GreaterEqual => NumberTest::GreaterEqual(a, b),
        TokenType::Less => NumberTest::Less(a, b),
        _ => NumberTest::LessEqual(a, b),
    }
}

pub open spec fn ordering(kind: TokenType) -> bool {
    kind == TokenType::Greater || kind == TokenType::GreaterEqual || kind == TokenType::Less
        || kind == TokenType::LessEqual
}

/// Operators defined on numbers alone.
pub open spec fn numeric_only(kind: TokenType) -> bool {
    kind == TokenType::Greater || kind == TokenType::GreaterEqual || kind == TokenType::Less
        || kind == TokenType::LessEqual || kind == TokenType::Minus || kind == TokenType::Slash
        || kind == TokenType::Star
}

/// Value of a literal.
pub open spec fn literal_value(ar: NumberSystem, value: Option<Literal>) -> ValueView {
    match value {
        None => ValueView::Null,
        Some(Literal::Nil) => ValueView::Null,
        Some(Literal::Bool(b)) => ValueView::Bool(b),
        Some(Literal::Str(s)) => ValueView::String(s@),
        Some(Literal::Number(t)) => ValueView::Number((ar.0)(NumberOp::Parse(t))),
    }
}

/// A unary operator on the value of its operand.
pub open spec fn unary_value(ar: NumberSystem, op: Token, v: ValueView) -> Outcome {
    if op.kind == TokenType::Bang {
        Ok(ValueView::Bool(!truthy(v)))
    } else if op.kind == TokenType::Minus {
        match v {
            ValueView::Number(n) => Ok(ValueView::Number((ar.0)(NumberOp::Negate(n)))),
            _ => runtime_error(op, RuntimeErrorKind::OperandMustBeNumber),
        }
    } else {
        runtime_error(op, RuntimeErrorKind::UnknownOperator)
    }
}

/// A binary operator on the values of its operands.
pub open spec fn binary_value(ar: NumberSystem, op: Token, a: ValueView, b: ValueView) -> Outcome {
    let k = op.kind;
    if numeric_only(k) {
        match (a, b) {
            (ValueView::Number(x), ValueView::Number(y)) => if ordering(k) {
                Ok(ValueView::Bool((ar.1)(number_test(k, x, y))))
            } else {
                Ok(ValueView::Number((ar.0)(number_op(k, x, y))))
            },
            _ => runtime_error(op, RuntimeErrorKind::OperandsMustBeNumbers),
        }
    } else if k == TokenType::Plus {
        match (a, b) {
            (ValueView::Number(x), ValueView::Number(y)) => Ok(ValueView::Number((ar.0)(NumberOp::Add(x, y)))),
            (ValueView::String(x), ValueView::String(y)) => Ok(ValueView::String(x + y)),
            _ => runtime_error(op, RuntimeErrorKind::OperandsMustBeNumbersOrStrings),
        }
    } else if k == TokenType::EqualEqual || k == TokenType::BangEqual {
        let same = match (a, b) {
            (ValueView::Number(x), ValueView::Number(y)) => (ar.1)(NumberTest::Equal(x, y)),
            _ => same_value(a, b),
        };
        Ok(ValueView::Bool(same == (k == TokenType::EqualEqual)))
    } else if k == TokenType::Comma {
        Ok(b)
    } else {
        runtime_error(op, RuntimeErrorKind::UnknownOperator)
    }
}

/// Value of `e` under the number system `ar`: operands are evaluated left
/// to right, and the first error ends the evaluation.
pub open spec fn eval(ar: NumberSystem, e: Expr) -> Outcome
    decreases e,
{
    match e {
        Expr::Literal { value } => Ok(literal_value(ar, value)),
        Expr::Grouping { expression } => eval(ar, *expression),
        Expr::Unary { operator, right } => match eval(ar, *right) {
            Ok(v) => unary_value(ar, operator, v),
            Err(err) => Err(err),
        },
        Expr::Binary { left, operator, right } => match eval(ar, *left) {
            Ok(a) => match eval(ar, *right) {
                Ok(b) => binary_value(ar, operator, a, b),
                Err(err) => Err(err),
            },
            Err(err) => Err(err),
        },
        Expr::Ternary { left, mid, right } => match eval(ar, *left) {
            Ok(c) => if truthy(c) {
                eval(ar, *mid)
            } else {
                eval(ar, *right)
            },
            Err(err) => Err(err),
        },
    }
}

/// The number system accepts every request.
pub open spec fn total<F: Fn(NumberOp) -> u64, T: Fn(NumberTest) -> bool>(compute: F, test: T) -> bool {
    &&& forall|op: NumberOp| call_requires(compute, (op,))
    &&& forall|q: NumberTest| call_requires(test, (q,))
}

pub fn is_truthy(v: &Value) -> (r: bool)
    ensures
        r == truthy(v@),
{
    match v {
        Value::Null => false,
        Value::Bool(b) => *b,
        _ => true,
    }
}

/// Equality of two values that are not both numbers (numbers are compared
/// by the number system).
pub fn is_equal(a: &Value, b: &Value) -> (r: bool)
    requires
        !(a@ is Number && b@ is Number),
    ensures
        r == same_value(a@, b@),
{
    match (a, b) {
        (Value::Null, Value::Null) => true,
        (Value::Bool(x), Value::Bool(y)) => *x == *y,
        (Value::String(x), Value::String(y)) => x.eq(y),
        _ => false,
    }
}

/// Evaluates expressions; it holds no state, as the language has no
/// variables.
pub struct Interpreter {}

impl Interpreter {
    pub fn new() -> (r: Interpreter) {
        Interpreter {  }
    }

    /// Evaluates one expression.
    pub fn interprete<F: Fn(NumberOp) -> u64, T: Fn(NumberTest) -> bool>(&self, e: &Expr, compute: &F, test: &T) -> (r: Result<
        Value,
        RuntimeError,
    >)
        requires
            total(*compute, *test),
        ensures
            forall|ar: NumberSystem| #[trigger] follows(*compute, *test, ar) ==> result_view(r) == eval(ar, *e),
    {
        Self::evaluate(e, compute, test)
    }

    /// Evaluates `e`, asking `compute` for every number and `test` for every
    /// comparison or equality of two numbers.
    pub fn evaluate<F: Fn(NumberOp) -> u64, T: Fn(NumberTest) -> bool>(e: &Expr, compute: &F, test: &T) -> (r: Result<
        Value,
        RuntimeError,
    >)
        requires
            total(*compute, *test),
        ensures
            forall|ar: NumberSystem| #[trigger] follows(*compute, *test, ar) ==> result_view(r) == eval(ar, *e),
        decreases e,
    {
        match e {
            Expr::Literal { value } => Ok(Self::literal_expr(value, compute, test)),
            Expr::Grouping { expression } => Self::evaluate(expression, compute, test),
            Expr::Unary { operator, right } => match Self::evaluate(right, compute, test) {
                Err(err) => Err(err),
                Ok(v) => Self::unary_expr(operator, v, compute, test),
            },
            Expr::Binary { left, operator, right } => match Self::evaluate(left, compute, test) {
                Err(err) => Err(err),
                Ok(a) => match Self::evaluate(right, compute, test) {
                    Err(err) => Err(err),
                    Ok(b) => Self::binary_expr(operator, a, b, compute, test),
                },
            },
            Expr::Ternary { left, mid, right } => match Self::evaluate(left, compute, test) {
                Err(err) => Err(err),
                Ok(c) => if is_truthy(&c) {
                    Self::evaluate(mid, compute, test)
                } else {
                    Self::evaluate(right, compute, test)
                },
            },
        }
    }

    fn literal_expr<F: Fn(NumberOp) -> u64, T: Fn(NumberTest) -> bool>(value: &Option<Literal>, compute: &F, test: &T) -> (r: Value)
        requires
            total(*compute, *test),
        ensures
            forall|ar: NumberSystem| #[trigger] follows(*compute, *test, ar) ==> r@ == literal_value(ar, *value),
    {
        match value {
            None => Value::Null,
            Some(Literal::Nil) => Value::Null,
            Some(Literal::Bool(b)) => Value::Bool(*b),
            Some(Literal::Str(s)) => Value::String(s.clone()),
            Some(Literal::Number(t)) => Value::Number(compute(NumberOp::Parse(t.clone()))),
        }
    }

    fn unary_expr<F: Fn(NumberOp) -> u64, T: Fn(NumberTest) -> bool>(operator: &Token, v: Value, compute: &F, test: &T) -> (r: Result<
        Value,
        RuntimeError,
    >)
        requires
            total(*compute, *test),
        ensures
            forall|ar: NumberSystem| #[trigger] follows(*compute, *test, ar) ==> result_view(r) == unary_value(ar, *operator, v@),
    {
        match operator.kind {
            TokenType::Bang => Ok(Value::Bool(!is_truthy(&v))),
            TokenType::Minus => match v {
                Value::Number(n) => Ok(Value::Number(compute(NumberOp::Negate(n)))),
                _ => Err(RuntimeError::new(operator.clone(), RuntimeErrorKind::OperandMustBeNumber)),
            },
            _ => Err(RuntimeError::new(operator.clone(), RuntimeErrorKind::UnknownOperator)),
        }
    }

    fn binary_expr<F: Fn(NumberOp) -> u64, T: Fn(NumberTest) -> bool>(
        operator: &Token,
        a: Value,
        b: Value,
        compute: &F, test: &T,
    ) -> (r: Result<Value, RuntimeError>)
        requires
            total(*compute, *test),
        ensures
            forall|ar: NumberSystem| #[trigger] follows(*compute, *test, ar) ==> result_view(r) == binary_value(ar, *operator, a@, b@),
    {
        let k = operator.kind;
        match k {
            TokenType::Greater | TokenType::GreaterEqual | TokenType::Less | TokenType::LessEqual
            | TokenType::Minus | TokenType::Slash | TokenType::Star => match (a, b) {
                (Value::Number(x), Value::Number(y)) => match k {
                    TokenType::Greater => Ok(Value::Bool(test(NumberTest::Greater(x, y)))),
                    TokenType::GreaterEqual => Ok(Value::Bool(test(NumberTest::GreaterEqual(x, y)))),
                    TokenType::Less => Ok(Value::Bool(test(NumberTest::Less(x, y)))),
                    TokenType::LessEqual => Ok(Value::Bool(test(NumberTest::LessEqual(x, y)))),
                    TokenType::Minus => Ok(Value::Number(compute(NumberOp::Subtract(x, y)))),
                    TokenType::Slash => Ok(Value::Number(compute(NumberOp::Divide(x, y)))),
                    _ => Ok(Value::Number(compute(NumberOp::Multiply(x, y)))),
                },
                _ => Err(RuntimeError::new(operator.clone(), RuntimeErrorKind::OperandsMustBeNumbers)),
            },
            TokenType::Plus => match (a, b) {
                (Value::Number(x), Value::Number(y)) => Ok(Value::Number(compute(NumberOp::Add(x, y)))),
                (Value::String(x), Value::String(y)) => Ok(Value::String(x.concat(y.as_str()))),
                _ => Err(RuntimeError::new(operator.clone(), RuntimeErrorKind::OperandsMustBeNumbersOrStrings)),
            },
            TokenType::EqualEqual | TokenType::BangEqual => {
                let same = match (&a, &b) {
                    (Value::Number(x), Value::Number(y)) => test(NumberTest::Equal(*x, *y)),
                    _ => is_equal(&a, &b),
                };
                let want = k == TokenType::EqualEqual;
                Ok(Value::Bool(same == want))
            },
            TokenType::Comma => Ok(b),
            _ => Err(RuntimeError::new(operator.clone(), RuntimeErrorKind::UnknownOperator)),
        }
    }

    /// Executes statements in order until one fails: a print statement
    /// yields the value of its expression, an expression statement yields
    /// nothing. Returns what was printed, and the error that stopped the run.
    pub fn interprete_statements<F: Fn(NumberOp) -> u64, T: Fn(NumberTest) -> bool>(
        &self,
        stmts: &Vec<Stmt>,
        compute: &F, test: &T,
    ) -> (r: (Vec<Value>, Option<RuntimeError>))
        requires
            total(*compute, *test),
        ensures
            forall|ar: NumberSystem| #[trigger] follows(*compute, *test, ar) ==> (value_views(r.0@), r.1)
                == run_prefix(ar, stmts@, stmts@.len() as int),
    {
        let mut printed: Vec<Value> = Vec::new();
        let mut i: usize = 0;
        while i < stmts.len()
            invariant
                total(*compute, *test),
                i <= stmts@.len(),
                forall|ar: NumberSystem| #[trigger] follows(*compute, *test, ar) ==> (
                value_views(printed@), None::<RuntimeError>) == run_prefix(ar, stmts@, i as int),
            decreases stmts@.len() - i,
        {
            let (expression, is_print) = match &stmts[i] {
                Stmt::Expression { expression } => (expression, false),
                Stmt::Print { expression } => (expression, true),
            };
            match Self::evaluate(expression, compute, test) {
                Ok(v) => {
                    if is_print {
                        let ghost before = printed@;
                        printed.push(v);
                        proof {
                            assert(value_views(printed@) =~= value_views(before).push(v@));
                        }
                    }
                },
                Err(err) => {
                    proof {
                        assert forall|ar: NumberSystem| #[trigger] follows(*compute, *test, ar) implies (
                        value_views(printed@), Some(err)) == run_prefix(
                            ar,
                            stmts@,
                            stmts@.len() as int,
                        ) by {
                            lemma_stopped(ar, stmts@, i as int + 1, stmts@.len() as int);
                        }
                    }
                    return (printed, Some(err));
                },
            }
            i = i + 1;
        }
        (printed, None)
    }
}

pub open spec fn value_views(v: Seq<Value>) -> Seq<ValueView> {
    v.map_values(|x: Value| x@)
}

pub open spec fn stmt_expr(s: Stmt) -> Expr {
    match s {
        Stmt::Expression { expression } => expression,
        Stmt::Print { expression } => expression,
    }
}

/// What the first `i` statements print, and the error that stopped them,
/// if one did.
pub open spec fn run_prefix(ar: NumberSystem, s: Seq<Stmt>, i: int) -> (
    Seq<ValueView>,
    Option<RuntimeError>,
)
    decreases i,
{
    if i <= 0 {
        (Seq::empty(), None)
    } else {
        let (out, stop) = run_prefix(ar, s, i - 1);
        if stop is Some {
            (out, stop)
        } else {
            match eval(ar, stmt_expr(s[i - 1])) {
                Err(err) => (out, Some(err)),
                Ok(v) => if s[i - 1] is Print {
                    (out.push(v), None)
                } else {
                    (out, None)
                },
            }
        }
    }
}

/// Once a statement has failed, the later ones change nothing.
proof fn lemma_stopped(ar: NumberSystem, s: Seq<Stmt>, i: int, j: int)
    requires
        0 < i <= j,
        run_prefix(ar, s, i).1 is Some,
    ensures
        run_prefix(ar, s, j) == run_prefix(ar, s, i),
    decreases j - i,
{
    if i < j {
        lemma_stopped(ar, s, i, j - 1);
    }
}


impl RuntimeErrorKind {
    pub open spec fn text(self) -> Seq<char> {
        match self {
            RuntimeErrorKind::OperandMustBeNumber => "Operand must be a number."@,
            RuntimeErrorKind::OperandsMustBeNumbers => "Operands must be two numbers."@,
            RuntimeErrorKind::OperandsMustBeNumbersOrStrings => "Operands must be two numbers or two strings."@,
            RuntimeErrorKind::UnknownOperator => "Unknown operator."@,
        }
    }

    pub fn message(&self) -> (r: &'static str)
        ensures
            r@ == self.text(),
    {
        match self {
            RuntimeErrorKind::OperandMustBeNumber => "Operand must be a number.",
            RuntimeErrorKind::OperandsMustBeNumbers => "Operands must be two numbers.",
            RuntimeErrorKind::OperandsMustBeNumbersOrStrings => "Operands must be two numbers or two strings.",
            RuntimeErrorKind::UnknownOperator => "Unknown operator.",
        }
    }
}

/// Display text of a value; `sh` gives the text of a number.
pub open spec fn display_text(sh: spec_fn(u64) -> Seq<char>, v: ValueView) -> Seq<char> {
    match v {
        ValueView::Null => "nil"@,
        ValueView::Bool(b) => if b {
            "true"@
        } else {
            "false"@
        },
        ValueView::Number(n) => sh(n),
        ValueView::String(s) => s,
    }
}

/// Every text that the closure `show` gives is the one that `sh` gives.
pub open spec fn shows<G: Fn(u64) -> String>(show: G, sh: spec_fn(u64) -> Seq<char>) -> bool {
    forall|n: u64, t: String| #[trigger] call_ensures(show, (n,), t) ==> t@ == sh(n)
}

impl Value {
    /// Display text: `nil`, `true`, `false`, the number as `show` writes
    /// it, or the raw string.
    pub fn render<G: Fn(u64) -> String>(&self, show: &G) -> (r: String)
        requires
            forall|n: u64| call_requires(*show, (n,)),
        ensures
            forall|sh: spec_fn(u64) -> Seq<char>| #[trigger] shows(*show, sh) ==> r@ == display_text(sh, self@),
    {
        match self {
            Value::Null => String::from_str("nil"),
            Value::Bool(b) => if *b {
                String::from_str("true")
            } else {
                String::from_str("false")
            },
            Value::Number(n) => show(*n),
            Value::String(s) => s.clone(),
        }
    }
}

} // verus!
