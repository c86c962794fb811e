use primox::ast_printer::AstPrinter;
use primox::expr::Expr;
use primox::interpreter::{Interpreter, NumberOp, NumberTest, RuntimeErrorKind, Value};
use primox::parser::{ParseErrorKind, Parser};
use primox::scanner::Scanner;
use primox::stmt::Stmt;
use primox::token::{Literal, Token, TokenType};
use primox::Lox;

/// Writes a number literal as its binary64 value.
fn number_text(t: String) -> String {
    format!("{}", t.parse::<f64>().unwrap())
}

fn f(bits: u64) -> f64 {
    f64::from_bits(bits)
}

fn compute(op: NumberOp) -> u64 {
    let x = match op {
        NumberOp::Parse(t) => t.parse::<f64>().unwrap(),
        NumberOp::Negate(a) => -f(a),
        NumberOp::Add(a, b) => f(a) + f(b),
        NumberOp::Subtract(a, b) => f(a) - f(b),
        NumberOp::Multiply(a, b) => f(a) * f(b),
        NumberOp::Divide(a, b) => f(a) / f(b),
    };
    x.to_bits()
}

fn compare(q: NumberTest) -> bool {
    match q {
        NumberTest::Greater(a, b) => f(a) > f(b),
        NumberTest::GreaterEqual(a, b) => f(a) >= f(b),
        NumberTest::Less(a, b) => f(a) < f(b),
        NumberTest::LessEqual(a, b) => f(a) <= f(b),
        NumberTest::Equal(a, b) => f(a) == f(b),
    }
}

fn show(bits: u64) -> String {
    format!("{}", f(bits))
}

fn parse_expr(src: &str) -> Expr {
    let (tokens, errors) = Scanner::new(src.to_string()).scan_tokens();
    assert!(errors.is_empty());
    let mut parser = Parser::new(tokens);
    match parser.expression() {
        Ok(e) => e,
        Err(e) => panic!("{:?}", e),
    }
}

fn prefix(src: &str) -> String {
    AstPrinter::print(&parse_expr(src), &number_text)
}

fn eval(src: &str) -> Result<Value, primox::interpreter::RuntimeError> {
    Interpreter::new().interprete(&parse_expr(src), &compute, &compare)
}

fn eval_number(src: &str) -> f64 {
    match eval(src) {
        Ok(Value::Number(b)) => f(b),
        other => panic!("{:?}", other),
    }
}

#[test]
fn multiplication_binds_tighter() {
    assert_eq!(prefix("1 + 2 * 3"), "(+ 1 (* 2 3))");
    match parse_expr("1 + 2 * 3") {
        Expr::Binary { operator, right, .. } => {
            assert_eq!(operator.kind, TokenType::Plus);
            assert!(matches!(*right, Expr::Binary { ref operator, .. } if operator.kind == TokenType::Star));
        },
        other => panic!("{:?}", other),
    }
}

#[test]
fn subtraction_leans_left() {
    assert_eq!(prefix("1 - 2 - 3"), "(- (- 1 2) 3)");
}

#[test]
fn ternary_leans_right() {
    assert_eq!(prefix("1 ? 2 : 3 ? 4 : 5"), "(?: 1 2 (?: 3 4 5))");
}

#[test]
fn prefix_form_of_parsed_source() {
    assert_eq!(prefix("-123 * (45.67)"), "(* (- 123) (group 45.67))");
    assert_eq!(prefix("!true == false, nil"), "(, (== (! true) false) nil)");
    assert_eq!(prefix("1 < 2 != 3 >= 4"), "(!= (< 1 2) (>= 3 4))");
}

#[test]
fn parse_errors_name_what_was_expected() {
    let (tokens, _) = Scanner::new("(1".to_string()).scan_tokens();
    let err = Parser::new(tokens).expression().unwrap_err();
    assert_eq!(err.kind, ParseErrorKind::ExpectRightParen);
    assert_eq!(err.token.kind, TokenType::Eof);
    assert_eq!(err.report(), "[line 1] Error at end: Expect ')' after expression.");
    let (tokens, _) = Scanner::new("1 ? 2".to_string()).scan_tokens();
    let err = Parser::new(tokens).expression().unwrap_err();
    assert_eq!(err.kind, ParseErrorKind::ExpectColon);
    let (tokens, _) = Scanner::new("1".to_string()).scan_tokens();
    let (stmts, errors) = Parser::new(tokens).parse();
    assert!(stmts.is_empty());
    assert_eq!(errors[0].kind, ParseErrorKind::ExpectSemicolonAfterExpression);
    let (tokens, _) = Scanner::new("print 1".to_string()).scan_tokens();
    let (_, errors) = Parser::new(tokens).parse();
    assert_eq!(errors[0].kind, ParseErrorKind::ExpectSemicolonAfterValue);
}

#[test]
fn recovery_after_a_broken_statement() {
    let (tokens, _) = Scanner::new("1 + ; print 2;".to_string()).scan_tokens();
    let (stmts, errors) = Parser::new(tokens).parse();
    assert_eq!(errors.len(), 1);
    assert_eq!(errors[0].kind, ParseErrorKind::ExpectExpression);
    assert_eq!(errors[0].token.lexeme, ";");
    assert_eq!(errors[0].report(), "[line 1] Error at ';': Expect expression.");
    assert_eq!(stmts.len(), 1);
    match &stmts[0] {
        Stmt::Print { expression } => assert_eq!(AstPrinter::print(expression, &number_text), "2"),
        other => panic!("{:?}", other),
    }
}

#[test]
fn arithmetic_and_concatenation() {
    assert_eq!(eval_number("2 * (3 + 4)"), 14.0);
    assert_eq!(eval_number("10 / 4 - -1"), 3.5);
    match eval("\"a\" + \"b\"") {
        Ok(Value::String(s)) => assert_eq!(s, "ab"),
        other => panic!("{:?}", other),
    }
    let err = eval("1 + \"a\"").unwrap_err();
    assert_eq!(err.kind, RuntimeErrorKind::OperandsMustBeNumbersOrStrings);
    assert_eq!(err.token.kind, TokenType::Plus);
    assert_eq!(err.report(), "[line 1] Error at '+': Operands must be two numbers or two strings.");
}

#[test]
fn division_by_zero_is_not_an_error() {
    assert_eq!(eval_number("1 / 0"), f64::INFINITY);
}

#[test]
fn type_errors() {
    assert_eq!(eval("-\"a\"").unwrap_err().kind, RuntimeErrorKind::OperandMustBeNumber);
    assert_eq!(eval("1 < true").unwrap_err().kind, RuntimeErrorKind::OperandsMustBeNumbers);
    assert_eq!(eval("(1 < nil) + 2").unwrap_err().kind, RuntimeErrorKind::OperandsMustBeNumbers);
}

#[test]
fn truthiness_in_ternary() {
    assert_eq!(eval_number("true ? 1 : 2"), 1.0);
    assert_eq!(eval_number("nil ? 1 : 2"), 2.0);
    assert_eq!(eval_number("0 ? 1 : 2"), 1.0);
    assert_eq!(eval_number("\"\" ? 1 : 2"), 1.0);
    assert_eq!(eval_number("false ? 1 : 2"), 2.0);
    assert_eq!(eval_number("true ? 1 : -\"x\""), 1.0);
}

#[test]
fn equality_and_negation() {
    assert!(matches!(eval("1 == 1.0"), Ok(Value::Bool(true))));
    assert!(matches!(eval("1 == \"1\""), Ok(Value::Bool(false))));
    assert!(matches!(eval("nil == nil"), Ok(Value::Bool(true))));
    assert!(matches!(eval("\"a\" != \"a\""), Ok(Value::Bool(false))));
    assert!(matches!(eval("!nil"), Ok(Value::Bool(true))));
    assert!(matches!(eval("!0"), Ok(Value::Bool(false))));
    assert!(matches!(eval("0 / 0 == 0 / 0"), Ok(Value::Bool(false))));
    assert!(matches!(eval("2 >= 2"), Ok(Value::Bool(true))));
}

#[test]
fn comma_yields_its_right_operand() {
    assert_eq!(eval_number("1, 2"), 2.0);
}

#[test]
fn run_prints_values() {
    let mut lox = Lox::new();
    let lines = lox.run("print 1 + 2; 3; print \"x\"; print nil; print 1 < 2;".to_string(), &compute, &compare, &show);
    assert_eq!(lines, vec!["3", "x", "nil", "true"]);
    assert!(!lox.had_error());
    assert!(!lox.had_runtime_error());
}

#[test]
fn run_reports_syntax_errors_and_runs_nothing() {
    let mut lox = Lox::new();
    let lines = lox.run("print 1;\n1 + ;\n@".to_string(), &compute, &compare, &show);
    assert_eq!(
        lines,
        vec!["[line 3] Error: Unexpected character", "[line 2] Error at ';': Expect expression."]
    );
    assert!(lox.had_error());
    lox.clear_error();
    assert!(!lox.had_error());
}

#[test]
fn run_stops_at_runtime_error() {
    let mut lox = Lox::new();
    let lines = lox.run("print 1;\nprint -nil;\nprint 2;".to_string(), &compute, &compare, &show);
    assert_eq!(lines, vec!["1", "[line 2] Error at '-': Operand must be a number."]);
    assert!(lox.had_runtime_error());
    assert!(!lox.had_error());
}

#[test]
fn error_message_format() {
    assert_eq!(Lox::error_message(12, " at end", "oops"), "[line 12] Error at end: oops");
    assert_eq!(Lox::error_message(0, "", "x"), "[line 0] Error: x");
    assert_eq!(primox::decimal_text(1234567890), "1234567890");
}

#[test]
fn hand_built_tree_with_unknown_operator() {
    let one = || Expr::literal(Some(Literal::Number("1".to_string())));
    let e = Expr::binary(one(), Token::new(TokenType::Dot, ".", None, 4), one());
    let err = Interpreter::evaluate(&e, &compute, &compare).unwrap_err();
    assert_eq!(err.kind, RuntimeErrorKind::UnknownOperator);
    assert_eq!(err.report(), "[line 4] Error at '.': Unknown operator.");
    let e = Expr::unary(Token::new(TokenType::Plus, "+", None, 1), one());
    let err = Interpreter::evaluate(&e, &compute, &compare).unwrap_err();
    assert_eq!(err.kind, RuntimeErrorKind::UnknownOperator);
}
