use primox::ast_printer::AstPrinter;
use primox::expr::Expr;
use primox::rpn_printer::RpnPrinter;
use primox::token::{Literal, Token, TokenType};

/// Writes a number literal as its binary64 value.
fn number_text(t: String) -> String {
    format!("{}", t.parse::<f64>().unwrap())
}

fn number(n: f64) -> Option<Literal> {
    Some(Literal::Number(format!("{}", n)))
}

fn sample() -> Expr {
    Expr::binary(
        Expr::unary(Token::new(TokenType::Minus, "-", None, 1), Expr::literal(number(123.0))),
        Token::new(TokenType::Star, "*", None, 1),
        Expr::grouping(Expr::literal(number(45.67))),
    )
}

#[test]
fn ast_printer_test_print() {
    let expr = sample();
    assert_eq!(AstPrinter::print(&expr, &number_text), "(* (- 123) (group 45.67))");
}

#[test]
fn rpn_printer_test_print() {
    let expr = sample();
    assert_eq!(RpnPrinter::print(&expr, &number_text), "-123 45.67 *");
}

#[test]
fn prints_literals_and_ternary() {
    let expr = Expr::ternary(
        Expr::literal(Some(Literal::Bool(true))),
        Expr::literal(Some(Literal::Str("a".to_string()))),
        Expr::literal(None),
    );
    assert_eq!(AstPrinter::print(&expr, &number_text), "(?: true \"a\" nil)");
    assert_eq!(RpnPrinter::print(&expr, &number_text), "true \"a\" nil ?:");
    let nil = Expr::literal(Some(Literal::Nil));
    assert_eq!(AstPrinter::print(&nil, &number_text), "nil");
    let f = Expr::literal(Some(Literal::Bool(false)));
    assert_eq!(RpnPrinter::print(&f, &number_text), "false");
}

#[test]
fn numbers_print_as_their_value() {
    let expr = Expr::binary(
        Expr::literal(Some(Literal::Number("1.50".to_string()))),
        Token::new(TokenType::Plus, "+", None, 1),
        Expr::literal(Some(Literal::Number("007".to_string()))),
    );
    assert_eq!(AstPrinter::print(&expr, &number_text), "(+ 1.5 7)");
    assert_eq!(RpnPrinter::print(&expr, &number_text), "1.5 7 +");
}
