use primox::scanner::{keywords, ScanErrorKind, Scanner};
use primox::token::{Literal, Token, TokenType};

fn scan(src: &str) -> (Vec<Token>, Vec<primox::scanner::ScanError>) {
    let mut scanner = Scanner::new(src.to_string());
    scanner.scan_tokens()
}

fn kinds(tokens: &[Token]) -> Vec<TokenType> {
    tokens.iter().map(|t| t.kind).collect()
}

#[test]
fn each_operator_alone_gives_one_token() {
    let cases = [
        ("(", TokenType::LeftParen),
        (")", TokenType::RightParen),
        ("{", TokenType::LeftBrace),
        ("}", TokenType::RightBrace),
        (",", TokenType::Comma),
        (".", TokenType::Dot),
        ("-", TokenType::Minus),
        ("+", TokenType::Plus),
        (";", TokenType::Semicolon),
        ("*", TokenType::Star),
        ("?", TokenType::Question),
        (":", TokenType::Colon),
        ("/", TokenType::Slash),
        ("!", TokenType::Bang),
        ("!=", TokenType::BangEqual),
        ("=", TokenType::Equal),
        ("==", TokenType::EqualEqual),
        ("<", TokenType::Less),
        ("<=", TokenType::LessEqual),
        (">", TokenType::Greater),
        (">=", TokenType::GreaterEqual),
    ];
    for (text, kind) in cases {
        let (tokens, errors) = scan(text);
        assert!(errors.is_empty(), "{}", text);
        assert_eq!(kinds(&tokens), vec![kind, TokenType::Eof], "{}", text);
        assert_eq!(tokens[0].lexeme, text);
        assert_eq!(tokens[1].lexeme, "");
    }
}

#[test]
fn keyword_prefix_is_an_identifier() {
    let (tokens, _) = scan("classify");
    assert_eq!(kinds(&tokens), vec![TokenType::Identifier, TokenType::Eof]);
    assert_eq!(tokens[0].lexeme, "classify");
    let (tokens, _) = scan("class");
    assert_eq!(kinds(&tokens), vec![TokenType::Class, TokenType::Eof]);
}

#[test]
fn keyword_table() {
    assert_eq!(keywords("while"), Some(TokenType::While));
    assert_eq!(keywords("nil"), Some(TokenType::Nil));
    assert_eq!(keywords("print"), Some(TokenType::Print));
    assert_eq!(keywords("whil"), None);
    assert_eq!(keywords(""), None);
}

#[test]
fn number_with_fraction() {
    let (tokens, errors) = scan("45.67");
    assert!(errors.is_empty());
    assert_eq!(kinds(&tokens), vec![TokenType::Number, TokenType::Eof]);
    match &tokens[0].literal {
        Some(Literal::Number(t)) => assert_eq!(t.parse::<f64>().unwrap(), 45.67),
        other => panic!("{:?}", other),
    }
}

#[test]
fn trailing_dot_is_not_part_of_number() {
    let (tokens, errors) = scan("45.");
    assert!(errors.is_empty());
    assert_eq!(kinds(&tokens), vec![TokenType::Number, TokenType::Dot, TokenType::Eof]);
    assert_eq!(tokens[0].lexeme, "45");
}

#[test]
fn string_literal_and_lines() {
    let (tokens, errors) = scan("\"ab\ncd\" x");
    assert!(errors.is_empty());
    assert_eq!(kinds(&tokens), vec![TokenType::String, TokenType::Identifier, TokenType::Eof]);
    assert_eq!(tokens[0].lexeme, "\"ab\ncd\"");
    match &tokens[0].literal {
        Some(Literal::Str(t)) => assert_eq!(t, "ab\ncd"),
        other => panic!("{:?}", other),
    }
    assert_eq!(tokens[0].line, 2);
    assert_eq!(tokens[2].line, 2);
}

#[test]
fn comments_are_skipped() {
    let (tokens, errors) = scan("1 // one\n/* two\nthree */ 2");
    assert!(errors.is_empty());
    assert_eq!(kinds(&tokens), vec![TokenType::Number, TokenType::Number, TokenType::Eof]);
    assert_eq!(tokens[0].line, 1);
    assert_eq!(tokens[1].line, 3);
}

#[test]
fn scan_errors_are_collected() {
    let (tokens, errors) = scan("@ 1 \"open");
    assert_eq!(errors.len(), 2);
    assert_eq!(errors[0].kind, ScanErrorKind::UnexpectedCharacter);
    assert_eq!(errors[1].kind, ScanErrorKind::UnterminatedString);
    assert_eq!(kinds(&tokens), vec![TokenType::Number, TokenType::Eof]);
    let (tokens, errors) = scan("/* never closed\n");
    assert_eq!(errors.len(), 1);
    assert_eq!(errors[0].kind, ScanErrorKind::UnterminatedComment);
    assert_eq!(errors[0].line, 2);
    assert_eq!(kinds(&tokens), vec![TokenType::Eof]);
}

#[test]
fn empty_source_gives_only_end() {
    let (tokens, errors) = scan("");
    assert!(errors.is_empty());
    assert_eq!(kinds(&tokens), vec![TokenType::Eof]);
    assert_eq!(tokens[0].line, 1);
}

#[test]
fn scanning_drops_comments_and_blanks() {
    let source = "1 +  2 // sum";
    let (tokens, _) = scan(source);
    let joined: String = tokens.iter().map(|t| t.lexeme.clone()).collect::<Vec<_>>().join(" ");
    assert_ne!(joined, source);
    let (again, again_errors) = scan(&joined);
    assert!(again_errors.is_empty());
    assert_eq!(kinds(&again), kinds(&tokens));
    let lexemes = |t: &[Token]| t.iter().map(|x| x.lexeme.clone()).collect::<Vec<_>>();
    assert_eq!(lexemes(&again), lexemes(&tokens));
    let (other, _) = scan("1+2");
    assert_eq!(kinds(&other), kinds(&tokens));
}

#[test]
fn rescanning_joined_lexemes_keeps_strings_and_numbers() {
    let source = "x=\"a \\\" b\"/*c*/45.;!=\n12.5";
    let (tokens, errors) = scan(source);
    assert!(errors.is_empty());
    let joined: String = tokens.iter().map(|t| t.lexeme.clone()).collect::<Vec<_>>().join(" ");
    let (again, again_errors) = scan(&joined);
    assert!(again_errors.is_empty());
    assert_eq!(kinds(&again), kinds(&tokens));
    let lexemes = |t: &[Token]| t.iter().map(|x| x.lexeme.clone()).collect::<Vec<_>>();
    assert_eq!(lexemes(&again), lexemes(&tokens));
}

#[test]
fn escaped_quote_does_not_end_a_string() {
    let source = "\"a\\\"b\"";
    assert_eq!(source.chars().count(), 6);
    let (tokens, errors) = scan(source);
    assert!(errors.is_empty());
    assert_eq!(kinds(&tokens), vec![TokenType::String, TokenType::Eof]);
    assert_eq!(tokens[0].lexeme, source);
    match &tokens[0].literal {
        Some(Literal::Str(t)) => assert_eq!(t, "a\\\"b"),
        other => panic!("{:?}", other),
    }
}

#[test]
fn string_ending_in_escaped_quote_is_unterminated() {
    let (tokens, errors) = scan("\"a\\\"\n");
    assert_eq!(errors.len(), 1);
    assert_eq!(errors[0].kind, ScanErrorKind::UnterminatedString);
    assert_eq!(errors[0].line, 2);
    assert_eq!(kinds(&tokens), vec![TokenType::Eof]);
}

#[test]
fn escaped_backslash_then_quote_ends_a_string() {
    let (tokens, errors) = scan("\"a\\\\\" 1");
    assert!(errors.is_empty());
    assert_eq!(kinds(&tokens), vec![TokenType::String, TokenType::Number, TokenType::Eof]);
    match &tokens[0].literal {
        Some(Literal::Str(t)) => assert_eq!(t, "a\\\\"),
        other => panic!("{:?}", other),
    }
    let (tokens, errors) = scan("\"x\\");
    assert_eq!(errors.len(), 1);
    assert_eq!(errors[0].kind, ScanErrorKind::UnterminatedString);
    assert_eq!(kinds(&tokens), vec![TokenType::Eof]);
}
