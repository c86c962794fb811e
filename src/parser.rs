//! Recursive-descent parser over the precedence ladder, lowest first:
//! comma, ternary, equality, comparison, term, factor, unary, primary.
//! Statements end with `;`; after a broken statement the parser skips to
//! the next statement boundary and goes on.
use vstd::prelude::*;
use crate::expr::Expr;
use crate::stmt::Stmt;
use crate::token::{Literal, Token, TokenType};

verus! {

/// What the parser expected and did not find.
#[derive(Debug, Clone, Copy, PartialEq, Eq, Structural)]
pub enum ParseErrorKind {
    ExpectExpression,
    ExpectRightParen,
    ExpectColon,
    ExpectSemicolonAfterValue,
    ExpectSemicolonAfterExpression,
}

/// A syntax error, anchored at the token where it was found.
#[derive(Debug)]
pub struct ParseError {
    pub token: Token,
    pub kind: ParseErrorKind,
}

impl ParseError {
    pub fn new(token: Token, kind: ParseErrorKind) -> (r: ParseError)
        ensures
            r == (ParseError { token, kind }),
    {
        ParseError { token, kind }
    }
}

/// A parse result with the number of tokens consumed up to the end of the
/// construct, or up to the token where the error was found.
pub type Parsed = (Result<Expr, ParseError>, nat);

/// Tokens left from `p` on; the measure that bounds the descent.
pub open spec fn left(t: Seq<Token>, p: int) -> nat {
    if p < 0 {
        t.len() + 1
    } else if p < t.len() {
        (t.len() - p) as nat
    } else {
        0
    }
}

pub open spec fn at_end(t: Seq<Token>, p: int) -> bool {
    !(0 <= p < t.len()) || t[p].kind == TokenType::Eof
}

pub open spec fn check(t: Seq<Token>, p: int, kind: TokenType) -> bool {
    !at_end(t, p) && t[p].kind == kind
}

pub open spec fn error_at(t: Seq<Token>, p: int, kind: ParseErrorKind) -> ParseError {
    ParseError { token: t[p], kind }
}

/// Operators of the left-associative levels: 0 equality, 1 comparison,
/// 2 term, 3 factor.
pub open spec fn level_op(level: nat, k: TokenType) -> bool {
    if level == 0 {
        k == TokenType::BangEqual || k == TokenType::EqualEqual
    } else if level == 1 {
        k == TokenType::Greater || k == TokenType::GreaterEqual || k == TokenType::Less || k
            == TokenType::LessEqual
    } else if level == 2 {
        k == TokenType::Minus || k == TokenType::Plus
    } else {
        k == TokenType::Slash || k == TokenType::Star
    }
}

/// Rank of a left-associative level in the descent (higher levels of
/// precedence rank lower).
pub open spec fn level_rank(level: nat) -> nat {
    if level >= 3 {
        5
    } else {
        (14 - 3 * level) as nat
    }
}

/// `expression → comma`
pub open spec fn p_expression(t: Seq<Token>, p: int) -> Parsed
    decreases left(t, p), 19nat,
{
    p_comma(t, p)
}

/// `comma → ternary ( "," ternary )*`
pub open spec fn p_comma(t: Seq<Token>, p: int) -> Parsed
    decreases left(t, p), 18nat,
{
    match p_ternary(t, p) {
        (Ok(e), n) => {
            let (r, m) = p_comma_rest(t, p + n, e);
            (r, n + m)
        },
        (Err(e), n) => (Err(e), n),
    }
}

pub open spec fn p_comma_rest(t: Seq<Token>, p: int, acc: Expr) -> Parsed
    decreases left(t, p), 17nat,
{
    if check(t, p, TokenType::Comma) {
        match p_ternary(t, p + 1) {
            (Ok(r), n) => {
                let e = Expr::Binary { left: Box::new(acc), operator: t[p], right: Box::new(r) };
                let (res, m) = p_comma_rest(t, p + 1 + n, e);
                (res, 1 + n + m)
            },
            (Err(e), n) => (Err(e), 1 + n),
        }
    } else {
        (Ok(acc), 0)
    }
}

/// `ternary → equality ( "?" expression ":" ternary )?`
pub open spec fn p_ternary(t: Seq<Token>, p: int) -> Parsed
    decreases left(t, p), 16nat,
{
    match p_binary(t, p, 0) {
        (Ok(c), n) => {
            if check(t, p + n, TokenType::Question) {
                let q = p + n + 1;
                match p_expression(t, q) {
                    (Ok(mid), m) => {
                        if check(t, q + m, TokenType::Colon) {
                            match p_ternary(t, q + m + 1) {
                                (Ok(r), k) => (
                                    Ok(
                                        Expr::Ternary {
                                            left: Box::new(c),
                                            mid: Box::new(mid),
                                            right: Box::new(r),
                                        },
                                    ),
                                    n + 1 + m + 1 + k,
                                ),
                                (Err(e), k) => (Err(e), n + 1 + m + 1 + k),
                            }
                        } else {
                            (Err(error_at(t, q + m, ParseErrorKind::ExpectColon)), n + 1 + m)
                        }
                    },
                    (Err(e), m) => (Err(e), n + 1 + m),
                }
            } else {
                (Ok(c), n)
            }
        },
        (Err(e), n) => (Err(e), n),
    }
}

/// `level → next ( op next )*` for the left-associative levels, where
/// `next` is the following level, or `unary` after the factor level.
pub open spec fn p_binary(t: Seq<Token>, p: int, level: nat) -> Parsed
    decreases left(t, p), level_rank(level),
{
    let first = if level >= 3 {
        p_unary(t, p)
    } else {
        p_binary(t, p, level + 1)
    };
    match first {
        (Ok(e), n) => {
            let (r, m) = p_binary_rest(t, p + n, level, e);
            (r, n + m)
        },
        (Err(e), n) => (Err(e), n),
    }
}

pub open spec fn p_binary_rest(t: Seq<Token>, p: int, level: nat, acc: Expr) -> Parsed
    decreases left(t, p), (level_rank(level) - 1) as nat,
{
    if !at_end(t, p) && level_op(level, t[p].kind) {
        let next = if level >= 3 {
            p_unary(t, p + 1)
        } else {
            p_binary(t, p + 1, level + 1)
        };
        match next {
            (Ok(r), n) => {
                let e = Expr::Binary { left: Box::new(acc), operator: t[p], right: Box::new(r) };
                let (res, m) = p_binary_rest(t, p + 1 + n, level, e);
                (res, 1 + n + m)
            },
            (Err(e), n) => (Err(e), 1 + n),
        }
    } else {
        (Ok(acc), 0)
    }
}

/// `unary → ( "!" | "-" ) unary | primary`
pub open spec fn p_unary(t: Seq<Token>, p: int) -> Parsed
    decreases left(t, p), 2nat,
{
    if check(t, p, TokenType::Bang) || check(t, p, TokenType::Minus) {
        match p_unary(t, p + 1) {
            (Ok(r), n) => (Ok(Expr::Unary { operator: t[p], right: Box::new(r) }), n + 1),
            (Err(e), n) => (Err(e), n + 1),
        }
    } else {
        p_primary(t, p)
    }
}

/// `primary → false | true | nil | NUMBER | STRING | "(" expression ")"`
pub open spec fn p_primary(t: Seq<Token>, p: int) -> Parsed
    decreases left(t, p), 1nat,
{
    if check(t, p, TokenType::False) {
        (Ok(Expr::Literal { value: Some(Literal::Bool(false)) }), 1)
    } else if check(t, p, TokenType::True) {
        (Ok(Expr::Literal { value: Some(Literal::Bool(true)) }), 1)
    } else if check(t, p, TokenType::Nil) {
        (Ok(Expr::Literal { value: Some(Literal::Nil) }), 1)
    } else if check(t, p, TokenType::Number) || check(t, p, TokenType::String) {
        (Ok(Expr::Literal { value: t[p].literal }), 1)
    } else if check(t, p, TokenType::LeftParen) {
        match p_expression(t, p + 1) {
            (Ok(e), n) => {
                if check(t, p + 1 + n, TokenType::RightParen) {
                    (Ok(Expr::Grouping { expression: Box::new(e) }), n + 2)
                } else {
                    (Err(error_at(t, p + 1 + n, ParseErrorKind::ExpectRightParen)), n + 1)
                }
            },
            (Err(e), n) => (Err(e), n + 1),
        }
    } else {
        (Err(error_at(t, p, ParseErrorKind::ExpectExpression)), 0)
    }
}

/// `statement → "print" expression ";" | expression ";"`
pub open spec fn p_statement(t: Seq<Token>, p: int) -> (Result<Stmt, ParseError>, nat) {
    if check(t, p, TokenType::Print) {
        match p_expression(t, p + 1) {
            (Ok(e), n) => {
                if check(t, p + 1 + n, TokenType::Semicolon) {
                    (Ok(Stmt::Print { expression: e }), n + 2)
                } else {
                    (
                        Err(error_at(t, p + 1 + n, ParseErrorKind::ExpectSemicolonAfterValue)),
                        n + 1,
                    )
                }
            },
            (Err(e), n) => (Err(e), n + 1),
        }
    } else {
        match p_expression(t, p) {
            (Ok(e), n) => {
                if check(t, p + n, TokenType::Semicolon) {
                    (Ok(Stmt::Expression { expression: e }), n + 1)
                } else {
                    (Err(error_at(t, p + n, ParseErrorKind::ExpectSemicolonAfterExpression)), n)
                }
            },
            (Err(e), n) => (Err(e), n),
        }
    }
}

/// Kinds that begin a statement, where recovery may stop.
pub open spec fn starts_statement(k: TokenType) -> bool {
    k == TokenType::Class || k == TokenType::Fun || k == TokenType::Var || k == TokenType::For
        || k == TokenType::If || k == TokenType::While || k == TokenType::Print || k
        == TokenType::Return
}

/// Tokens that recovery discards from `q` on, once at least one token is
/// behind it: it stops at the end, after a `;`, or before a statement
/// keyword.
pub open spec fn sync_len(t: Seq<Token>, q: int) -> nat
    decreases left(t, q),
{
    if at_end(t, q) || t[q - 1].kind == TokenType::Semicolon || starts_statement(t[q].kind) {
        0
    } else {
        1 + sync_len(t, q + 1)
    }
}

/// Statements and errors from `p` to the end. After an error the parser
/// consumes the offending token and recovers at the next boundary.
pub open spec fn parse_from(t: Seq<Token>, p: int) -> (Seq<Stmt>, Seq<ParseError>)
    decreases left(t, p),
{
    if at_end(t, p) {
        (Seq::empty(), Seq::empty())
    } else {
        match p_statement(t, p) {
            (Ok(s), n) => {
                // A statement always ends with its `;`, so `n >= 1`.
                if n >= 1 {
                    let rest = parse_from(t, p + n);
                    (seq![s] + rest.0, rest.1)
                } else {
                    (seq![s], Seq::empty())
                }
            },
            (Err(e), n) => {
                let q = p + n;
                if at_end(t, q) {
                    (Seq::empty(), seq![e])
                } else {
                    let rest = parse_from(t, q + 1 + sync_len(t, q + 1));
                    (rest.0, seq![e] + rest.1)
                }
            },
        }
    }
}

/// Statements and errors of a whole token sequence.
pub open spec fn parse_tokens(t: Seq<Token>) -> (Seq<Stmt>, Seq<ParseError>) {
    parse_from(t, 0)
}

fn is_level_op(level: usize, k: TokenType) -> (r: bool)
    ensures
        r == level_op(level as nat, k),
{
    if level == 0 {
        k == TokenType::BangEqual || k == TokenType::EqualEqual
    } else if level == 1 {
        k == TokenType::Greater || k == TokenType::GreaterEqual || k == TokenType::Less || k
            == TokenType::LessEqual
    } else if level == 2 {
        k == TokenType::Minus || k == TokenType::Plus
    } else {
        k == TokenType::Slash || k == TokenType::Star
    }
}

fn is_statement_start(k: TokenType) -> (r: bool)
    ensures
        r == starts_statement(k),
{
    k == TokenType::Class || k == TokenType::Fun || k == TokenType::Var || k == TokenType::For
        || k == TokenType::If || k == TokenType::While || k == TokenType::Print || k
        == TokenType::Return
}

fn clone_literal(l: &Option<Literal>) -> (r: Option<Literal>)
    ensures
        r == *l,
{
    match l {
        Some(v) => Some(v.clone()),
        None => None,
    }
}

/// Cursor over a token sequence that ends with an end-of-input token.
pub struct Parser {
    tokens: Vec<Token>,
    current: usize,
}

impl Parser {
    /// The tokens being parsed.
    pub closed spec fn toks(&self) -> Seq<Token> {
        self.tokens@
    }

    /// Index of the next token to read.
    pub closed spec fn pos(&self) -> int {
        self.current as int
    }

    pub closed spec fn wf(&self) -> bool {
        &&& 0 < self.tokens@.len() <= usize::MAX
        &&& self.tokens@.last().kind == TokenType::Eof
        &&& self.current < self.tokens@.len()
    }

    /// `self` is where `before` goes by consuming `out.1` tokens, with `r`
    /// the result `out.0`.
    pub closed spec fn done_from<T>(
        &self,
        before: Parser,
        r: Result<T, ParseError>,
        out: (Result<T, ParseError>, nat),
    ) -> bool {
        &&& self.wf()
        &&& self.tokens == before.tokens
        &&& self.current == before.current + out.1
        &&& r == out.0
    }

    pub fn new(tokens: Vec<Token>) -> (r: Parser)
        requires
            tokens@.len() > 0,
            tokens@.last().kind == TokenType::Eof,
        ensures
            r.wf(),
            r.toks() == tokens@,
            r.pos() == 0,
    {
        let n: usize = tokens.len();
        assert(n == tokens@.len());
        Parser { tokens, current: 0 }
    }

    /// Parses statements up to the end of input. A broken statement gives
    /// one error, and parsing resumes at the next statement boundary.
    pub fn parse(&mut self) -> (r: (Vec<Stmt>, Vec<ParseError>))
        requires
            old(self).wf(),
        ensures
            final(self).wf(),
            (r.0@, r.1@) == parse_from(old(self).toks(), old(self).pos()),
    {
        let ghost t = self.tokens@;
        let ghost target = parse_from(t, self.current as int);
        let mut statements: Vec<Stmt> = Vec::new();
        let mut errors: Vec<ParseError> = Vec::new();
        proof {
            assert(statements@ + target.0 =~= target.0);
            assert(errors@ + target.1 =~= target.1);
        }
        while !self.is_at_end()
            invariant
                self.wf(),
                self.tokens@ == t,
                ({
                    let rest = parse_from(t, self.current as int);
                    statements@ + rest.0 == target.0 && errors@ + rest.1 == target.1
                }),
            decreases left(t, self.current as int),
        {
            let ghost p = self.current as int;
            let ghost rest = parse_from(t, p);
            match self.statement() {
                Ok(s) => {
                    let ghost later = parse_from(t, self.current as int);
                    proof {
                        assert(statements@.push(s) + later.0 =~= statements@ + (seq![s]
                            + later.0));
                    }
                    statements.push(s);
                },
                Err(e) => {
                    let ghost q = self.current as int;
                    errors.push(e);
                    if self.is_at_end() {
                        proof {
                            assert(statements@ + Seq::<Stmt>::empty() =~= statements@);
                            assert(errors@ + Seq::<ParseError>::empty() =~= errors@);
                        }
                    } else {
                        self.synchronize();
                        proof {
                            let later = parse_from(t, self.current as int);
                            assert(errors@ + later.1 =~= errors@.drop_last() + (seq![e]
                                + later.1));
                        }
                    }
                },
            }
        }
        proof {
            assert(statements@ + Seq::<Stmt>::empty() =~= statements@);
            assert(errors@ + Seq::<ParseError>::empty() =~= errors@);
        }
        (statements, errors)
    }

    fn is_at_end(&self) -> (r: bool)
        requires
            self.wf(),
        ensures
            r == at_end(self.tokens@, self.current as int),
    {
        self.tokens[self.current].kind == TokenType::Eof
    }

    fn check(&self, kind: TokenType) -> (r: bool)
        requires
            self.wf(),
        ensures
            r == check(self.tokens@, self.current as int, kind),
    {
        !self.is_at_end() && self.tokens[self.current].kind == kind
    }

    /// Consumes the current token, which is not the end of input.
    fn advance(&mut self) -> (r: Token)
        requires
            old(self).wf(),
            !at_end(old(self).tokens@, old(self).current as int),
        ensures
            final(self).wf(),
            final(self).tokens == old(self).tokens,
            final(self).current == old(self).current + 1,
            r == old(self).tokens@[old(self).current as int],
    {
        let token = self.tokens[self.current].clone();
        self.current = self.current + 1;
        token
    }

    fn error(&self, kind: ParseErrorKind) -> (r: ParseError)
        requires
            self.wf(),
        ensures
            r == error_at(self.tokens@, self.current as int, kind),
    {
        ParseError::new(self.tokens[self.current].clone(), kind)
    }

    /// Skips tokens after a syntax error up to a statement boundary.
    /// At the end of input there is nothing to skip; elsewhere the
    /// offending token is consumed and recovery stops at the next boundary.
    fn synchronize(&mut self)
        requires
            old(self).wf(),
        ensures
            final(self).wf(),
            final(self).tokens == old(self).tokens,
            at_end(old(self).tokens@, old(self).current as int) ==> final(self).current
                == old(self).current,
            !at_end(old(self).tokens@, old(self).current as int) ==> final(self).current
                == old(self).current + 1 + sync_len(old(self).tokens@, old(self).current + 1),
    {
        if self.is_at_end() {
            return;
        }
        let ghost t = self.tokens@;
        let ghost goal = self.current + 1 + sync_len(t, self.current + 1);
        self.current = self.current + 1;
        while !self.is_at_end()
            invariant
                self.wf(),
                self.tokens == old(self).tokens,
                t == old(self).tokens@,
                self.current >= 1,
                !at_end(t, old(self).current as int),
                goal == old(self).current + 1 + sync_len(t, old(self).current + 1),
                self.current + sync_len(t, self.current as int) == goal,
            decreases left(t, self.current as int),
        {
            if self.tokens[self.current - 1].kind == TokenType::Semicolon {
                assert(sync_len(t, self.current as int) == 0);
                return;
            }
            if is_statement_start(self.tokens[self.current].kind) {
                assert(sync_len(t, self.current as int) == 0);
                return;
            }
            self.current = self.current + 1;
        }
    }

    fn statement(&mut self) -> (r: Result<Stmt, ParseError>)
        requires
            old(self).wf(),
        ensures
            final(self).done_from(*old(self), r, p_statement(old(self).tokens@, old(self).current as int)),
    {
        if self.check(TokenType::Print) {
            self.advance();
            let value = match self.expression() {
                Ok(e) => e,
                Err(e) => return Err(e),
            };
            if self.check(TokenType::Semicolon) {
                self.advance();
                Ok(Stmt::Print { expression: value })
            } else {
                Err(self.error(ParseErrorKind::ExpectSemicolonAfterValue))
            }
        } else {
            let value = match self.expression() {
                Ok(e) => e,
                Err(e) => return Err(e),
            };
            if self.check(TokenType::Semicolon) {
                self.advance();
                Ok(Stmt::Expression { expression: value })
            } else {
                Err(self.error(ParseErrorKind::ExpectSemicolonAfterExpression))
            }
        }
    }

    /// Parses one expression.
    pub fn expression(&mut self) -> (r: Result<Expr, ParseError>)
        requires
            old(self).wf(),
        ensures
            final(self).wf(),
            final(self).toks() == old(self).toks(),
            r == p_expression(old(self).toks(), old(self).pos()).0,
            final(self).pos() == old(self).pos() + p_expression(old(self).toks(), old(self).pos()).1,
            final(self).done_from(*old(self), r, p_expression(old(self).toks(), old(self).pos())),
        decreases left(old(self).toks(), old(self).pos()), 19nat,
    {
        self.comma()
    }

    fn comma(&mut self) -> (r: Result<Expr, ParseError>)
        requires
            old(self).wf(),
        ensures
            final(self).done_from(*old(self), r, p_comma(old(self).tokens@, old(self).current as int)),
        decreases left(old(self).tokens@, old(self).current as int), 18nat,
    {
        let ghost t = self.tokens@;
        let ghost p = self.current as int;
        let ghost target = p_comma(t, p);
        let mut expr = match self.ternary() {
            Ok(e) => e,
            Err(e) => return Err(e),
        };
        while self.check(TokenType::Comma)
            invariant
                self.wf(),
                self.tokens == old(self).tokens,
                t == old(self).tokens@,
                p == old(self).current,
                self.current >= p,
                target == p_comma(t, p),
                ({
                    let (res, m) = p_comma_rest(t, self.current as int, expr);
                    res == target.0 && self.current + m == p + target.1
                }),
            decreases left(t, self.current as int),
        {
            let ghost c = self.current as int;
            let ghost acc = expr;
            let operator = self.advance();
            let right = match self.ternary() {
                Ok(e) => e,
                Err(e) => {
                    assert(p_comma_rest(t, c, acc) == (Err::<Expr, ParseError>(e), (self.current
                        - c) as nat));
                    return Err(e);
                },
            };
            expr = Expr::Binary { left: Box::new(expr), operator, right: Box::new(right) };
        }
        Ok(expr)
    }

    fn ternary(&mut self) -> (r: Result<Expr, ParseError>)
        requires
            old(self).wf(),
        ensures
            final(self).done_from(*old(self), r, p_ternary(old(self).tokens@, old(self).current as int)),
        decreases left(old(self).tokens@, old(self).current as int), 16nat,
    {
        let condition = match self.binary(0) {
            Ok(e) => e,
            Err(e) => return Err(e),
        };
        if !self.check(TokenType::Question) {
            return Ok(condition);
        }
        self.advance();
        let mid = match self.expression() {
            Ok(e) => e,
            Err(e) => return Err(e),
        };
        if !self.check(TokenType::Colon) {
            return Err(self.error(ParseErrorKind::ExpectColon));
        }
        self.advance();
        let right = match self.ternary() {
            Ok(e) => e,
            Err(e) => return Err(e),
        };
        Ok(Expr::Ternary { left: Box::new(condition), mid: Box::new(mid), right: Box::new(right) })
    }

    /// The operand of a left-associative level: the next level, or a unary
    /// expression below the factor level.
    fn operand(&mut self, level: usize) -> (r: Result<Expr, ParseError>)
        requires
            old(self).wf(),
            level <= 3,
        ensures
            final(self).done_from(
                *old(self),
                r,
                if level >= 3 {
                    p_unary(old(self).tokens@, old(self).current as int)
                } else {
                    p_binary(old(self).tokens@, old(self).current as int, level as nat + 1)
                },
            ),
        decreases left(old(self).tokens@, old(self).current as int), (level_rank(level as nat) - 1) as nat,
    {
        if level >= 3 {
            self.unary()
        } else {
            self.binary(level + 1)
        }
    }

    /// The left-associative levels: 0 equality, 1 comparison, 2 term,
    /// 3 factor.
    fn binary(&mut self, level: usize) -> (r: Result<Expr, ParseError>)
        requires
            old(self).wf(),
            level <= 3,
        ensures
            final(self).done_from(
                *old(self),
                r,
                p_binary(old(self).tokens@, old(self).current as int, level as nat),
            ),
        decreases left(old(self).tokens@, old(self).current as int), level_rank(level as nat),
    {
        let ghost t = self.tokens@;
        let ghost p = self.current as int;
        let ghost target = p_binary(t, p, level as nat);
        let mut expr = match self.operand(level) {
            Ok(e) => e,
            Err(e) => return Err(e),
        };
        while !self.is_at_end() && is_level_op(level, self.tokens[self.current].kind)
            invariant
                self.wf(),
                self.tokens == old(self).tokens,
                t == old(self).tokens@,
                p == old(self).current,
                self.current >= p,
                level <= 3,
                target == p_binary(t, p, level as nat),
                ({
                    let (res, m) = p_binary_rest(t, self.current as int, level as nat, expr);
                    res == target.0 && self.current + m == p + target.1
                }),
            decreases left(t, self.current as int),
        {
            let ghost c = self.current as int;
            let ghost acc = expr;
            let operator = self.advance();
            let right = match self.operand(level) {
                Ok(e) => e,
                Err(e) => {
                    assert(p_binary_rest(t, c, level as nat, acc) == (Err::<Expr, ParseError>(e), (
                    self.current - c) as nat));
                    return Err(e);
                },
            };
            expr = Expr::Binary { left: Box::new(expr), operator, right: Box::new(right) };
        }
        Ok(expr)
    }

    fn unary(&mut self) -> (r: Result<Expr, ParseError>)
        requires
            old(self).wf(),
        ensures
            final(self).done_from(*old(self), r, p_unary(old(self).tokens@, old(self).current as int)),
        decreases left(old(self).tokens@, old(self).current as int), 2nat,
    {
        if self.check(TokenType::Bang) || self.check(TokenType::Minus) {
            let operator = self.advance();
            match self.unary() {
                Ok(right) => Ok(Expr::Unary { operator, right: Box::new(right) }),
                Err(e) => Err(e),
            }
        } else {
            self.primary()
        }
    }

    fn primary(&mut self) -> (r: Result<Expr, ParseError>)
        requires
            old(self).wf(),
        ensures
            final(self).done_from(*old(self), r, p_primary(old(self).tokens@, old(self).current as int)),
        decreases left(old(self).tokens@, old(self).current as int), 1nat,
    {
        if self.check(TokenType::False) {
            self.advance();
            Ok(Expr::Literal { value: Some(Literal::Bool(false)) })
        } else if self.check(TokenType::True) {
            self.advance();
            Ok(Expr::Literal { value: Some(Literal::Bool(true)) })
        } else if self.check(TokenType::Nil) {
            self.advance();
            Ok(Expr::Literal { value: Some(Literal::Nil) })
        } else if self.check(TokenType::Number) || self.check(TokenType::String) {
            let token = self.advance();
            Ok(Expr::Literal { value: clone_literal(&token.literal) })
        } else if self.check(TokenType::LeftParen) {
            self.advance();
            let expr = match self.expression() {
                Ok(e) => e,
                Err(e) => return Err(e),
            };
            if self.check(TokenType::RightParen) {
                self.advance();
                Ok(Expr::Grouping { expression: Box::new(expr) })
            } else {
                Err(self.error(ParseErrorKind::ExpectRightParen))
            }
        } else {
            Err(self.error(ParseErrorKind::ExpectExpression))
        }
    }
}


impl ParseErrorKind {
    pub open spec fn text(self) -> Seq<char> {
        match self {
            ParseErrorKind::ExpectExpression => "Expect expression."@,
            ParseErrorKind::ExpectRightParen => "Expect ')' after expression."@,
            ParseErrorKind::ExpectColon => "Expect ':' in ternary expression."@,
            ParseErrorKind::ExpectSemicolonAfterValue => "Expect ';' after value."@,
            ParseErrorKind::ExpectSemicolonAfterExpression => "Expect ';' after expression."@,
        }
    }

    pub fn message(&self) -> (r: &'static str)
        ensures
            r@ == self.text(),
    {
        match self {
            ParseErrorKind::ExpectExpression => "Expect expression.",
            ParseErrorKind::ExpectRightParen => "Expect ')' after expression.",
            ParseErrorKind::ExpectColon => "Expect ':' in ternary expression.",
            ParseErrorKind::ExpectSemicolonAfterValue => "Expect ';' after value.",
            ParseErrorKind::ExpectSemicolonAfterExpression => "Expect ';' after expression.",
        }
    }
}

} // verus!
