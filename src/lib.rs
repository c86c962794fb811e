//! Front end and evaluator of a small dynamically typed expression language:
//! a scanner from source text to tokens, a recursive-descent parser from
//! tokens to a syntax tree, printers for the tree, and a tree-walking
//! evaluator, driven one source text at a time by [`Lox`].
use vstd::prelude::*;

pub mod ast_printer;
pub mod expr;
pub mod interpreter;
pub mod parser;
pub mod rpn_printer;
pub mod scanner;
pub mod stmt;
pub mod token;

use crate::interpreter::{
    display_text, follows, run_prefix, shows, total, value_views, Interpreter, NumberOp,
    NumberSystem, NumberTest, RuntimeError, Value,
};
use crate::parser::{parse_tokens, ParseError, Parser};
use crate::scanner::{scan, views, ScanError, Scanner};
use crate::token::{Token, TokenType};

verus! {

pub open spec fn digit_text(d: nat) -> Seq<char> {
    if d == 0 {
        "0"@
    } else if d == 1 {
        "1"@
    } else if d == 2 {
        "2"@
    } else if d == 3 {
        "3"@
    } else if d == 4 {
        "4"@
    } else if d == 5 {
        "5"@
    } else if d == 6 {
        "6"@
    } else if d == 7 {
        "7"@
    } else if d == 8 {
        "8"@
    } else {
        "9"@
    }
}

/// Decimal digits of `n`, without leading zeros.
pub open spec fn decimal(n: nat) -> Seq<char>
    decreases n,
{
    if n < 10 {
        digit_text(n)
    } else {
        decimal(n / 10) + digit_text(n % 10)
    }
}

fn digit(d: usize) -> (r: &'static str)
    requires
        d < 10,
    ensures
        r@ == digit_text(d as nat),
{
    if d == 0 {
        "0"
    } else if d == 1 {
        "1"
    } else if d == 2 {
        "2"
    } else if d == 3 {
        "3"
    } else if d == 4 {
        "4"
    } else if d == 5 {
        "5"
    } else if d == 6 {
        "6"
    } else if d == 7 {
        "7"
    } else if d == 8 {
        "8"
    } else {
        "9"
    }
}

/// Writes `n` in decimal.
pub fn decimal_text(n: usize) -> (r: String)
    ensures
        r@ == decimal(n as nat),
    decreases n,
{
    if n < 10 {
        String::from_str(digit(n))
    } else {
        let mut r = decimal_text(n / 10);
        r.append(digit(n % 10));
        r
    }
}

/// `[line N] Error<place>: <message>`
pub open spec fn error_line(line: nat, place: Seq<char>, message: Seq<char>) -> Seq<char> {
    "[line "@ + decimal(line) + "] Error"@ + place + ": "@ + message
}

pub open spec fn scan_report(e: ScanError) -> Seq<char> {
    error_line(e.line as nat, ""@, e.kind.text())
}

/// Where an error stands: at the end, or at a lexeme.
pub open spec fn token_place(t: Token) -> Seq<char> {
    if t.kind == TokenType::Eof {
        " at end"@
    } else {
        " at '"@ + t.lexeme@ + "'"@
    }
}

pub open spec fn parse_report(e: ParseError) -> Seq<char> {
    error_line(e.token.line as nat, token_place(e.token), e.kind.text())
}

pub open spec fn runtime_report(e: RuntimeError) -> Seq<char> {
    error_line(e.token.line as nat, token_place(e.token), e.kind.text())
}

pub open spec fn texts(v: Seq<String>) -> Seq<Seq<char>> {
    v.map_values(|s: String| s@)
}

/// Whether a source text, scanned into `toks`, has a scan or syntax error.
pub open spec fn has_errors(s: Seq<char>, toks: Seq<Token>) -> bool {
    scan(s).1.len() > 0 || parse_tokens(toks).1.len() > 0
}

/// The report of every scan error, then of every syntax error.
pub open spec fn error_lines(s: Seq<char>, toks: Seq<Token>) -> Seq<Seq<char>> {
    scan(s).1.map_values(|e: ScanError| scan_report(e)) + parse_tokens(toks).1.map_values(
        |e: ParseError| parse_report(e),
    )
}

/// The lines that running a source text gives, once scanned into `toks`:
/// every scan and syntax error; or, where there is none, the text of each
/// printed value and the runtime error that stopped the run, if any.
pub open spec fn run_report(
    ar: NumberSystem,
    sh: spec_fn(u64) -> Seq<char>,
    s: Seq<char>,
    toks: Seq<Token>,
) -> Seq<Seq<char>> {
    let stmts = parse_tokens(toks).0;
    if has_errors(s, toks) {
        error_lines(s, toks)
    } else {
        let (out, stop) = run_prefix(ar, stmts, stmts.len() as int);
        out.map_values(|v| display_text(sh, v)) + match stop {
            Some(e) => seq![runtime_report(e)],
            None => Seq::empty(),
        }
    }
}

/// Whether the run of `s`, scanned into `toks`, stops on a runtime error.
pub open spec fn fails_at_runtime(ar: NumberSystem, s: Seq<char>, toks: Seq<Token>) -> bool {
    let (stmts, parse_errors) = parse_tokens(toks);
    scan(s).1.len() == 0 && parse_errors.len() == 0 && run_prefix(
        ar,
        stmts,
        stmts.len() as int,
    ).1 is Some
}

impl ScanError {
    pub fn report(&self) -> (r: String)
        ensures
            r@ == scan_report(*self),
    {
        Lox::error_message(self.line, "", self.kind.message())
    }
}

impl ParseError {
    pub fn report(&self) -> (r: String)
        ensures
            r@ == parse_report(*self),
    {
        if self.token.kind == TokenType::Eof {
            Lox::error_message(self.token.line, " at end", self.kind.message())
        } else {
            let mut place = String::from_str(" at '");
            place.append(self.token.lexeme.as_str());
            place.append("'");
            Lox::error_message(self.token.line, place.as_str(), self.kind.message())
        }
    }
}

impl RuntimeError {
    pub fn report(&self) -> (r: String)
        ensures
            r@ == runtime_report(*self),
    {
        if self.token.kind == TokenType::Eof {
            Lox::error_message(self.token.line, " at end", self.kind.message())
        } else {
            let mut place = String::from_str(" at '");
            place.append(self.token.lexeme.as_str());
            place.append("'");
            Lox::error_message(self.token.line, place.as_str(), self.kind.message())
        }
    }
}

/// Runs source texts, one at a time, and remembers whether any of them
/// had a scan or syntax error, or a runtime error.
pub struct Lox {
    interpreter: Interpreter,
    had_error: bool,
    had_runtime_error: bool,
}

impl Lox {
    pub closed spec fn error_seen(&self) -> bool {
        self.had_error
    }

    pub closed spec fn runtime_error_seen(&self) -> bool {
        self.had_runtime_error
    }

    pub fn new() -> (r: Lox)
        ensures
            !r.error_seen(),
            !r.runtime_error_seen(),
    {
        Lox { interpreter: Interpreter::new(), had_error: false, had_runtime_error: false }
    }

    pub fn had_error(&self) -> (r: bool)
        ensures
            r == self.error_seen(),
    {
        self.had_error
    }

    pub fn had_runtime_error(&self) -> (r: bool)
        ensures
            r == self.runtime_error_seen(),
    {
        self.had_runtime_error
    }

    /// Forgets earlier scan and syntax errors, as a prompt does after each
    /// line.
    pub fn clear_error(&mut self)
        ensures
            !final(self).error_seen(),
            final(self).runtime_error_seen() == old(self).runtime_error_seen(),
    {
        self.had_error = false;
    }

    /// `[line N] Error<err>: <message>`
    pub fn error_message(line: usize, err: &str, message: &str) -> (r: String)
        ensures
            r@ == error_line(line as nat, err@, message@),
    {
        let mut r = String::from_str("[line ");
        r.append(decimal_text(line).as_str());
        r.append("] Error");
        r.append(err);
        r.append(": ");
        r.append(message);
        r
    }

    /// Scans, parses and runs one source text, and returns the lines to
    /// show. `compute` and `test` are the number system; `show` writes a
    /// number.
    pub fn run<F: Fn(NumberOp) -> u64, T: Fn(NumberTest) -> bool, G: Fn(u64) -> String>(
        &mut self,
        source: String,
        compute: &F,
        test: &T,
        show: &G,
    ) -> (lines: Vec<String>)
        requires
            source@.len() < usize::MAX,
            total(*compute, *test),
            forall|n: u64| call_requires(*show, (n,)),
        ensures
            exists|toks: Seq<Token>|
                #[trigger] views(toks) == scan(source@).0 && final(self).error_seen() == (old(
                    self,
                ).error_seen() || has_errors(source@, toks)) && (has_errors(source@, toks)
                    ==> texts(lines@) == error_lines(source@, toks)) && forall|
                    ar: NumberSystem,
                    sh: spec_fn(u64) -> Seq<char>,
                |
                    #[trigger] follows(*compute, *test, ar) && #[trigger] shows(*show, sh) ==> {
                        &&& texts(lines@) == run_report(ar, sh, source@, toks)
                        &&& final(self).runtime_error_seen() == (old(self).runtime_error_seen()
                            || fails_at_runtime(ar, source@, toks))
                    },
    {
        let ghost s = source@;
        let mut scanner = Scanner::new(source);
        let (tokens, scan_errors) = scanner.scan_tokens();
        let ghost toks = tokens@;
        proof {
            crate::scanner::lemma_scan_ends_once(s, 0, 1);
            assert(views(toks).last() == toks.last()@);
        }
        let mut parser = Parser::new(tokens);
        let (stmts, parse_errors) = parser.parse();
        let mut lines: Vec<String> = Vec::new();
        if scan_errors.len() > 0 || parse_errors.len() > 0 {
            self.had_error = true;
            let mut i: usize = 0;
            while i < scan_errors.len()
                invariant
                    i <= scan_errors@.len(),
                    texts(lines@) == scan_errors@.subrange(0, i as int).map_values(
                        |e: ScanError| scan_report(e),
                    ),
                decreases scan_errors@.len() - i,
            {
                let text = scan_errors[i].report();
                let ghost before = lines@;
                lines.push(text);
                proof {
                    assert(texts(lines@) =~= texts(before).push(text@));
                    assert(scan_errors@.subrange(0, i + 1) =~= scan_errors@.subrange(0, i as int).push(scan_errors@[i as int]));
                    assert(texts(lines@) =~= scan_errors@.subrange(0, i + 1).map_values(
                        |e: ScanError| scan_report(e),
                    ));
                }
                i = i + 1;
            }
            let mut j: usize = 0;
            while j < parse_errors.len()
                invariant
                    i == scan_errors@.len(),
                    j <= parse_errors@.len(),
                    texts(lines@) == scan_errors@.map_values(|e: ScanError| scan_report(e))
                        + parse_errors@.subrange(0, j as int).map_values(
                        |e: ParseError| parse_report(e),
                    ),
                decreases parse_errors@.len() - j,
            {
                let text = parse_errors[j].report();
                let ghost before = lines@;
                lines.push(text);
                proof {
                    assert(texts(lines@) =~= texts(before).push(text@));
                    assert(parse_errors@.subrange(0, j + 1) =~= parse_errors@.subrange(0, j as int).push(parse_errors@[j as int]));
                    assert(texts(lines@) =~= scan_errors@.map_values(|e: ScanError| scan_report(e))
                        + parse_errors@.subrange(0, j + 1).map_values(
                        |e: ParseError| parse_report(e),
                    ));
                }
                j = j + 1;
            }
            proof {
                assert(scan_errors@.subrange(0, i as int) =~= scan_errors@);
                assert(parse_errors@.subrange(0, j as int) =~= parse_errors@);
            }
        } else {
            let (printed, stop) = self.interpreter.interprete_statements(&stmts, compute, test);
            let mut i: usize = 0;
            while i < printed.len()
                invariant
                    forall|n: u64| call_requires(*show, (n,)),
                    i <= printed@.len(),
                    forall|sh: spec_fn(u64) -> Seq<char>| #[trigger] shows(*show, sh) ==> texts(lines@)
                        == value_views(printed@.subrange(0, i as int)).map_values(
                        |v| display_text(sh, v),
                    ),
                decreases printed@.len() - i,
            {
                let text = printed[i].render(show);
                let ghost before = lines@;
                lines.push(text);
                proof {
                    assert forall|sh: spec_fn(u64) -> Seq<char>| #[trigger] shows(*show, sh) implies texts(lines@)
                        == value_views(printed@.subrange(0, i + 1)).map_values(
                        |v| display_text(sh, v),
                    ) by {
                        assert(printed@.subrange(0, i + 1) =~= printed@.subrange(0, i as int).push(printed@[i as int]));
                        assert(texts(lines@) =~= texts(before).push(text@));
                        assert(value_views(printed@.subrange(0, i + 1)).map_values(|v| display_text(sh, v))
                            =~= value_views(printed@.subrange(0, i as int)).map_values(|v| display_text(sh, v)).push(display_text(sh, printed@[i as int]@)));
                    }
                }
                i = i + 1;
            }
            let ghost base = lines@;
            match stop {
                Some(e) => {
                    self.had_runtime_error = true;
                    lines.push(e.report());
                    proof {
                        assert(texts(lines@) =~= texts(base) + seq![runtime_report(e)]);
                    }
                },
                None => {
                    proof {
                        assert(texts(lines@) =~= texts(base) + Seq::<Seq<char>>::empty());
                    }
                },
            }
            proof {
                assert(printed@.subrange(0, i as int) =~= printed@);
            }
        }
        lines
    }
}

} // verus!
