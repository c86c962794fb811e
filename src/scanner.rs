//! The scanner: source text to tokens, with lexical errors collected on the
//! way. Comments and whitespace leave no token, so scanning is lossy: the
//! source cannot be rebuilt from the tokens. What is kept is stable:
//! re-scanning the lexemes, joined by blanks, gives the same kinds and
//! lexemes again.
use vstd::prelude::*;
use crate::token::{Literal, LiteralView, Token, TokenType, TokenView};

verus! {

/// What went wrong while scanning.
#[derive(Debug, Clone, Copy, PartialEq, Eq, Structural)]
pub enum ScanErrorKind {
    UnterminatedComment,
    UnterminatedString,
    UnexpectedCharacter,
}

/// A lexical error and the line it was found on.
#[derive(Debug, Clone, Copy, PartialEq, Eq, Structural)]
pub struct ScanError {
    pub line: usize,
    pub kind: ScanErrorKind,
}

impl ScanError {
    pub fn new(line: usize, kind: ScanErrorKind) -> (r: ScanError)
        ensures
            r == (ScanError { line, kind }),
    {
        ScanError { line, kind }
    }
}

pub open spec fn is_digit(c: char) -> bool {
    '0' <= c && c <= '9'
}

pub open spec fn is_alpha(c: char) -> bool {
    ('a' <= c && c <= 'z') || ('A' <= c && c <= 'Z')
}

pub open spec fn is_alnum(c: char) -> bool {
    is_digit(c) || is_alpha(c)
}

/// The first index at or after `i` whose character is not a digit
/// (`alnum` false) or not alphanumeric (`alnum` true).
pub open spec fn run_end(s: Seq<char>, i: int, alnum: bool) -> int
    decreases s.len() - i,
{
    if 0 <= i < s.len() && (if alnum { is_alnum(s[i]) } else { is_digit(s[i]) }) {
        run_end(s, i + 1, alnum)
    } else {
        i
    }
}

/// End of a number literal that starts at `i`: digits, then a fraction only
/// where a digit follows the dot.
pub open spec fn number_end(s: Seq<char>, i: int) -> int {
    let d = run_end(s, i, false);
    if d + 1 < s.len() && s[d] == '.' && is_digit(s[d + 1]) {
        run_end(s, d + 1, false)
    } else {
        d
    }
}

/// The first index at or after `i` that holds `c`, or the length.
pub open spec fn find_char(s: Seq<char>, i: int, c: char) -> int
    decreases s.len() - i,
{
    if 0 <= i < s.len() && s[i] != c {
        find_char(s, i + 1, c)
    } else if i < 0 {
        i
    } else {
        if i < s.len() { i } else { s.len() as int }
    }
}

/// Where a string whose text starts at `k` ends: the first `"` at or after
/// `k` that is not escaped, or the length. Inside a string a backslash
/// escapes the character after it, so `\"` does not end the string and
/// `\\` is an escaped backslash.
pub open spec fn string_end(s: Seq<char>, k: int) -> int
    decreases s.len() - k,
{
    if !(0 <= k < s.len()) {
        s.len() as int
    } else if s[k] == '"' {
        k
    } else if s[k] == '\\' && k + 1 < s.len() {
        string_end(s, k + 2)
    } else {
        string_end(s, k + 1)
    }
}

/// The first index at or after `i` where `*/` starts, or the length.
pub open spec fn comment_close(s: Seq<char>, i: int) -> int
    decreases s.len() - i,
{
    if 0 <= i < s.len() && !(s[i] == '*' && i + 1 < s.len() && s[i + 1] == '/') {
        comment_close(s, i + 1)
    } else if i < 0 {
        i
    } else {
        if i < s.len() { i } else { s.len() as int }
    }
}

/// Number of newlines in `s[a..b]`.
pub open spec fn newlines(s: Seq<char>, a: int, b: int) -> int
    decreases b - a,
{
    if b <= a {
        0
    } else {
        newlines(s, a, b - 1) + if s[b - 1] == '\n' { 1int } else { 0 }
    }
}

/// Kind of a token of one fixed character.
pub open spec fn single_kind(c: char) -> Option<TokenType> {
    match c {
        '(' => Some(TokenType::LeftParen),
        ')' => Some(TokenType::RightParen),
        '{' => Some(TokenType::LeftBrace),
        '}' => Some(TokenType::RightBrace),
        ',' => Some(TokenType::Comma),
        '.' => Some(TokenType::Dot),
        '-' => Some(TokenType::Minus),
        '+' => Some(TokenType::Plus),
        ';' => Some(TokenType::Semicolon),
        '*' => Some(TokenType::Star),
        '?' => Some(TokenType::Question),
        ':' => Some(TokenType::Colon),
        _ => None,
    }
}

/// For `!`, `=`, `<` and `>`: the kind alone and the kind followed by `=`.
pub open spec fn equal_kinds(c: char) -> Option<(TokenType, TokenType)> {
    match c {
        '!' => Some((TokenType::Bang, TokenType::BangEqual)),
        '=' => Some((TokenType::Equal, TokenType::EqualEqual)),
        '<' => Some((TokenType::Less, TokenType::LessEqual)),
        '>' => Some((TokenType::Greater, TokenType::GreaterEqual)),
        _ => None,
    }
}

/// The keyword that a word spells, if any.
pub open spec fn keyword(w: Seq<char>) -> Option<TokenType> {
    if w == "and"@ {
        Some(TokenType::And)
    } else if w == "class"@ {
        Some(TokenType::Class)
    } else if w == "else"@ {
        Some(TokenType::Else)
    } else if w == "false"@ {
        Some(TokenType::False)
    } else if w == "for"@ {
        Some(TokenType::For)
    } else if w == "fun"@ {
        Some(TokenType::Fun)
    } else if w == "if"@ {
        Some(TokenType::If)
    } else if w == "nil"@ {
        Some(TokenType::Nil)
    } else if w == "or"@ {
        Some(TokenType::Or)
    } else if w == "print"@ {
        Some(TokenType::Print)
    } else if w == "return"@ {
        Some(TokenType::Return)
    } else if w == "super"@ {
        Some(TokenType::Super)
    } else if w == "this"@ {
        Some(TokenType::This)
    } else if w == "true"@ {
        Some(TokenType::True)
    } else if w == "var"@ {
        Some(TokenType::Var)
    } else if w == "while"@ {
        Some(TokenType::While)
    } else {
        None
    }
}

/// One step of the scanner from index `i` at line `line`: where it stops,
/// the line it reaches, and the token or error it yields.
pub struct Step {
    pub next: int,
    pub line: int,
    pub token: Option<TokenView>,
    pub error: Option<ScanError>,
}

pub open spec fn token_view(
    kind: TokenType,
    lexeme: Seq<char>,
    literal: Option<LiteralView>,
    line: int,
) -> TokenView {
    TokenView { kind, lexeme, literal, line }
}

pub open spec fn emit(s: Seq<char>, i: int, j: int, line: int, kind: TokenType) -> Step {
    Step { next: j, line, token: Some(token_view(kind, s.subrange(i, j), None, line)), error: None }
}

pub open spec fn skip(next: int, line: int) -> Step {
    Step { next, line, token: None, error: None }
}

pub open spec fn fail(next: int, line: int, kind: ScanErrorKind) -> Step {
    Step { next, line, token: None, error: Some(ScanError { line: line as usize, kind }) }
}

/// The scanner's case table, on the character at `i < s.len()`.
pub open spec fn scan_step(s: Seq<char>, i: int, line: int) -> Step {
    let c = s[i];
    let n = s.len() as int;
    if single_kind(c) is Some {
        emit(s, i, i + 1, line, single_kind(c)->0)
    } else if equal_kinds(c) is Some {
        let (alone, with_equal) = equal_kinds(c)->0;
        if i + 1 < n && s[i + 1] == '=' {
            emit(s, i, i + 2, line, with_equal)
        } else {
            emit(s, i, i + 1, line, alone)
        }
    } else if c == '/' {
        if i + 1 < n && s[i + 1] == '/' {
            skip(find_char(s, i + 2, '\n'), line)
        } else if i + 1 < n && s[i + 1] == '*' {
            let j = comment_close(s, i + 2);
            let l = line + newlines(s, i + 2, j);
            if j < n {
                skip(j + 2, l)
            } else {
                fail(n, l, ScanErrorKind::UnterminatedComment)
            }
        } else {
            emit(s, i, i + 1, line, TokenType::Slash)
        }
    } else if c == ' ' || c == '\r' || c == '\t' {
        skip(i + 1, line)
    } else if c == '\n' {
        skip(i + 1, line + 1)
    } else if c == '"' {
        let j = string_end(s, i + 1);
        let l = line + newlines(s, i + 1, j);
        if j < n {
            Step {
                next: j + 1,
                line: l,
                token: Some(
                    token_view(
                        TokenType::String,
                        s.subrange(i, j + 1),
                        Some(LiteralView::Str(s.subrange(i + 1, j))),
                        l,
                    ),
                ),
                error: None,
            }
        } else {
            fail(n, l, ScanErrorKind::UnterminatedString)
        }
    } else if is_digit(c) {
        let j = number_end(s, i);
        Step {
            next: j,
            line,
            token: Some(
                token_view(
                    TokenType::Number,
                    s.subrange(i, j),
                    Some(LiteralView::Number(s.subrange(i, j))),
                    line,
                ),
            ),
            error: None,
        }
    } else if is_alpha(c) {
        let j = run_end(s, i + 1, true);
        let kind = match keyword(s.subrange(i, j)) {
            Some(k) => k,
            None => TokenType::Identifier,
        };
        emit(s, i, j, line, kind)
    } else {
        fail(i + 1, line, ScanErrorKind::UnexpectedCharacter)
    }
}

pub open spec fn opt_seq<T>(o: Option<T>) -> Seq<T> {
    match o {
        Some(x) => seq![x],
        None => Seq::empty(),
    }
}

pub open spec fn eof_view(line: int) -> TokenView {
    token_view(TokenType::Eof, Seq::empty(), None, line)
}

/// Tokens and errors of scanning `s` from index `i` at line `line`; the
/// tokens end with exactly one end-of-input token.
pub open spec fn scan_from(s: Seq<char>, i: int, line: int) -> (Seq<TokenView>, Seq<ScanError>)
    decreases s.len() - i,
    via scan_from_decreases
{
    if i < 0 || i >= s.len() {
        (seq![eof_view(line)], Seq::empty())
    } else {
        let st = scan_step(s, i, line);
        let rest = scan_from(s, st.next, st.line);
        (opt_seq(st.token) + rest.0, opt_seq(st.error) + rest.1)
    }
}

/// Tokens and errors of scanning the whole of `s`, from line 1.
pub open spec fn scan(s: Seq<char>) -> (Seq<TokenView>, Seq<ScanError>) {
    scan_from(s, 0, 1)
}

proof fn lemma_run_end(s: Seq<char>, i: int, alnum: bool)
    requires
        0 <= i <= s.len(),
    ensures
        i <= run_end(s, i, alnum) <= s.len(),
    decreases s.len() - i,
{
    if i < s.len() && (if alnum { is_alnum(s[i]) } else { is_digit(s[i]) }) {
        lemma_run_end(s, i + 1, alnum);
    }
}

proof fn lemma_find_char(s: Seq<char>, i: int, c: char)
    requires
        0 <= i,
    ensures
        i <= find_char(s, i, c) || (i > s.len() && find_char(s, i, c) == s.len()),
        find_char(s, i, c) <= s.len() || i > s.len(),
        find_char(s, i, c) < s.len() ==> s[find_char(s, i, c)] == c,
    decreases s.len() - i,
{
    if 0 <= i < s.len() && s[i] != c {
        lemma_find_char(s, i + 1, c);
    }
}

proof fn lemma_string_end(s: Seq<char>, k: int)
    requires
        0 <= k <= s.len(),
    ensures
        k <= string_end(s, k) <= s.len(),
        string_end(s, k) < s.len() ==> s[string_end(s, k)] == '"',
    decreases s.len() - k,
{
    if k < s.len() && s[k] != '"' {
        if s[k] == '\\' && k + 1 < s.len() {
            lemma_string_end(s, k + 2);
        } else {
            lemma_string_end(s, k + 1);
        }
    }
}

proof fn lemma_comment_close(s: Seq<char>, i: int)
    requires
        0 <= i,
    ensures
        i <= comment_close(s, i) || (i > s.len() && comment_close(s, i) == s.len()),
        comment_close(s, i) <= s.len() || i > s.len(),
        comment_close(s, i) < s.len() ==> comment_close(s, i) + 1 < s.len(),
    decreases s.len() - i,
{
    if 0 <= i < s.len() && !(s[i] == '*' && i + 1 < s.len() && s[i + 1] == '/') {
        lemma_comment_close(s, i + 1);
    }
}

proof fn lemma_newlines(s: Seq<char>, a: int, b: int)
    ensures
        a <= b ==> 0 <= newlines(s, a, b) <= b - a,
    decreases b - a,
{
    if a < b {
        lemma_newlines(s, a, b - 1);
    }
}

/// Each step moves forward, and not past the end.
proof fn lemma_step_advances(s: Seq<char>, i: int, line: int)
    requires
        0 <= i < s.len(),
    ensures
        i < scan_step(s, i, line).next <= s.len(),
        line <= scan_step(s, i, line).line <= line + (scan_step(s, i, line).next - i),
{
    let c = s[i];
    lemma_run_end(s, i, false);
    if i + 1 <= s.len() {
        lemma_run_end(s, i + 1, false);
    }
    lemma_run_end(s, i + 1, true);
    let d = run_end(s, i, false);
    if d + 1 < s.len() {
        lemma_run_end(s, d + 1, false);
    }
    lemma_find_char(s, i + 2, '\n');
    if i + 1 <= s.len() {
        lemma_string_end(s, i + 1);
    }
    lemma_comment_close(s, i + 2);
    lemma_newlines(s, i + 2, comment_close(s, i + 2));
    lemma_newlines(s, i + 1, string_end(s, i + 1));
}

#[via_fn]
proof fn scan_from_decreases(s: Seq<char>, i: int, line: int) {
    if 0 <= i < s.len() {
        lemma_step_advances(s, i, line);
    }
}

pub open spec fn views(v: Seq<Token>) -> Seq<TokenView> {
    v.map_values(|t: Token| t@)
}

fn char_is_digit(c: char) -> (r: bool)
    ensures
        r == is_digit(c),
{
    '0' <= c && c <= '9'
}

fn char_is_alnum(c: char) -> (r: bool)
    ensures
        r == is_alnum(c),
{
    ('0' <= c && c <= '9') || ('a' <= c && c <= 'z') || ('A' <= c && c <= 'Z')
}

/// Whether two strings hold the same characters.
fn same_text(a: &str, b: &str) -> (r: bool)
    ensures
        r == (a@ == b@),
{
    let n = a.unicode_len();
    if n != b.unicode_len() {
        return false;
    }
    let mut i: usize = 0;
    while i < n
        invariant
            n == a@.len() == b@.len(),
            i <= n,
            a@.subrange(0, i as int) == b@.subrange(0, i as int),
        decreases n - i,
    {
        if a.get_char(i) != b.get_char(i) {
            assert(a@[i as int] != b@[i as int]);
            return false;
        }
        assert(a@.subrange(0, i + 1) == a@.subrange(0, i as int).push(a@[i as int]));
        assert(b@.subrange(0, i + 1) == b@.subrange(0, i as int).push(b@[i as int]));
        i = i + 1;
    }
    assert(a@ == a@.subrange(0, n as int));
    assert(b@ == b@.subrange(0, n as int));
    true
}

/// The keyword that `text` spells, if any.
pub fn keywords(text: &str) -> (r: Option<TokenType>)
    ensures
        r == keyword(text@),
{
    if same_text(text, "and") {
        Some(TokenType::And)
    } else if same_text(text, "class") {
        Some(TokenType::Class)
    } else if same_text(text, "else") {
        Some(TokenType::Else)
    } else if same_text(text, "false") {
        Some(TokenType::False)
    } else if same_text(text, "for") {
        Some(TokenType::For)
    } else if same_text(text, "fun") {
        Some(TokenType::Fun)
    } else if same_text(text, "if") {
        Some(TokenType::If)
    } else if same_text(text, "nil") {
        Some(TokenType::Nil)
    } else if same_text(text, "or") {
        Some(TokenType::Or)
    } else if same_text(text, "print") {
        Some(TokenType::Print)
    } else if same_text(text, "return") {
        Some(TokenType::Return)
    } else if same_text(text, "super") {
        Some(TokenType::Super)
    } else if same_text(text, "this") {
        Some(TokenType::This)
    } else if same_text(text, "true") {
        Some(TokenType::True)
    } else if same_text(text, "var") {
        Some(TokenType::Var)
    } else if same_text(text, "while") {
        Some(TokenType::While)
    } else {
        None
    }
}

/// Cursor state of one scan over one source text.
pub struct Scanner {
    source: String,
    len: usize,
    tokens: Vec<Token>,
    errors: Vec<ScanError>,
    start: usize,
    current: usize,
    line: usize,
}

impl Scanner {
    /// The characters being scanned.
    pub closed spec fn chars(&self) -> Seq<char> {
        self.source@
    }

    pub closed spec fn wf(&self) -> bool {
        &&& self.len == self.source@.len()
        &&& self.len < usize::MAX
        &&& self.current <= self.len
        &&& 1 <= self.line <= self.current + 1
    }

    /// The tokens and errors that a scan from the present state yields:
    /// those found so far, then those of the rest of the text.
    pub closed spec fn outcome(&self) -> (Seq<TokenView>, Seq<ScanError>) {
        let rest = scan_from(self.source@, self.current as int, self.line as int);
        (views(self.tokens@) + rest.0, self.errors@ + rest.1)
    }

    pub fn new(source: String) -> (r: Scanner)
        requires
            source@.len() < usize::MAX,
        ensures
            r.wf(),
            r.chars() == source@,
            r.outcome() == scan(source@),
    {
        let len = source.as_str().unicode_len();
        let r = Scanner {
            source,
            len,
            tokens: Vec::new(),
            errors: Vec::new(),
            start: 0,
            current: 0,
            line: 1,
        };
        assert(views(r.tokens@) =~= Seq::<TokenView>::empty());
        assert(views(r.tokens@) + scan(r.source@).0 =~= scan(r.source@).0);
        assert(r.errors@ + scan(r.source@).1 =~= scan(r.source@).1);
        r
    }

    /// Scans the rest of the text: every token, ending with one end-of-input
    /// token, and every lexical error, in source order.
    pub fn scan_tokens(&mut self) -> (r: (Vec<Token>, Vec<ScanError>))
        requires
            old(self).wf(),
        ensures
            (views(r.0@), r.1@) == old(self).outcome(),
    {
        while self.current < self.len
            invariant
                self.wf(),
                self.chars() == old(self).chars(),
                self.outcome() == old(self).outcome(),
            decreases self.len - self.current,
        {
            self.start = self.current;
            let ghost before = *self;
            self.scan_token();
            proof {
                let s = self.source@;
                let st = scan_step(s, before.current as int, before.line as int);
                let rest = scan_from(s, st.next, st.line);
                assert(views(self.tokens@) + rest.0 =~= views(before.tokens@) + (opt_seq(st.token)
                    + rest.0));
                assert(self.errors@ + rest.1 =~= before.errors@ + (opt_seq(st.error) + rest.1));
            }
        }
        let eof = Token { kind: TokenType::Eof, lexeme: String::new(), literal: None, line: self.line };
        let ghost before = *self;
        self.tokens.push(eof);
        let mut tokens = Vec::new();
        let mut errors = Vec::new();
        core::mem::swap(&mut tokens, &mut self.tokens);
        core::mem::swap(&mut errors, &mut self.errors);
        proof {
            assert(views(tokens@) =~= views(before.tokens@) + seq![eof_view(before.line as int)]);
            assert(errors@ =~= before.errors@ + Seq::<ScanError>::empty());
        }
        (tokens, errors)
    }

    fn char_at(&self, i: usize) -> (c: char)
        requires
            self.wf(),
            i < self.len,
        ensures
            c == self.source@[i as int],
    {
        self.source.as_str().get_char(i)
    }

    /// Whether the current character continues a run of digits (`alnum`
    /// false) or alphanumerics.
    fn in_run(&self, alnum: bool) -> (r: bool)
        requires
            self.wf(),
        ensures
            r == (0 <= self.current < self.len && (if alnum {
                is_alnum(self.source@[self.current as int])
            } else {
                is_digit(self.source@[self.current as int])
            })),
    {
        if self.current >= self.len {
            false
        } else if alnum {
            char_is_alnum(self.char_at(self.current))
        } else {
            char_is_digit(self.char_at(self.current))
        }
    }

    /// Moves past a run of digits (`alnum` false) or alphanumerics.
    fn skip_run(&mut self, alnum: bool)
        requires
            old(self).wf(),
        ensures
            final(self).wf(),
            final(self).current == run_end(old(self).source@, old(self).current as int, alnum),
            final(self).current >= old(self).current,
            final(self).line == old(self).line,
            final(self).source == old(self).source,
            final(self).start == old(self).start,
            final(self).tokens == old(self).tokens,
            final(self).errors == old(self).errors,
    {
        let ghost target = run_end(self.source@, self.current as int, alnum);
        while self.in_run(alnum)
            invariant
                self.wf(),
                old(self).current <= self.current,
                run_end(self.source@, self.current as int, alnum) == target,
                self.line == old(self).line,
                self.source == old(self).source,
                self.start == old(self).start,
                self.tokens == old(self).tokens,
                self.errors == old(self).errors,
            decreases self.len - self.current,
        {
            self.current = self.current + 1;
        }
    }

    /// Moves to the quote that ends a string, or to the end, stepping over
    /// escaped characters and counting the newlines passed.
    fn skip_string(&mut self)
        requires
            old(self).wf(),
        ensures
            final(self).wf(),
            final(self).current == string_end(old(self).source@, old(self).current as int),
            final(self).current >= old(self).current,
            final(self).line == old(self).line + newlines(
                old(self).source@,
                old(self).current as int,
                final(self).current as int,
            ),
            final(self).source == old(self).source,
            final(self).start == old(self).start,
            final(self).tokens == old(self).tokens,
            final(self).errors == old(self).errors,
    {
        let ghost target = string_end(self.source@, self.current as int);
        let ghost from = self.current as int;
        while self.current < self.len && self.char_at(self.current) != '"'
            invariant
                self.wf(),
                from <= self.current,
                string_end(self.source@, self.current as int) == target,
                self.line == old(self).line + newlines(self.source@, from, self.current as int),
                self.source == old(self).source,
                self.start == old(self).start,
                self.tokens == old(self).tokens,
                self.errors == old(self).errors,
            decreases self.len - self.current,
        {
            let ghost c = self.current as int;
            if self.char_at(self.current) == '\\' && self.current + 1 < self.len {
                if self.char_at(self.current + 1) == '\n' {
                    self.line = self.line + 1;
                }
                self.current = self.current + 2;
                proof {
                    let s = self.source@;
                    assert(newlines(s, from, c + 1) == newlines(s, from, c));
                    lemma_newlines(s, from, self.current as int);
                }
            } else {
                if self.char_at(self.current) == '\n' {
                    self.line = self.line + 1;
                }
                self.current = self.current + 1;
                proof {
                    lemma_newlines(self.source@, from, self.current as int);
                }
            }
        }
    }

    /// Moves to the `*/` that closes a block comment, or to the end,
    /// counting the newlines passed.
    fn skip_comment(&mut self)
        requires
            old(self).wf(),
        ensures
            final(self).wf(),
            final(self).current == comment_close(old(self).source@, old(self).current as int),
            final(self).current >= old(self).current,
            final(self).line == old(self).line + newlines(
                old(self).source@,
                old(self).current as int,
                final(self).current as int,
            ),
            final(self).source == old(self).source,
            final(self).start == old(self).start,
            final(self).tokens == old(self).tokens,
            final(self).errors == old(self).errors,
    {
        let ghost target = comment_close(self.source@, self.current as int);
        let ghost from = self.current as int;
        while self.current < self.len && !(self.char_at(self.current) == '*' && self.current + 1
            < self.len && self.char_at(self.current + 1) == '/')
            invariant
                self.wf(),
                from <= self.current,
                comment_close(self.source@, self.current as int) == target,
                self.line == old(self).line + newlines(self.source@, from, self.current as int),
                self.source == old(self).source,
                self.start == old(self).start,
                self.tokens == old(self).tokens,
                self.errors == old(self).errors,
            decreases self.len - self.current,
        {
            if self.char_at(self.current) == '\n' {
                self.line = self.line + 1;
            }
            self.current = self.current + 1;
            proof {
                lemma_newlines(self.source@, from, self.current as int);
            }
        }
    }

    /// Pushes a token spanning `start..current`.
    fn add_token(&mut self, kind: TokenType, literal: Option<Literal>)
        requires
            old(self).wf(),
            old(self).start <= old(self).current,
        ensures
            final(self).tokens@ == old(self).tokens@.push(
                Token {
                    kind,
                    lexeme: final(self).tokens@.last().lexeme,
                    literal,
                    line: old(self).line,
                },
            ),
            final(self).tokens@.last().lexeme@ == old(self).source@.subrange(
                old(self).start as int,
                old(self).current as int,
            ),
            final(self).source == old(self).source,
            final(self).len == old(self).len,
            final(self).start == old(self).start,
            final(self).current == old(self).current,
            final(self).line == old(self).line,
            final(self).errors == old(self).errors,
    {
        let text = self.source.as_str().substring_char(self.start, self.current);
        let token = Token { kind, lexeme: String::from_str(text), literal, line: self.line };
        self.tokens.push(token);
    }

    fn report(&mut self, kind: ScanErrorKind)
        ensures
            final(self).errors@ == old(self).errors@.push(ScanError { line: old(self).line, kind }),
            final(self).source == old(self).source,
            final(self).len == old(self).len,
            final(self).start == old(self).start,
            final(self).current == old(self).current,
            final(self).line == old(self).line,
            final(self).tokens == old(self).tokens,
    {
        self.errors.push(ScanError::new(self.line, kind));
    }

    /// Consumes the current character where it is `expected`.
    fn next_is(&mut self, expected: char) -> (r: bool)
        requires
            old(self).wf(),
        ensures
            r == (old(self).current < old(self).len && old(self).source@[old(self).current as int]
                == expected),
            final(self).current == old(self).current + if r { 1int } else { 0 },
            final(self).source == old(self).source,
            final(self).len == old(self).len,
            final(self).start == old(self).start,
            final(self).line == old(self).line,
            final(self).tokens == old(self).tokens,
            final(self).errors == old(self).errors,
    {
        if self.current < self.len && self.char_at(self.current) == expected {
            self.current = self.current + 1;
            true
        } else {
            false
        }
    }

    /// Moves to the next newline, or to the end.
    fn skip_line(&mut self)
        requires
            old(self).wf(),
        ensures
            final(self).wf(),
            final(self).current == find_char(old(self).source@, old(self).current as int, '\n'),
            final(self).source == old(self).source,
            final(self).start == old(self).start,
            final(self).line == old(self).line,
            final(self).tokens == old(self).tokens,
            final(self).errors == old(self).errors,
    {
        let ghost target = find_char(self.source@, self.current as int, '\n');
        while self.current < self.len && self.char_at(self.current) != '\n'
            invariant
                self.wf(),
                old(self).current <= self.current,
                find_char(self.source@, self.current as int, '\n') == target,
                self.source == old(self).source,
                self.start == old(self).start,
                self.line == old(self).line,
                self.tokens == old(self).tokens,
                self.errors == old(self).errors,
            decreases self.len - self.current,
        {
            self.current = self.current + 1;
        }
    }

    /// Scans one token, or one comment, blank or error, from `start`.
    fn scan_token(&mut self)
        requires
            old(self).wf(),
            old(self).current < old(self).len,
            old(self).start == old(self).current,
        ensures
            final(self).wf(),
            final(self).source == old(self).source,
            final(self).current > old(self).current,
            ({
                let st = scan_step(old(self).source@, old(self).current as int, old(self).line as int);
                &&& final(self).current == st.next
                &&& final(self).line == st.line
                &&& views(final(self).tokens@) == views(old(self).tokens@) + opt_seq(st.token)
                &&& final(self).errors@ == old(self).errors@ + opt_seq(st.error)
            }),
    {
        let ghost s = self.source@;
        let ghost i = self.current as int;
        let ghost st = scan_step(s, i, self.line as int);
        proof {
            lemma_step_advances(s, i, self.line as int);
            lemma_views_push_empty(self.tokens@);
        }
        let c = self.char_at(self.current);
        self.current = self.current + 1;
        if let Some(kind) = single(c) {
            self.add_token(kind, None);
        } else if let Some((alone, with_equal)) = equal_pair(c) {
            let kind = if self.next_is('=') {
                with_equal
            } else {
                alone
            };
            self.add_token(kind, None);
        } else if c == '/' {
            if self.next_is('/') {
                self.skip_line();
            } else if self.next_is('*') {
                proof {
                    lemma_comment_close(s, i + 2);
                }
                self.skip_comment();
                if self.current < self.len {
                    self.current = self.current + 2;
                } else {
                    self.report(ScanErrorKind::UnterminatedComment);
                }
            } else {
                self.add_token(TokenType::Slash, None);
            }
        } else if c == ' ' || c == '\r' || c == '\t' {
        } else if c == '\n' {
            self.line = self.line + 1;
        } else if c == '"' {
            self.string();
        } else if char_is_digit(c) {
            self.number();
        } else if char_is_alnum(c) {
            self.identifier();
        } else {
            self.report(ScanErrorKind::UnexpectedCharacter);
        }
        proof {
            lemma_views_push(old(self).tokens@, self.tokens@);
        }
    }

    /// Scans a string literal whose opening quote was consumed. The string
    /// ends at the next `"` that is not escaped: a backslash escapes the
    /// character after it. The literal is the raw text between the quotes
    /// (escapes are kept as written), and newlines in it are counted.
    fn string(&mut self)
        requires
            old(self).wf(),
            old(self).current == old(self).start + 1,
            old(self).source@[old(self).start as int] == '"',
        ensures
            final(self).wf(),
            final(self).source == old(self).source,
            ({
                let st = scan_step(old(self).source@, old(self).start as int, old(self).line as int);
                &&& final(self).current == st.next
                &&& final(self).line == st.line
                &&& views(final(self).tokens@) == views(old(self).tokens@) + opt_seq(st.token)
                &&& final(self).errors@ == old(self).errors@ + opt_seq(st.error)
            }),
    {
        let ghost s = self.source@;
        proof {
            lemma_string_end(s, self.current as int);
            lemma_newlines(s, self.current as int, string_end(s, self.current as int));
            lemma_views_push_empty(self.tokens@);
        }
        self.skip_string();
        if self.current >= self.len {
            self.report(ScanErrorKind::UnterminatedString);
            return;
        }
        self.current = self.current + 1;
        let inner = self.source.as_str().substring_char(self.start + 1, self.current - 1);
        let value = String::from_str(inner);
        self.add_token(TokenType::String, Some(Literal::Str(value)));
        proof {
            lemma_views_push(old(self).tokens@, self.tokens@);
        }
    }

    /// Scans a number literal whose first digit was consumed.
    fn number(&mut self)
        requires
            old(self).wf(),
            old(self).current == old(self).start + 1,
            is_digit(old(self).source@[old(self).start as int]),
        ensures
            final(self).wf(),
            final(self).source == old(self).source,
            ({
                let st = scan_step(old(self).source@, old(self).start as int, old(self).line as int);
                &&& final(self).current == st.next
                &&& final(self).line == st.line
                &&& views(final(self).tokens@) == views(old(self).tokens@) + opt_seq(st.token)
                &&& final(self).errors@ == old(self).errors@ + opt_seq(st.error)
            }),
    {
        let ghost s = self.source@;
        proof {
            lemma_views_push_empty(self.tokens@);
        }
        self.skip_run(false);
        if self.current + 1 < self.len && self.char_at(self.current) == '.' && char_is_digit(
            self.char_at(self.current + 1),
        ) {
            self.current = self.current + 1;
            self.skip_run(false);
        }
        let text = self.source.as_str().substring_char(self.start, self.current);
        let value = String::from_str(text);
        self.add_token(TokenType::Number, Some(Literal::Number(value)));
        proof {
            lemma_views_push(old(self).tokens@, self.tokens@);
        }
    }

    /// Scans an identifier or keyword whose first letter was consumed.
    fn identifier(&mut self)
        requires
            old(self).wf(),
            old(self).current == old(self).start + 1,
        ensures
            final(self).wf(),
            final(self).source == old(self).source,
            final(self).current == run_end(old(self).source@, old(self).current as int, true),
            final(self).line == old(self).line,
            final(self).errors == old(self).errors,
            ({
                let j = final(self).current as int;
                let w = old(self).source@.subrange(old(self).start as int, j);
                let kind = match keyword(w) {
                    Some(k) => k,
                    None => TokenType::Identifier,
                };
                views(final(self).tokens@) == views(old(self).tokens@) + seq![
                    token_view(kind, w, None, old(self).line as int),
                ]
            }),
    {
        self.skip_run(true);
        let text = self.source.as_str().substring_char(self.start, self.current);
        let kind = match keywords(text) {
            Some(k) => k,
            None => TokenType::Identifier,
        };
        self.add_token(kind, None);
        proof {
            lemma_views_push(old(self).tokens@, self.tokens@);
        }
    }
}

fn single(c: char) -> (r: Option<TokenType>)
    ensures
        r == single_kind(c),
{
    match c {
        '(' => Some(TokenType::LeftParen),
        ')' => Some(TokenType::RightParen),
        '{' => Some(TokenType::LeftBrace),
        '}' => Some(TokenType::RightBrace),
        ',' => Some(TokenType::Comma),
        '.' => Some(TokenType::Dot),
        '-' => Some(TokenType::Minus),
        '+' => Some(TokenType::Plus),
        ';' => Some(TokenType::Semicolon),
        '*' => Some(TokenType::Star),
        '?' => Some(TokenType::Question),
        ':' => Some(TokenType::Colon),
        _ => None,
    }
}

fn equal_pair(c: char) -> (r: Option<(TokenType, TokenType)>)
    ensures
        r == equal_kinds(c),
{
    match c {
        '!' => Some((TokenType::Bang, TokenType::BangEqual)),
        '=' => Some((TokenType::Equal, TokenType::EqualEqual)),
        '<' => Some((TokenType::Less, TokenType::LessEqual)),
        '>' => Some((TokenType::Greater, TokenType::GreaterEqual)),
        _ => None,
    }
}

proof fn lemma_views_push_empty(v: Seq<Token>)
    ensures
        views(v) + Seq::<TokenView>::empty() == views(v),
{
    assert(views(v) + Seq::<TokenView>::empty() =~= views(v));
}

/// Views of a sequence grown by at most one token.
proof fn lemma_views_push(before: Seq<Token>, after: Seq<Token>)
    ensures
        after.len() == before.len() + 1 && after.subrange(0, before.len() as int) == before
            ==> views(after) == views(before) + seq![after.last()@],
        after == before ==> views(after) == views(before) + Seq::<TokenView>::empty(),
{
    if after.len() == before.len() + 1 && after.subrange(0, before.len() as int) == before {
        assert(views(after) =~= views(before) + seq![after.last()@]);
    }
    if after == before {
        assert(views(after) =~= views(before) + Seq::<TokenView>::empty());
    }
}


impl ScanErrorKind {
    pub open spec fn text(self) -> Seq<char> {
        match self {
            ScanErrorKind::UnterminatedComment => "Unterminated multiline comment"@,
            ScanErrorKind::UnterminatedString => "Unterminated string"@,
            ScanErrorKind::UnexpectedCharacter => "Unexpected character"@,
        }
    }

    pub fn message(&self) -> (r: &'static str)
        ensures
            r@ == self.text(),
    {
        match self {
            ScanErrorKind::UnterminatedComment => "Unterminated multiline comment",
            ScanErrorKind::UnterminatedString => "Unterminated string",
            ScanErrorKind::UnexpectedCharacter => "Unexpected character",
        }
    }
}

/// The kind of a fixed one- or two-character operator lexeme, if `w` is
/// one.
pub open spec fn operator_kind(w: Seq<char>) -> Option<TokenType> {
    if w.len() == 1 && single_kind(w[0]) is Some {
        single_kind(w[0])
    } else if w.len() == 1 && equal_kinds(w[0]) is Some {
        let (alone, _) = equal_kinds(w[0])->0;
        Some(alone)
    } else if w.len() == 2 && equal_kinds(w[0]) is Some && w[1] == '=' {
        let (_, with_equal) = equal_kinds(w[0])->0;
        Some(with_equal)
    } else if w.len() == 1 && w[0] == '/' {
        Some(TokenType::Slash)
    } else {
        None
    }
}

/// Scanning a fixed operator lexeme on its own yields exactly one token of
/// its kind, then the end of input, and no error.
pub proof fn lemma_operator_alone(w: Seq<char>)
    requires
        operator_kind(w) is Some,
    ensures
        scan(w).0 == seq![token_view(operator_kind(w)->0, w, None, 1), eof_view(1)],
        scan(w).1 == Seq::<ScanError>::empty(),
{
    let st = scan_step(w, 0, 1);
    assert(w.subrange(0, w.len() as int) == w);
    assert(st.next == w.len());
    let rest = scan_from(w, st.next, st.line);
    assert(rest.0 == seq![eof_view(1)]);
    assert(scan(w).0 =~= seq![token_view(operator_kind(w)->0, w, None, 1), eof_view(1)]);
    assert(scan(w).1 =~= Seq::<ScanError>::empty());
}

/// Scanning is lossy: distinct sources can give the same tokens and the
/// same errors (here, a trailing blank leaves no trace), so the source
/// cannot be rebuilt from its scan.
pub proof fn lemma_scan_is_lossy()
    ensures
        exists|a: Seq<char>, b: Seq<char>| a != b && #[trigger] scan(a) == #[trigger] scan(b),
{
    let a = seq!['1'];
    let b = seq!['1', ' '];
    assert(a.len() != b.len());
    assert(run_end(a, 1, false) == 1);
    assert(run_end(b, 1, false) == 1);
    assert(number_end(a, 0) == 1);
    assert(number_end(b, 0) == 1);
    assert(a.subrange(0, 1) =~= b.subrange(0, 1));
    let sa = scan_step(a, 0, 1);
    let sb = scan_step(b, 0, 1);
    assert(sa == sb);
    assert(scan_from(b, 1, 1) == scan_from(b, 2, 1));
    assert(scan_from(b, 1, 1).0 =~= Seq::<TokenView>::empty() + scan_from(b, 2, 1).0);
    assert(scan_from(b, 1, 1).1 =~= Seq::<ScanError>::empty() + scan_from(b, 2, 1).1);
    assert(scan_from(a, 1, 1) == scan_from(b, 2, 1));
    assert(scan(a).0 =~= scan(b).0);
    assert(scan(a).1 =~= scan(b).1);
}

/// Every scan ends with exactly one end-of-input token: it is the last
/// token, and no other token is one.
pub proof fn lemma_scan_ends_once(s: Seq<char>, i: int, line: int)
    ensures
        scan_from(s, i, line).0.len() > 0,
        scan_from(s, i, line).0.last().kind == TokenType::Eof,
        forall|k: int|
            0 <= k < scan_from(s, i, line).0.len() - 1 ==> #[trigger] scan_from(
                s,
                i,
                line,
            ).0[k].kind != TokenType::Eof,
    decreases s.len() - i,
{
    if 0 <= i < s.len() {
        let st = scan_step(s, i, line);
        lemma_step_advances(s, i, line);
        lemma_scan_ends_once(s, st.next, st.line);
        let rest = scan_from(s, st.next, st.line);
        let all = opt_seq(st.token) + rest.0;
        assert(all.last() == rest.0.last());
        if st.token is Some {
            assert(st.token->0.kind != TokenType::Eof);
            assert forall|k: int| 0 <= k < all.len() - 1 implies #[trigger] all[k].kind
                != TokenType::Eof by {
                if k > 0 {
                    assert(all[k] == rest.0[k - 1]);
                }
            }
        } else {
            assert(all =~= rest.0);
        }
    }
}

/// Kind and lexeme of each token.
pub open spec fn kinds_lexemes(t: Seq<TokenView>) -> Seq<(TokenType, Seq<char>)> {
    t.map_values(|x: TokenView| (x.kind, x.lexeme))
}

/// The lexemes of a token sequence joined by single blanks, as a text:
/// each token but the last (the end of input, whose lexeme is empty) is
/// followed by one blank.
pub open spec fn spaced(t: Seq<TokenView>) -> Seq<char>
    decreases t.len(),
{
    if t.len() <= 1 {
        Seq::empty()
    } else {
        t[0].lexeme + seq![' '] + spaced(t.drop_first())
    }
}

pub open spec fn in_run(c: char, alnum: bool) -> bool {
    if alnum {
        is_alnum(c)
    } else {
        is_digit(c)
    }
}

/// `r` is where a run from `i` ends: every character before it is in the
/// run, and the one at `r`, if any, is not.
proof fn lemma_run_end_is(s: Seq<char>, i: int, alnum: bool, r: int)
    requires
        0 <= i <= r <= s.len(),
        forall|k: int| i <= k < r ==> in_run(#[trigger] s[k], alnum),
        r == s.len() || !in_run(s[r], alnum),
    ensures
        run_end(s, i, alnum) == r,
    decreases r - i,
{
    if i < r {
        lemma_run_end_is(s, i + 1, alnum, r);
    }
}

proof fn lemma_run_end_facts(s: Seq<char>, i: int, alnum: bool)
    requires
        0 <= i <= s.len(),
    ensures
        i <= run_end(s, i, alnum) <= s.len(),
        forall|k: int| i <= k < run_end(s, i, alnum) ==> in_run(#[trigger] s[k], alnum),
        run_end(s, i, alnum) == s.len() || !in_run(s[run_end(s, i, alnum)], alnum),
    decreases s.len() - i,
{
    if i < s.len() && in_run(s[i], alnum) {
        lemma_run_end_facts(s, i + 1, alnum);
    }
}

/// The end of a string depends only on the characters up to it: where
/// `x` holds at `p` what `s` holds at `i` through the closing quote at `j`,
/// the string from the same offset ends at the same offset.
proof fn lemma_string_end_shift(s: Seq<char>, x: Seq<char>, i: int, p: int, j: int, k: int)
    requires
        0 <= i < k <= j < s.len(),
        0 <= p,
        p + (j - i) < x.len(),
        string_end(s, k) == j,
        x.subrange(p, p + (j - i) + 1) == s.subrange(i, j + 1),
    ensures
        string_end(x, p + (k - i)) == p + (j - i),
    decreases j - k,
{
    let m = k - i;
    assert(0 <= m < j - i + 1);
    assert(x.subrange(p, p + (j - i) + 1)[m] == x[p + m]);
    assert(s.subrange(i, j + 1)[m] == s[i + m]);
    assert(x[p + m] == s[k]);
    if s[k] == '"' {
    } else if s[k] == '\\' && k + 1 < s.len() {
        lemma_string_end(s, k + 2);
        lemma_string_end_shift(s, x, i, p, j, k + 2);
    } else {
        lemma_string_end(s, k + 1);
        lemma_string_end_shift(s, x, i, p, j, k + 1);
    }
}

/// A token's lexeme, written at `p` in `x` and followed by a blank, scans
/// back to a token of the same kind and lexeme.
proof fn lemma_lexeme_rescans(s: Seq<char>, i: int, line: int, x: Seq<char>, p: int, l2: int)
    requires
        0 <= i < s.len(),
        scan_step(s, i, line).token is Some,
        0 <= p,
        p + scan_step(s, i, line).token->0.lexeme.len() < x.len(),
        x.subrange(p, p + scan_step(s, i, line).token->0.lexeme.len()) == scan_step(
            s,
            i,
            line,
        ).token->0.lexeme,
        x[p + scan_step(s, i, line).token->0.lexeme.len()] == ' ',
    ensures
        ({
            let tok = scan_step(s, i, line).token->0;
            let st = scan_step(x, p, l2);
            &&& st.token is Some
            &&& st.token->0.kind == tok.kind
            &&& st.token->0.lexeme == tok.lexeme
            &&& st.next == p + tok.lexeme.len()
            &&& st.error is None
        }),
{
    let st = scan_step(s, i, line);
    let tok = st.token->0;
    let w = tok.lexeme;
    let n = w.len() as int;
    lemma_step_advances(s, i, line);
    assert(w == s.subrange(i, st.next));
    assert(n == st.next - i);
    assert forall|k: int| 0 <= k < n implies #[trigger] x[p + k] == s[i + k] by {
        assert(x.subrange(p, p + n)[k] == x[p + k]);
    }
    assert(x[p + 0] == s[i + 0]);
    let c = s[i];
    if single_kind(c) is Some {
    } else if equal_kinds(c) is Some {
        if i + 1 < s.len() && s[i + 1] == '=' {
            assert(x[p + 1] == s[i + 1]);
        }
    } else if c == '/' {
    } else if c == '"' {
        let j = string_end(s, i + 1);
        lemma_string_end(s, i + 1);
        assert(x.subrange(p, p + n) == s.subrange(i, j + 1));
        lemma_string_end_shift(s, x, i, p, j, i + 1);
    } else if is_digit(c) {
        let d = run_end(s, i, false);
        let j = number_end(s, i);
        lemma_run_end_facts(s, i, false);
        if d + 1 < s.len() {
            lemma_run_end_facts(s, d + 1, false);
        }
        assert(d <= j);
        assert forall|k: int| p <= k < p + (d - i) implies 0 <= k < x.len() && in_run(#[trigger] x[k], false) by {
            assert(x[p + (k - p)] == s[i + (k - p)]);
        }
        if d < j {
            assert(in_run(s[d + 1], false));
            assert(d + 1 < j);
            assert(x[p + (d - i)] == s[i + (d - i)]);
            assert(x[p + (d - i + 1)] == s[i + (d - i + 1)]);
            lemma_run_end_is(x, p, false, p + (d - i));
            lemma_run_end_facts(s, d + 1, false);
            assert forall|k: int| p + (d - i) + 1 <= k < p + (j - i) implies in_run(
                #[trigger] x[k],
                false,
            ) by {
                assert(x[p + (k - p)] == s[i + (k - p)]);
            }
            lemma_run_end_is(x, p + (d - i) + 1, false, p + (j - i));
        } else {
            lemma_run_end_is(x, p, false, p + (d - i));
        }
    } else if is_alpha(c) {
        let j = run_end(s, i + 1, true);
        lemma_run_end_facts(s, i + 1, true);
        assert forall|k: int| p + 1 <= k < p + (j - i) implies in_run(#[trigger] x[k], true) by {
            assert(x[p + (k - p)] == s[i + (k - p)]);
        }
        lemma_run_end_is(x, p + 1, true, p + (j - i));
    }
}

/// Scanning the blank-joined lexemes of the scan of `s` from `i`, written
/// after any text `pre`, gives back the same kinds and lexemes, and no error.
pub open spec fn rescans(s: Seq<char>, i: int, line: int, pre: Seq<char>, l2: int) -> bool {
    let t = scan_from(s, i, line).0;
    let again = scan_from(pre + spaced(t), pre.len() as int, l2);
    &&& kinds_lexemes(again.0) == kinds_lexemes(t)
    &&& again.1 == Seq::<ScanError>::empty()
}

/// Kinds and lexemes of two sequences that start with matching tokens.
proof fn lemma_kinds_lexemes_cons(a: TokenView, b: TokenView, u: Seq<TokenView>, v: Seq<TokenView>)
    requires
        a.kind == b.kind,
        a.lexeme == b.lexeme,
        kinds_lexemes(u) == kinds_lexemes(v),
    ensures
        kinds_lexemes(seq![a] + u) == kinds_lexemes(seq![b] + v),
{
    assert(u.len() == kinds_lexemes(u).len());
    assert(v.len() == kinds_lexemes(v).len());
    assert forall|k: int| 0 <= k < u.len() implies u[k].kind == v[k].kind && u[k].lexeme
        == v[k].lexeme by {
        assert(kinds_lexemes(u)[k] == kinds_lexemes(v)[k]);
    }
    assert(kinds_lexemes(seq![a] + u) =~= kinds_lexemes(seq![b] + v));
}

/// A token at `p` whose lexeme is followed by a blank: the scan from `p`
/// is that token, then the scan from after the blank.
#[verifier::rlimit(100)]
proof fn lemma_token_then_blank(x: Seq<char>, p: int, l2: int, n: int)
    requires
        0 <= p,
        0 < n,
        p + n < x.len(),
        x[p + n] == ' ',
        scan_step(x, p, l2).token is Some,
        scan_step(x, p, l2).error is None,
        scan_step(x, p, l2).next == p + n,
    ensures
        ({
            let st2 = scan_step(x, p, l2);
            let later = scan_from(x, p + n + 1, st2.line);
            &&& scan_from(x, p, l2).0 == seq![st2.token->0] + later.0
            &&& scan_from(x, p, l2).1 == later.1
        }),
{
    let st2 = scan_step(x, p, l2);
    let st3 = scan_step(x, p + n, st2.line);
    assert(st3 == skip(p + n + 1, st2.line));
    let later = scan_from(x, p + n + 1, st2.line);
    let mid = scan_from(x, p + n, st2.line);
    assert(mid.0 =~= Seq::<TokenView>::empty() + later.0);
    assert(mid.1 =~= Seq::<ScanError>::empty() + later.1);
    assert(scan_from(x, p, l2).0 =~= seq![st2.token->0] + later.0);
    assert(scan_from(x, p, l2).1 =~= Seq::<ScanError>::empty() + later.1);
}

/// The step of `lemma_rescan_from` where the scan yields a token.
#[verifier::rlimit(100)]
proof fn lemma_rescan_token(s: Seq<char>, i: int, line: int, pre: Seq<char>, l2: int)
    requires
        0 <= i < s.len(),
        scan_step(s, i, line).token is Some,
        forall|pre2: Seq<char>, l3: int|
            #[trigger] rescans(s, scan_step(s, i, line).next, scan_step(s, i, line).line, pre2, l3),
    ensures
        rescans(s, i, line, pre, l2),
{
    let t = scan_from(s, i, line).0;
    let st = scan_step(s, i, line);
    lemma_step_advances(s, i, line);
    let rest = scan_from(s, st.next, st.line);
    let tok = st.token->0;
    let w = tok.lexeme;
    lemma_scan_ends_once(s, st.next, st.line);
    assert(t == seq![tok] + rest.0);
    assert(t.drop_first() =~= rest.0);
    assert(spaced(t) == w + seq![' '] + spaced(rest.0));
    let x = pre + spaced(t);
    let pre2 = pre + w + seq![' '];
    assert(x =~= pre2 + spaced(rest.0));
    let p = pre.len() as int;
    let n = w.len() as int;
    assert(x.subrange(p, p + n) =~= w);
    assert(x[p + n] == ' ');
    lemma_lexeme_rescans(s, i, line, x, p, l2);
    let st2 = scan_step(x, p, l2);
    lemma_token_then_blank(x, p, l2, n);
    assert(pre2.len() == p + n + 1);
    assert(rescans(s, st.next, st.line, pre2, st2.line));
    let later = scan_from(x, p + n + 1, st2.line);
    lemma_kinds_lexemes_cons(st2.token->0, tok, later.0, rest.0);
}

/// Scanning the blank-joined lexemes of a scan from `i`, written after any
/// text `pre`, gives back the same kinds and lexemes, and no error.
proof fn lemma_rescan_from(s: Seq<char>, i: int, line: int, pre: Seq<char>, l2: int)
    requires
        0 <= i,
    ensures
        rescans(s, i, line, pre, l2),
    decreases s.len() - i,
{
    let t = scan_from(s, i, line).0;
    if i >= s.len() {
        assert(pre + spaced(t) =~= pre);
        assert(kinds_lexemes(scan_from(pre, pre.len() as int, l2).0) =~= kinds_lexemes(t));
    } else {
        let st = scan_step(s, i, line);
        lemma_step_advances(s, i, line);
        let rest = scan_from(s, st.next, st.line);
        assert forall|pre2: Seq<char>, l3: int| #[trigger] rescans(s, st.next, st.line, pre2, l3) by {
            lemma_rescan_from(s, st.next, st.line, pre2, l3);
        }
        if st.token is Some {
            lemma_rescan_token(s, i, line, pre, l2);
        } else {
            lemma_rescan_from(s, st.next, st.line, pre, l2);
            assert(t =~= rest.0);
        }
    }
}

/// Scanning is a fixpoint on kinds and lexemes: re-scanning the lexemes of
/// a scan, joined by single blanks, gives the same kinds and lexemes and no
/// error (though not, in general, the source itself).
pub proof fn lemma_rescan_lexemes(s: Seq<char>)
    ensures
        kinds_lexemes(scan(spaced(scan(s).0)).0) == kinds_lexemes(scan(s).0),
        scan(spaced(scan(s).0)).1 == Seq::<ScanError>::empty(),
{
    lemma_rescan_from(s, 0, 1, Seq::empty(), 1);
    assert(Seq::<char>::empty() + spaced(scan(s).0) =~= spaced(scan(s).0));
}

} // verus!
