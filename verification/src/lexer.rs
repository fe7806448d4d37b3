//! The scanner: it turns source text into the ordered token sequence,
//! terminated by exactly one end-marker token. It owns line counting and
//! lexical error detection; a lexical error is recorded and scanning goes
//! on, so the result is a best-effort token sequence plus the collected
//! errors.
//!
//! The spec function `scan_all` is the whole scan: `scan_step` reads one
//! maximal-munch token (or skips blanks and comments) at a position, and
//! `scan_all` chains steps until the end of the text.

use vstd::prelude::*;
use vstd::string::{StrSliceExecFns, StringExecFns};

use crate::number::{all_digits, decimal_shaped, is_digit, num_from_decimal, single_of_decimal};
use crate::token::{Literal, LiteralView, Token, TokenType, TokenView};

verus! {

/// Whether Unicode classes the character as alphabetic.
pub uninterp spec fn unicode_alpha(c: char) -> bool;

/// Whether Unicode classes the character as alphanumeric.
pub uninterp spec fn unicode_alnum(c: char) -> bool;

/// Relies on `char::is_alphabetic` of std: a property of the character alone.
#[verifier::external_body]
pub(crate) fn char_is_alphabetic(c: char) -> (r: bool)
    ensures
        r == unicode_alpha(c),
{
    c.is_alphabetic()
}

/// Relies on `char::is_alphanumeric` of std: a property of the character alone.
#[verifier::external_body]
pub(crate) fn char_is_alphanumeric(c: char) -> (r: bool)
    ensures
        r == unicode_alnum(c),
{
    c.is_alphanumeric()
}

/// A character that can open an identifier or keyword.
pub open spec fn ident_start(c: char) -> bool {
    unicode_alpha(c) || c == '_'
}

/// A lexical error kind: the offending character, or a string literal still
/// open at the end of the text.
#[derive(Clone, Copy, Debug, PartialEq, Eq, Structural)]
pub enum LexErrorKind {
    UnexpectedCharacter(char),
    UnterminatedString,
}

/// A lexical error with the 1-based line it was found on (for an
/// unterminated string, the line the string opened on).
#[derive(Clone, Copy, Debug, PartialEq, Eq, Structural)]
pub struct LexError {
    pub kind: LexErrorKind,
    pub line: usize,
}

/// The first position at or after `i` that does not hold a decimal digit
/// (or the end of the text).
pub open spec fn digits_end(s: Seq<char>, i: int) -> int
    decreases s.len() - i,
{
    if 0 <= i < s.len() && is_digit(s[i]) {
        digits_end(s, i + 1)
    } else {
        i
    }
}

/// The first position at or after `i` holding a closing quote (or the end
/// of the text).
pub open spec fn string_close(s: Seq<char>, i: int) -> int
    decreases s.len() - i,
{
    if 0 <= i < s.len() {
        if s[i] == '"' {
            i
        } else {
            string_close(s, i + 1)
        }
    } else {
        s.len() as int
    }
}

/// The first position at or after `i` holding a newline (or the end of the
/// text): where a line comment stops.
pub open spec fn comment_end(s: Seq<char>, i: int) -> int
    decreases s.len() - i,
{
    if 0 <= i < s.len() {
        if s[i] == '\n' {
            i
        } else {
            comment_end(s, i + 1)
        }
    } else {
        s.len() as int
    }
}

/// The first position at or after `i` whose character is not alphanumeric
/// (or the end of the text): where an identifier or keyword stops.
pub open spec fn alnum_end(s: Seq<char>, i: int) -> int
    decreases s.len() - i,
{
    if 0 <= i < s.len() && unicode_alnum(s[i]) {
        alnum_end(s, i + 1)
    } else {
        i
    }
}

/// How many newlines `s` holds in the positions `i` up to `j`.
pub open spec fn newlines(s: Seq<char>, i: int, j: int) -> int
    decreases j - i,
{
    if i >= j {
        0
    } else {
        newlines(s, i, j - 1) + if s[j - 1] == '\n' {
            1int
        } else {
            0int
        }
    }
}

pub proof fn lemma_digits_end(s: Seq<char>, i: int)
    requires
        0 <= i <= s.len(),
    ensures
        i <= digits_end(s, i) <= s.len(),
        forall|k: int| i <= k < digits_end(s, i) ==> is_digit(#[trigger] s[k]),
        digits_end(s, i) == s.len() || !is_digit(s[digits_end(s, i)]),
    decreases s.len() - i,
{
    if 0 <= i < s.len() && is_digit(s[i]) {
        lemma_digits_end(s, i + 1);
    }
}

pub proof fn lemma_string_close(s: Seq<char>, i: int)
    requires
        0 <= i <= s.len(),
    ensures
        i <= string_close(s, i) <= s.len(),
        forall|k: int| i <= k < string_close(s, i) ==> #[trigger] s[k] != '"',
        string_close(s, i) == s.len() || s[string_close(s, i)] == '"',
    decreases s.len() - i,
{
    if 0 <= i < s.len() && s[i] != '"' {
        lemma_string_close(s, i + 1);
    }
}

pub proof fn lemma_comment_end(s: Seq<char>, i: int)
    requires
        0 <= i <= s.len(),
    ensures
        i <= comment_end(s, i) <= s.len(),
        forall|k: int| i <= k < comment_end(s, i) ==> #[trigger] s[k] != '\n',
        comment_end(s, i) == s.len() || s[comment_end(s, i)] == '\n',
    decreases s.len() - i,
{
    if 0 <= i < s.len() && s[i] != '\n' {
        lemma_comment_end(s, i + 1);
    }
}

pub proof fn lemma_alnum_end(s: Seq<char>, i: int)
    requires
        0 <= i <= s.len(),
    ensures
        i <= alnum_end(s, i) <= s.len(),
    decreases s.len() - i,
{
    if 0 <= i < s.len() && unicode_alnum(s[i]) {
        lemma_alnum_end(s, i + 1);
    }
}

pub proof fn lemma_newlines_bounds(s: Seq<char>, i: int, j: int)
    ensures
        0 <= newlines(s, i, j) <= if j >= i {
            j - i
        } else {
            0int
        },
    decreases j - i,
{
    if i < j {
        lemma_newlines_bounds(s, i, j - 1);
    }
}

/// The reserved-word table: the category of an identifier-shaped text.
pub open spec fn keyword_type(s: Seq<char>) -> TokenType {
    if s == "and"@ {
        TokenType::And
    } else if s == "class"@ {
        TokenType::Class
    } else if s == "else"@ {
        TokenType::Else
    } else if s == "false"@ {
        TokenType::False
    } else if s == "for"@ {
        TokenType::For
    } else if s == "fun"@ {
        TokenType::Fun
    } else if s == "if"@ {
        TokenType::If
    } else if s == "nil"@ {
        TokenType::Nil
    } else if s == "or"@ {
        TokenType::Or
    } else if s == "print"@ {
        TokenType::Print
    } else if s == "return"@ {
        TokenType::Return
    } else if s == "super"@ {
        TokenType::Super
    } else if s == "this"@ {
        TokenType::This
    } else if s == "true"@ {
        TokenType::True
    } else if s == "var"@ {
        TokenType::Var
    } else if s == "while"@ {
        TokenType::While
    } else {
        TokenType::Identifier
    }
}

/// The outcome of reading one step at position `i`: where scanning resumes,
/// the line counter after the step, and the token or error the step yields.
pub struct ScanStep {
    pub next: int,
    pub line_after: int,
    pub token: Option<TokenView>,
    pub error: Option<LexError>,
}

/// A one-character token.
pub open spec fn punct_step(s: Seq<char>, i: int, line: int, tt: TokenType) -> ScanStep {
    ScanStep {
        next: i + 1,
        line_after: line,
        token: Some(
            TokenView { token_type: tt, lexeme: s.subrange(i, i + 1), literal: None, line },
        ),
        error: None,
    }
}

/// A one- or two-character operator: maximal munch with one character of
/// lookahead for a trailing `=` (or the given second character).
pub open spec fn two_char_step(
    s: Seq<char>,
    i: int,
    line: int,
    second: char,
    long: TokenType,
    short: TokenType,
) -> ScanStep {
    if i + 1 < s.len() && s[i + 1] == second {
        ScanStep {
            next: i + 2,
            line_after: line,
            token: Some(
                TokenView { token_type: long, lexeme: s.subrange(i, i + 2), literal: None, line },
            ),
            error: None,
        }
    } else {
        punct_step(s, i, line, short)
    }
}

/// A string literal opened at `i`: its value is the text strictly between
/// the quotes, its line the one its closing quote sits on; a string still
/// open at the end of the text is an error on its opening line.
pub open spec fn string_step(s: Seq<char>, i: int, line: int) -> ScanStep {
    let close = string_close(s, i + 1);
    if close >= s.len() {
        ScanStep {
            next: s.len() as int,
            line_after: line + newlines(s, i + 1, s.len() as int),
            token: None,
            error: Some(
                LexError { kind: LexErrorKind::UnterminatedString, line: line as usize },
            ),
        }
    } else {
        let line2 = line + newlines(s, i + 1, close);
        ScanStep {
            next: close + 1,
            line_after: line2,
            token: Some(
                TokenView {
                    token_type: TokenType::Str,
                    lexeme: s.subrange(i, close + 1),
                    literal: Some(LiteralView::Str(s.subrange(i + 1, close))),
                    line: line2,
                },
            ),
            error: None,
        }
    }
}

/// A number literal opened at `i`: a maximal run of digits, joined by a
/// point to a second run only when at least one digit follows the point.
/// Its value is the correctly rounded reading of the matched text.
pub open spec fn number_step(s: Seq<char>, i: int, line: int) -> ScanStep {
    let whole_end = digits_end(s, i + 1);
    let end = if whole_end < s.len() && s[whole_end] == '.' && whole_end + 1 < s.len() && is_digit(
        s[whole_end + 1],
    ) {
        digits_end(s, whole_end + 1)
    } else {
        whole_end
    };
    let lexeme = s.subrange(i, end);
    ScanStep {
        next: end,
        line_after: line,
        token: Some(
            TokenView {
                token_type: TokenType::Number,
                lexeme,
                literal: Some(LiteralView::Number(single_of_decimal(lexeme))),
                line,
            },
        ),
        error: None,
    }
}

/// An identifier or keyword opened at `i`: a maximal run of alphanumeric
/// characters, looked up against the reserved-word table.
pub open spec fn ident_step(s: Seq<char>, i: int, line: int) -> ScanStep {
    let end = alnum_end(s, i + 1);
    ScanStep {
        next: end,
        line_after: line,
        token: Some(
            TokenView {
                token_type: keyword_type(s.subrange(i, end)),
                lexeme: s.subrange(i, end),
                literal: None,
                line,
            },
        ),
        error: None,
    }
}

/// One scanning step at position `i` of the text, with the line counter at
/// `line`: classify the character, munch maximally, and yield at most one
/// token or one error. Whitespace and comments yield neither; a newline
/// advances the line counter; an unknown character is an error carrying it.
pub open spec fn scan_step(s: Seq<char>, i: int, line: int) -> ScanStep {
    let c = s[i];
    if c == '(' {
        punct_step(s, i, line, TokenType::LeftParen)
    } else if c == ')' {
        punct_step(s, i, line, TokenType::RightParen)
    } else if c == '{' {
        punct_step(s, i, line, TokenType::LeftBrace)
    } else if c == '}' {
        punct_step(s, i, line, TokenType::RightBrace)
    } else if c == ',' {
        punct_step(s, i, line, TokenType::Comma)
    } else if c == '.' {
        punct_step(s, i, line, TokenType::Dot)
    } else if c == '-' {
        punct_step(s, i, line, TokenType::Minus)
    } else if c == '+' {
        punct_step(s, i, line, TokenType::Plus)
    } else if c == ';' {
        punct_step(s, i, line, TokenType::Semicolon)
    } else if c == '*' {
        punct_step(s, i, line, TokenType::Star)
    } else if c == '!' {
        two_char_step(s, i, line, '=', TokenType::BangEqual, TokenType::Bang)
    } else if c == '=' {
        two_char_step(s, i, line, '=', TokenType::EqualEqual, TokenType::Equal)
    } else if c == '<' {
        two_char_step(s, i, line, '=', TokenType::LessEqual, TokenType::Less)
    } else if c == '>' {
        two_char_step(s, i, line, '=', TokenType::GreaterEqual, TokenType::Greater)
    } else if c == '/' {
        if i + 1 < s.len() && s[i + 1] == '/' {
            ScanStep { next: comment_end(s, i + 2), line_after: line, token: None, error: None }
        } else {
            punct_step(s, i, line, TokenType::Slash)
        }
    } else if c == ' ' || c == '\r' || c == '\t' {
        ScanStep { next: i + 1, line_after: line, token: None, error: None }
    } else if c == '\n' {
        ScanStep { next: i + 1, line_after: line + 1, token: None, error: None }
    } else if c == '"' {
        string_step(s, i, line)
    } else if is_digit(c) {
        number_step(s, i, line)
    } else if ident_start(c) {
        ident_step(s, i, line)
    } else {
        ScanStep {
            next: i + 1,
            line_after: line,
            token: None,
            error: Some(
                LexError { kind: LexErrorKind::UnexpectedCharacter(c), line: line as usize },
            ),
        }
    }
}

/// Every step moves forward and stays within the text, and never moves the
/// line counter backwards; the token it yields sits between the two line
/// counts.
pub proof fn lemma_scan_step_bounds(s: Seq<char>, i: int, line: int)
    requires
        0 <= i < s.len(),
    ensures
        i < scan_step(s, i, line).next <= s.len(),
        scan_step(s, i, line).line_after >= line,
        scan_step(s, i, line).line_after <= line + (scan_step(s, i, line).next - i),
        scan_step(s, i, line).token matches Some(t) ==> line <= t.line <= scan_step(
            s,
            i,
            line,
        ).line_after,
{
    let c = s[i];
    if c == '/' && i + 1 < s.len() && s[i + 1] == '/' {
        lemma_comment_end(s, i + 2);
    } else if c == '"' {
        lemma_string_close(s, i + 1);
        lemma_newlines_bounds(s, i + 1, string_close(s, i + 1));
        lemma_newlines_bounds(s, i + 1, s.len() as int);
    } else if !(c == '(' || c == ')' || c == '{' || c == '}' || c == ',' || c == '.' || c == '-'
        || c == '+' || c == ';' || c == '*' || c == '!' || c == '=' || c == '<' || c == '>' || c
        == '/' || c == ' ' || c == '\r' || c == '\t' || c == '\n') && is_digit(c) {
        lemma_digits_end(s, i + 1);
        let whole_end = digits_end(s, i + 1);
        if whole_end < s.len() && s[whole_end] == '.' && whole_end + 1 < s.len() && is_digit(
            s[whole_end + 1],
        ) {
            lemma_digits_end(s, whole_end + 1);
        }
    } else {
        if ident_start(c) {
            lemma_alnum_end(s, i + 1);
        }
    }
}

/// What scanning yields from position `i` to the end of the text.
pub struct ScanOut {
    pub toks: Seq<TokenView>,
    pub errs: Seq<LexError>,
}

/// The whole scan from position `i` with the line counter at `line`: chain
/// steps to the end of the text, then one end-marker token. Scanning is
/// total: every step moves forward, so it terminates on all input.
pub open spec fn scan_all(s: Seq<char>, i: int, line: int) -> ScanOut
    decreases s.len() - i,
    via scan_all_decreases
{
    if !(0 <= i < s.len()) {
        ScanOut {
            toks: seq![
                TokenView { token_type: TokenType::Eof, lexeme: ""@, literal: None, line },
            ],
            errs: Seq::empty(),
        }
    } else {
        let st = scan_step(s, i, line);
        let rest = scan_all(s, st.next, st.line_after);
        ScanOut {
            toks: (match st.token {
                Some(t) => seq![t],
                None => Seq::empty(),
            }) + rest.toks,
            errs: (match st.error {
                Some(e) => seq![e],
                None => Seq::empty(),
            }) + rest.errs,
        }
    }
}

#[via_fn]
proof fn scan_all_decreases(s: Seq<char>, i: int, line: int) {
    if 0 <= i < s.len() {
        lemma_scan_step_bounds(s, i, line);
    }
}

/// The scan of any text ends with exactly one end-marker token, and line
/// numbers never decrease along the token sequence.
pub proof fn lemma_scan_all_wf(s: Seq<char>, i: int, line: int)
    ensures
        scan_all(s, i, line).toks.len() >= 1,
        scan_all(s, i, line).toks.last().token_type == TokenType::Eof,
        forall|k: int|
            0 <= k < scan_all(s, i, line).toks.len() - 1 ==> (#[trigger] scan_all(
                s,
                i,
                line,
            ).toks[k]).token_type != TokenType::Eof,
        forall|k: int|
            0 <= k < scan_all(s, i, line).toks.len() ==> line <= (#[trigger] scan_all(
                s,
                i,
                line,
            ).toks[k]).line,
        forall|j: int, k: int|
            0 <= j <= k < scan_all(s, i, line).toks.len() ==> (#[trigger] scan_all(
                s,
                i,
                line,
            ).toks[j]).line <= (#[trigger] scan_all(s, i, line).toks[k]).line,
    decreases s.len() - i,
{
    if 0 <= i < s.len() {
        lemma_scan_step_bounds(s, i, line);
        let st = scan_step(s, i, line);
        lemma_scan_all_wf(s, st.next, st.line_after);
    }
}

} // verus!

verus! {

/// The views of a token sequence.
pub open spec fn toks_views(ts: Seq<Token>) -> Seq<TokenView> {
    ts.map_values(|t: Token| t@)
}

/// A step's token, as a sequence of zero or one.
pub open spec fn opt_tok_seq(o: Option<TokenView>) -> Seq<TokenView> {
    match o {
        Some(t) => seq![t],
        None => Seq::empty(),
    }
}

/// A step's error, as a sequence of zero or one.
pub open spec fn opt_err_seq(o: Option<LexError>) -> Seq<LexError> {
    match o {
        Some(e) => seq![e],
        None => Seq::empty(),
    }
}

/// Character-for-character equality of two string slices.
fn str_eq(a: &str, b: &str) -> (r: bool)
    ensures
        r == (a@ == b@),
{
    let alen = a.unicode_len();
    let blen = b.unicode_len();
    if alen != blen {
        return false;
    }
    let mut i: usize = 0;
    while i < alen
        invariant
            a@.len() == alen,
            b@.len() == blen,
            alen == blen,
            0 <= i <= alen,
            forall|k: int| 0 <= k < i ==> a@[k] == b@[k],
        decreases alen - i,
    {
        if a.get_char(i) != b.get_char(i) {
            return false;
        }
        i = i + 1;
    }
    proof {
        assert(a@ =~= b@);
    }
    true
}

/// Look an identifier-shaped text up against the reserved-word table.
fn keyword_or_identifier(text: &str) -> (tt: TokenType)
    ensures
        tt == keyword_type(text@),
{
    if str_eq(text, "and") {
        TokenType::And
    } else if str_eq(text, "class") {
        TokenType::Class
    } else if str_eq(text, "else") {
        TokenType::Else
    } else if str_eq(text, "false") {
        TokenType::False
    } else if str_eq(text, "for") {
        TokenType::For
    } else if str_eq(text, "fun") {
        TokenType::Fun
    } else if str_eq(text, "if") {
        TokenType::If
    } else if str_eq(text, "nil") {
        TokenType::Nil
    } else if str_eq(text, "or") {
        TokenType::Or
    } else if str_eq(text, "print") {
        TokenType::Print
    } else if str_eq(text, "return") {
        TokenType::Return
    } else if str_eq(text, "super") {
        TokenType::Super
    } else if str_eq(text, "this") {
        TokenType::This
    } else if str_eq(text, "true") {
        TokenType::True
    } else if str_eq(text, "var") {
        TokenType::Var
    } else if str_eq(text, "while") {
        TokenType::While
    } else {
        TokenType::Identifier
    }
}

/// The scanner state: offsets into the source, the running line counter,
/// and the tokens and errors produced so far.
pub struct Lexer<'a> {
    pub source: &'a str,
    pub tokens: Vec<Token>,
    pub errors: Vec<LexError>,
    pub start: usize,
    pub current: usize,
    pub line: usize,
}

impl<'a> Lexer<'a> {
    /// Bookkeeping that holds from construction through the whole scan.
    pub open spec fn wf(self) -> bool {
        &&& self.current <= self.source@.len()
        &&& self.source@.len() < usize::MAX
        &&& 1 <= self.line
        &&& self.line <= self.current + 1
    }

    /// A fresh scanner over `source`, at its first character, on line 1.
    /// (The length bound only rules out a text at the machine's very limit,
    /// where the line counter could not be kept.)
    pub fn new(source: &'a str) -> (r: Lexer<'a>)
        requires
            source@.len() < usize::MAX,
        ensures
            r.source@ == source@,
            r.tokens@.len() == 0,
            r.errors@.len() == 0,
            r.current == 0,
            r.line == 1,
            r.wf(),
    {
        Lexer { source, tokens: Vec::new(), errors: Vec::new(), start: 0, current: 0, line: 1 }
    }

    /// Whether the whole text has been consumed.
    fn is_at_end(&self) -> (r: bool)
        requires
            self.wf(),
        ensures
            r == (self.current >= self.source@.len()),
    {
        self.current >= self.source.unicode_len()
    }

    /// Consume and yield the character at the cursor.
    fn advance(&mut self) -> (c: char)
        requires
            old(self).wf(),
            old(self).current < old(self).source@.len(),
        ensures
            final(self).wf(),
            c == old(self).source@[old(self).current as int],
            final(self).current == old(self).current + 1,
            final(self).source == old(self).source,
            final(self).tokens == old(self).tokens,
            final(self).errors == old(self).errors,
            final(self).start == old(self).start,
            final(self).line == old(self).line,
    {
        let c = self.source.get_char(self.current);
        self.current = self.current + 1;
        c
    }

    /// The character at the cursor, or the null character at the end.
    fn peek(&self) -> (c: char)
        requires
            self.wf(),
        ensures
            c == if self.current < self.source@.len() {
                self.source@[self.current as int]
            } else {
                '\0'
            },
    {
        if self.is_at_end() {
            return '\0';
        }
        self.source.get_char(self.current)
    }

    /// The character one past the cursor, or the null character at the end.
    fn peek_next(&self) -> (c: char)
        requires
            self.wf(),
        ensures
            c == if self.current + 1 < self.source@.len() {
                self.source@[self.current + 1]
            } else {
                '\0'
            },
    {
        if self.current + 1 >= self.source.unicode_len() {
            return '\0';
        }
        self.source.get_char(self.current + 1)
    }

    /// Consume the character at the cursor only when it is the expected one.
    fn matches(&mut self, expected: char) -> (r: bool)
        requires
            old(self).wf(),
        ensures
            final(self).wf(),
            final(self).source == old(self).source,
            final(self).tokens == old(self).tokens,
            final(self).errors == old(self).errors,
            final(self).start == old(self).start,
            final(self).line == old(self).line,
            ({
                if old(self).current < old(self).source@.len() && old(self).source@[old(
                    self,
                ).current as int] == expected {
                    r == true && final(self).current == old(self).current + 1
                } else {
                    r == false && final(self).current == old(self).current
                }
            }),
    {
        if self.is_at_end() {
            return false;
        }
        if self.source.get_char(self.current) != expected {
            return false;
        }
        self.current = self.current + 1;
        true
    }

    /// Record a token without a literal value over the current lexeme.
    fn add_token(&mut self, token_type: TokenType)
        requires
            old(self).wf(),
            old(self).start <= old(self).current,
        ensures
            final(self).wf(),
            final(self).source == old(self).source,
            final(self).errors == old(self).errors,
            final(self).start == old(self).start,
            final(self).current == old(self).current,
            final(self).line == old(self).line,
            toks_views(final(self).tokens@) =~= toks_views(old(self).tokens@).push(
                TokenView {
                    token_type,
                    lexeme: old(self).source@.subrange(
                        old(self).start as int,
                        old(self).current as int,
                    ),
                    literal: None,
                    line: old(self).line as int,
                },
            ),
    {
        self.add_token_literal(token_type, None);
    }

    /// Record a token over the current lexeme (the text from `start` up to
    /// the cursor), carrying the given literal value, on the current line.
    fn add_token_literal(&mut self, token_type: TokenType, literal: Option<Literal>)
        requires
            old(self).wf(),
            old(self).start <= old(self).current,
        ensures
            final(self).wf(),
            final(self).source == old(self).source,
            final(self).errors == old(self).errors,
            final(self).start == old(self).start,
            final(self).current == old(self).current,
            final(self).line == old(self).line,
            toks_views(final(self).tokens@) =~= toks_views(old(self).tokens@).push(
                TokenView {
                    token_type,
                    lexeme: old(self).source@.subrange(
                        old(self).start as int,
                        old(self).current as int,
                    ),
                    literal: match literal {
                        Some(l) => Some(l@),
                        None => None,
                    },
                    line: old(self).line as int,
                },
            ),
    {
        let text = self.source.substring_char(self.start, self.current).to_owned();
        let t = Token::new(token_type, text, literal, self.line);
        self.tokens.push(t);
    }
}

} // verus!

verus! {

impl<'a> Lexer<'a> {
    /// Scan a string literal whose opening quote sits just before the
    /// cursor: consume up to the closing quote, tracking embedded newlines
    /// against the line counter. A string still open at the end of the text
    /// is recorded as an error on its opening line, and scanning resumes
    /// after it.
    fn string(&mut self)
        requires
            old(self).wf(),
            old(self).start + 1 == old(self).current,
            (old(self).start as int) < old(self).source@.len(),
            old(self).source@[old(self).start as int] == '"',
        ensures
            final(self).wf(),
            final(self).source == old(self).source,
            final(self).start == old(self).start,
            ({
                let st = string_step(
                    old(self).source@,
                    old(self).start as int,
                    old(self).line as int,
                );
                &&& final(self).current as int == st.next
                &&& final(self).line as int == st.line_after
                &&& toks_views(final(self).tokens@) =~= toks_views(old(self).tokens@)
                    + opt_tok_seq(st.token)
                &&& final(self).errors@ =~= old(self).errors@ + opt_err_seq(st.error)
            }),
    {
        let ghost src = self.source@;
        let ghost i = self.start as int;
        let ghost line0 = self.line as int;
        let ghost tv0 = toks_views(self.tokens@);
        let ghost ev0 = self.errors@;
        let line_open = self.line;
        loop
            invariant
                self.wf(),
                self.source@ == src,
                self.source == old(self).source,
                self.start == old(self).start,
                self.start as int == i,
                toks_views(self.tokens@) == tv0,
                self.errors@ == ev0,
                self.tokens == old(self).tokens,
                self.errors == old(self).errors,
                i + 1 <= self.current as int <= src.len(),
                i < src.len(),
                src[i] == '"',
                line0 == line_open as int,
                1 <= line0 <= i + 2,
                string_close(src, i + 1) == string_close(src, self.current as int),
                self.line as int == line0 + newlines(src, i + 1, self.current as int),
            ensures
                self.current as int == src.len() || src[self.current as int] == '"',
            decreases src.len() - self.current,
        {
            if self.is_at_end() {
                break ;
            }
            if self.peek() == '"' {
                break ;
            }
            proof {
                lemma_newlines_bounds(src, i + 1, self.current as int);
                lemma_newlines_bounds(src, i + 1, self.current as int + 1);
                assert(string_close(src, self.current as int) == string_close(
                    src,
                    self.current as int + 1,
                ));
                assert(newlines(src, i + 1, self.current as int + 1) == newlines(
                    src,
                    i + 1,
                    self.current as int,
                ) + if src[self.current as int] == '\n' {
                    1int
                } else {
                    0int
                });
            }
            let c = self.advance();
            if c == '\n' {
                self.line = self.line + 1;
            }
        }
        proof {
            lemma_string_close(src, i + 1);
        }
        if self.is_at_end() {
            self.errors.push(
                LexError { kind: LexErrorKind::UnterminatedString, line: line_open },
            );
            proof {
                assert(string_close(src, self.current as int) == src.len() as int);
                assert(toks_views(self.tokens@) =~= tv0 + opt_tok_seq(
                    string_step(src, i, line0).token,
                ));
                assert(self.errors@ =~= ev0 + opt_err_seq(string_step(src, i, line0).error));
            }
        } else {
            let ghost close = self.current as int;
            proof {
                assert(string_close(src, close) == close);
            }
            let _ = self.advance();
            let source = self.source;
            let value = source.substring_char(self.start + 1, self.current - 1).to_owned();
            self.add_token_literal(TokenType::Str, Some(Literal::Str(value)));
            proof {
                let st = string_step(src, i, line0);
                assert(st.token matches Some(t) && toks_views(self.tokens@) =~= tv0 + opt_tok_seq(
                    st.token,
                ));
                assert(self.errors@ =~= ev0 + opt_err_seq(st.error));
            }
        }
    }

    /// Scan a number literal whose first digit sits just before the cursor:
    /// a maximal run of digits, then a fractional part only when a digit
    /// follows the point. The token carries the correctly rounded value of
    /// the matched text.
    fn number(&mut self)
        requires
            old(self).wf(),
            old(self).start + 1 == old(self).current,
            (old(self).start as int) < old(self).source@.len(),
            is_digit(old(self).source@[old(self).start as int]),
        ensures
            final(self).wf(),
            final(self).source == old(self).source,
            final(self).start == old(self).start,
            final(self).line == old(self).line,
            final(self).errors == old(self).errors,
            ({
                let st = number_step(
                    old(self).source@,
                    old(self).start as int,
                    old(self).line as int,
                );
                &&& final(self).current as int == st.next
                &&& toks_views(final(self).tokens@) =~= toks_views(old(self).tokens@)
                    + opt_tok_seq(st.token)
            }),
    {
        let ghost src = self.source@;
        let ghost i = self.start as int;
        loop
            invariant
                self.wf(),
                self.source == old(self).source,
                self.source@ == src,
                self.start == old(self).start,
                self.start as int == i,
                self.line == old(self).line,
                self.tokens == old(self).tokens,
                self.errors == old(self).errors,
                i + 1 <= self.current as int <= src.len(),
                digits_end(src, i + 1) == digits_end(src, self.current as int),
            ensures
                self.current as int == digits_end(src, i + 1),
            decreases src.len() - self.current,
        {
            if self.is_at_end() {
                break ;
            }
            let c = self.peek();
            if c < '0' || c > '9' {
                break ;
            }
            proof {
                assert(digits_end(src, self.current as int) == digits_end(
                    src,
                    self.current as int + 1,
                ));
            }
            let _ = self.advance();
        }
        let ghost whole_end = self.current as int;
        let mut has_fraction = false;
        if !self.is_at_end() {
            if self.peek() == '.' {
                let c2 = self.peek_next();
                if c2 >= '0' && c2 <= '9' {
                    has_fraction = true;
                }
            }
        }
        proof {
            assert(has_fraction == (whole_end < src.len() && src[whole_end] == '.' && whole_end + 1
                < src.len() && is_digit(src[whole_end + 1])));
        }
        if has_fraction {
            let _ = self.advance();
            loop
                invariant
                    self.wf(),
                    self.source == old(self).source,
                    self.source@ == src,
                    self.start == old(self).start,
                    self.start as int == i,
                    self.line == old(self).line,
                    self.tokens == old(self).tokens,
                    self.errors == old(self).errors,
                    whole_end + 1 <= self.current as int <= src.len(),
                    digits_end(src, whole_end + 1) == digits_end(src, self.current as int),
                ensures
                    self.current as int == digits_end(src, whole_end + 1),
                decreases src.len() - self.current,
            {
                if self.is_at_end() {
                    break ;
                }
                let c = self.peek();
                if c < '0' || c > '9' {
                    break ;
                }
                proof {
                    assert(digits_end(src, self.current as int) == digits_end(
                        src,
                        self.current as int + 1,
                    ));
                }
                let _ = self.advance();
            }
        }
        let ghost end = self.current as int;
        let ghost lexeme = src.subrange(i, end);
        proof {
            lemma_digits_end(src, i + 1);
            if has_fraction {
                lemma_digits_end(src, whole_end + 2);
                assert(digits_end(src, whole_end + 1) == digits_end(src, whole_end + 2));
                let k = whole_end - i;
                assert(lexeme[k] == '.');
                assert(all_digits(lexeme.subrange(0, k))) by {
                    assert forall|m: int| 0 <= m < k implies is_digit(
                        #[trigger] lexeme.subrange(0, k)[m],
                    ) by {
                        assert(lexeme.subrange(0, k)[m] == src[i + m]);
                    }
                }
                assert(all_digits(lexeme.subrange(k + 1, lexeme.len() as int))) by {
                    assert forall|m: int|
                        0 <= m < lexeme.len() - k - 1 implies is_digit(
                        #[trigger] lexeme.subrange(k + 1, lexeme.len() as int)[m],
                    ) by {
                        assert(lexeme.subrange(k + 1, lexeme.len() as int)[m] == src[whole_end + 1
                            + m]);
                    }
                }
                assert(1 <= k < lexeme.len() - 1);
                assert(decimal_shaped(lexeme));
            } else {
                assert(all_digits(lexeme)) by {
                    assert forall|m: int| 0 <= m < lexeme.len() implies is_digit(
                        #[trigger] lexeme[m],
                    ) by {
                        assert(lexeme[m] == src[i + m]);
                    }
                }
                assert(lexeme.len() >= 1);
                assert(decimal_shaped(lexeme));
            }
        }
        let source = self.source;
        let text = source.substring_char(self.start, self.current);
        let bits = match num_from_decimal(text) {
            Some(b) => b,
            None => {
                proof {
                    assert(false);
                }
                0
            },
        };
        self.add_token_literal(TokenType::Number, Some(Literal::Number(bits)));
        proof {
            let st = number_step(src, i, old(self).line as int);
            assert(st.token matches Some(t) && toks_views(self.tokens@) =~= toks_views(
                old(self).tokens@,
            ) + opt_tok_seq(st.token));
        }
    }

    /// Scan an identifier or keyword whose first character sits just before
    /// the cursor: a maximal run of alphanumeric characters, looked up
    /// against the reserved-word table.
    fn identifier(&mut self)
        requires
            old(self).wf(),
            old(self).start + 1 == old(self).current,
            (old(self).start as int) < old(self).source@.len(),
        ensures
            final(self).wf(),
            final(self).source == old(self).source,
            final(self).start == old(self).start,
            final(self).line == old(self).line,
            final(self).errors == old(self).errors,
            ({
                let st = ident_step(
                    old(self).source@,
                    old(self).start as int,
                    old(self).line as int,
                );
                &&& final(self).current as int == st.next
                &&& toks_views(final(self).tokens@) =~= toks_views(old(self).tokens@)
                    + opt_tok_seq(st.token)
            }),
    {
        let ghost src = self.source@;
        let ghost i = self.start as int;
        loop
            invariant
                self.wf(),
                self.source == old(self).source,
                self.source@ == src,
                self.start == old(self).start,
                self.start as int == i,
                self.line == old(self).line,
                self.tokens == old(self).tokens,
                self.errors == old(self).errors,
                i + 1 <= self.current as int <= src.len(),
                alnum_end(src, i + 1) == alnum_end(src, self.current as int),
            ensures
                self.current as int == alnum_end(src, i + 1),
            decreases src.len() - self.current,
        {
            if self.is_at_end() {
                break ;
            }
            if !char_is_alphanumeric(self.peek()) {
                break ;
            }
            proof {
                assert(alnum_end(src, self.current as int) == alnum_end(
                    src,
                    self.current as int + 1,
                ));
            }
            let _ = self.advance();
        }
        let source = self.source;
        let text = source.substring_char(self.start, self.current);
        let token_type = keyword_or_identifier(text);
        self.add_token(token_type);
        proof {
            let st = ident_step(src, i, old(self).line as int);
            assert(st.token matches Some(t) && toks_views(self.tokens@) =~= toks_views(
                old(self).tokens@,
            ) + opt_tok_seq(st.token));
        }
    }
}

} // verus!

verus! {

impl<'a> Lexer<'a> {
    /// Read one token (or skip one blank, comment or newline) at the
    /// cursor, exactly as one `scan_step` of the spec scanner: classify the
    /// character just consumed, munch maximally, and record at most one
    /// token or one error.
    fn scan_token(&mut self)
        requires
            old(self).wf(),
            old(self).start == old(self).current,
            (old(self).current as int) < old(self).source@.len(),
        ensures
            final(self).wf(),
            final(self).source == old(self).source,
            ({
                let st = scan_step(
                    old(self).source@,
                    old(self).current as int,
                    old(self).line as int,
                );
                &&& final(self).current as int == st.next
                &&& final(self).line as int == st.line_after
                &&& toks_views(final(self).tokens@) =~= toks_views(old(self).tokens@)
                    + opt_tok_seq(st.token)
                &&& final(self).errors@ =~= old(self).errors@ + opt_err_seq(st.error)
            }),
    {
        let ghost src = self.source@;
        let ghost i = self.current as int;
        let ghost line0 = self.line as int;
        let c = self.advance();
        if c == '(' {
            self.add_token(TokenType::LeftParen);
        } else if c == ')' {
            self.add_token(TokenType::RightParen);
        } else if c == '{' {
            self.add_token(TokenType::LeftBrace);
        } else if c == '}' {
            self.add_token(TokenType::RightBrace);
        } else if c == ',' {
            self.add_token(TokenType::Comma);
        } else if c == '.' {
            self.add_token(TokenType::Dot);
        } else if c == '-' {
            self.add_token(TokenType::Minus);
        } else if c == '+' {
            self.add_token(TokenType::Plus);
        } else if c == ';' {
            self.add_token(TokenType::Semicolon);
        } else if c == '*' {
            self.add_token(TokenType::Star);
        } else if c == '!' {
            if self.matches('=') {
                self.add_token(TokenType::BangEqual);
            } else {
                self.add_token(TokenType::Bang);
            }
        } else if c == '=' {
            if self.matches('=') {
                self.add_token(TokenType::EqualEqual);
            } else {
                self.add_token(TokenType::Equal);
            }
        } else if c == '<' {
            if self.matches('=') {
                self.add_token(TokenType::LessEqual);
            } else {
                self.add_token(TokenType::Less);
            }
        } else if c == '>' {
            if self.matches('=') {
                self.add_token(TokenType::GreaterEqual);
            } else {
                self.add_token(TokenType::Greater);
            }
        } else if c == '/' {
            if self.matches('/') {
                loop
                    invariant
                        self.wf(),
                        self.source == old(self).source,
                        self.source@ == src,
                        self.start == old(self).start,
                        self.line == old(self).line,
                        self.tokens == old(self).tokens,
                        self.errors == old(self).errors,
                        i + 2 <= self.current as int <= src.len(),
                        comment_end(src, i + 2) == comment_end(src, self.current as int),
                    ensures
                        self.current as int == comment_end(src, i + 2),
                    decreases src.len() - self.current,
                {
                    if self.is_at_end() {
                        break ;
                    }
                    if self.peek() == '\n' {
                        break ;
                    }
                    proof {
                        assert(comment_end(src, self.current as int) == comment_end(
                            src,
                            self.current as int + 1,
                        ));
                    }
                    let _ = self.advance();
                }
            } else {
                self.add_token(TokenType::Slash);
            }
        } else if c == ' ' || c == '\r' || c == '\t' {
        } else if c == '\n' {
            self.line = self.line + 1;
        } else if c == '"' {
            self.string();
        } else if c >= '0' && c <= '9' {
            self.number();
        } else if char_is_alphabetic(c) || c == '_' {
            self.identifier();
        } else {
            self.errors.push(
                LexError { kind: LexErrorKind::UnexpectedCharacter(c), line: self.line },
            );
        }
        proof {
            let st = scan_step(src, i, line0);
            assert(toks_views(self.tokens@) =~= toks_views(old(self).tokens@) + opt_tok_seq(
                st.token,
            ));
            assert(self.errors@ =~= old(self).errors@ + opt_err_seq(st.error));
        }
    }

    /// Scan the whole text: repeatedly read one token until the end, then
    /// close the sequence with the end-marker token. The result is exactly
    /// the spec scan: the token sequence ends with exactly one end marker,
    /// and line numbers never decrease along it.
    pub fn scan_tokens(&mut self)
        requires
            old(self).wf(),
            old(self).current == 0,
            old(self).line == 1,
            old(self).tokens@.len() == 0,
            old(self).errors@.len() == 0,
        ensures
            final(self).source == old(self).source,
            toks_views(final(self).tokens@) == scan_all(old(self).source@, 0, 1).toks,
            final(self).errors@ == scan_all(old(self).source@, 0, 1).errs,
            final(self).tokens@.len() >= 1,
            final(self).tokens@.last()@.token_type == TokenType::Eof,
            forall|k: int|
                0 <= k < final(self).tokens@.len() - 1 ==> (#[trigger] final(self).tokens@[k])@.token_type
                    != TokenType::Eof,
            forall|j: int, k: int|
                0 <= j <= k < final(self).tokens@.len() ==> (#[trigger] final(self).tokens@[j])@.line
                    <= (#[trigger] final(self).tokens@[k])@.line,
    {
        let ghost src = self.source@;
        while !self.is_at_end()
            invariant
                self.wf(),
                self.source == old(self).source,
                self.source@ == src,
                scan_all(src, 0, 1).toks =~= toks_views(self.tokens@) + scan_all(
                    src,
                    self.current as int,
                    self.line as int,
                ).toks,
                scan_all(src, 0, 1).errs =~= self.errors@ + scan_all(
                    src,
                    self.current as int,
                    self.line as int,
                ).errs,
            decreases src.len() - self.current,
        {
            self.start = self.current;
            proof {
                lemma_scan_step_bounds(src, self.current as int, self.line as int);
            }
            self.scan_token();
        }
        let eof_line = self.line;
        self.tokens.push(Token::new(TokenType::Eof, "".to_owned(), None, eof_line));
        proof {
            assert(scan_all(src, 0, 1).toks =~= toks_views(self.tokens@));
            assert(scan_all(src, 0, 1).errs =~= self.errors@);
            lemma_scan_all_wf(src, 0, 1);
            assert(forall|k: int|
                0 <= k < self.tokens@.len() ==> (#[trigger] self.tokens@[k])@ == toks_views(
                    self.tokens@,
                )[k]);
        }
    }
}

} // verus!
