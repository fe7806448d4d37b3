//! The recursive-descent parser: it turns the token sequence into a
//! sequence of statements, cascading through one function per precedence
//! level. A syntax error abandons the current statement, is recorded with
//! its line, and parsing resumes at the next statement boundary, so one bad
//! statement does not cost the rest.
//!
//! The spec parser below is the grammar written as functions over token
//! values. Each takes a recursion budget (`fuel`) so that it terminates on
//! every token sequence; the budget only pays for recursion, and
//! `lemma_parse_statement_sufficient` shows that a budget linear in the number of
//! remaining tokens is never exhausted, so the budget never shows through to
//! a caller of `parse`.

use vstd::prelude::*;

use crate::expr::{Expr, ExprView};
use crate::lexer::toks_views;
use crate::stmt::{Stmt, StmtView};
use crate::token::{Literal, Token, TokenType, TokenView};

verus! {

/// A syntax error kind: a required token that is missing (the closing
/// parenthesis after a grouping, the semicolon after a statement), or a
/// position where an expression was required and none stands.
#[derive(Clone, Copy, Debug, PartialEq, Eq, Structural)]
pub enum ParseErrorKind {
    Expected(TokenType),
    ExpectedExpression,
}

/// A syntax error with the 1-based line of the token it was found at.
#[derive(Clone, Copy, Debug, PartialEq, Eq, Structural)]
pub struct ParseError {
    pub kind: ParseErrorKind,
    pub line: usize,
}

/// A token sequence fit for parsing: what the scanner yields, ending with
/// the end-marker token.
pub open spec fn tokens_wf(ts: Seq<TokenView>) -> bool {
    ts.len() >= 1 && ts.last().token_type == TokenType::Eof
}

/// The outcome of parsing one expression from a position: the tree and the
/// position after it, or an error and the position it was found at, or an
/// exhausted recursion budget (which a sufficient budget never reaches).
pub enum ParsedExpr {
    Done { e: ExprView, next: int },
    Fail { err: ParseError, at: int },
    OutOfFuel,
}

/// The outcome of parsing one statement from a position.
pub enum ParsedStmt {
    Done { s: StmtView, next: int },
    Fail { err: ParseError, at: int },
    OutOfFuel,
}

/// The operators of one binary precedence level, outermost first: equality,
/// comparison, term, factor.
pub open spec fn level_op(level: int, tt: TokenType) -> bool {
    if level == 0 {
        tt == TokenType::BangEqual || tt == TokenType::EqualEqual
    } else if level == 1 {
        tt == TokenType::Greater || tt == TokenType::GreaterEqual || tt == TokenType::Less || tt
            == TokenType::LessEqual
    } else if level == 2 {
        tt == TokenType::Minus || tt == TokenType::Plus
    } else if level == 3 {
        tt == TokenType::Slash || tt == TokenType::Star
    } else {
        false
    }
}

/// The rank of a binary level in the termination order: outer levels stand
/// above the levels they delegate to.
pub open spec fn level_rank(level: int) -> int {
    if 0 <= level <= 4 {
        12 - 2 * level
    } else {
        4
    }
}

/// Parse one expression at binary precedence `level` (level 4 is the unary
/// level): parse one operand at the next level, then fold trailing
/// operator-operand pairs left-associatively.
pub open spec fn parse_binary(toks: Seq<TokenView>, i: int, level: int, fuel: int) -> ParsedExpr
    decreases fuel, level_rank(level), 1int,
{
    if fuel <= 0 {
        ParsedExpr::OutOfFuel
    } else if level >= 4 || level < 0 {
        parse_unary(toks, i, fuel)
    } else {
        match parse_binary(toks, i, level + 1, fuel) {
            ParsedExpr::Done { e, next } => parse_binary_tail(toks, next, level, e, fuel - 1),
            other => other,
        }
    }
}

/// Fold operators of one level: while the level's operator stands at the
/// cursor, parse the operand after it at the next level and fold it into a
/// binary node whose left side is everything parsed so far.
pub open spec fn parse_binary_tail(
    toks: Seq<TokenView>,
    i: int,
    level: int,
    left: ExprView,
    fuel: int,
) -> ParsedExpr
    decreases fuel, level_rank(level), 2int,
{
    if fuel <= 0 {
        ParsedExpr::OutOfFuel
    } else if 0 <= i < toks.len() && level_op(level, toks[i].token_type) && 0 <= level < 4 {
        match parse_binary(toks, i + 1, level + 1, fuel) {
            ParsedExpr::Done { e, next } => parse_binary_tail(
                toks,
                next,
                level,
                ExprView::Binary { left: Box::new(left), operator: toks[i], right: Box::new(e) },
                fuel - 1,
            ),
            other => other,
        }
    } else {
        ParsedExpr::Done { e: left, next: i }
    }
}

/// Parse a unary expression: `!` or `-` applied to a unary expression
/// (right-associative, by direct recursion), or a primary one.
pub open spec fn parse_unary(toks: Seq<TokenView>, i: int, fuel: int) -> ParsedExpr
    decreases fuel, 1int, 0int,
{
    if fuel <= 0 {
        ParsedExpr::OutOfFuel
    } else if 0 <= i < toks.len() && (toks[i].token_type == TokenType::Bang || toks[i].token_type
        == TokenType::Minus) {
        match parse_unary(toks, i + 1, fuel - 1) {
            ParsedExpr::Done { e, next } => ParsedExpr::Done {
                e: ExprView::Unary { operator: toks[i], right: Box::new(e) },
                next,
            },
            other => other,
        }
    } else {
        parse_primary(toks, i, fuel)
    }
}

/// Parse a primary expression: one literal token, or a parenthesized
/// sub-expression that must be closed by `)`. Anything else is a syntax
/// error where an expression was required.
pub open spec fn parse_primary(toks: Seq<TokenView>, i: int, fuel: int) -> ParsedExpr
    decreases fuel, 0int, 0int,
{
    if fuel <= 0 {
        ParsedExpr::OutOfFuel
    } else if !(0 <= i < toks.len()) {
        ParsedExpr::Fail { err: ParseError { kind: ParseErrorKind::ExpectedExpression, line: 0 }, at: i }
    } else {
        let t = toks[i];
        if t.token_type == TokenType::False {
            ParsedExpr::Done {
                e: ExprView::Literal { literal: crate::token::LiteralView::Bool(false) },
                next: i + 1,
            }
        } else if t.token_type == TokenType::True {
            ParsedExpr::Done {
                e: ExprView::Literal { literal: crate::token::LiteralView::Bool(true) },
                next: i + 1,
            }
        } else if t.token_type == TokenType::Nil {
            ParsedExpr::Done {
                e: ExprView::Literal { literal: crate::token::LiteralView::Nil },
                next: i + 1,
            }
        } else if t.token_type == TokenType::Number || t.token_type == TokenType::Str {
            match t.literal {
                Some(l) => ParsedExpr::Done { e: ExprView::Literal { literal: l }, next: i + 1 },
                None => ParsedExpr::Fail {
                    err: ParseError {
                        kind: ParseErrorKind::ExpectedExpression,
                        line: t.line as usize,
                    },
                    at: i,
                },
            }
        } else if t.token_type == TokenType::LeftParen {
            match parse_binary(toks, i + 1, 0, fuel - 1) {
                ParsedExpr::Done { e, next } => {
                    if next < toks.len() && toks[next].token_type == TokenType::RightParen {
                        ParsedExpr::Done {
                            e: ExprView::Grouping { expression: Box::new(e) },
                            next: next + 1,
                        }
                    } else {
                        ParsedExpr::Fail {
                            err: ParseError {
                                kind: ParseErrorKind::Expected(TokenType::RightParen),
                                line: if 0 <= next < toks.len() {
                                    toks[next].line as usize
                                } else {
                                    0
                                },
                            },
                            at: next,
                        }
                    }
                },
                other => other,
            }
        } else {
            ParsedExpr::Fail {
                err: ParseError { kind: ParseErrorKind::ExpectedExpression, line: t.line as usize },
                at: i,
            }
        }
    }
}

/// The body of a statement beginning at `i`: an expression, then the
/// required terminating semicolon; `print` says which statement the pair
/// forms.
pub open spec fn parse_stmt_body(toks: Seq<TokenView>, i: int, print: bool, fuel: int) -> ParsedStmt {
    match parse_binary(toks, i, 0, fuel) {
        ParsedExpr::Done { e, next } => {
            if next < toks.len() && toks[next].token_type == TokenType::Semicolon {
                ParsedStmt::Done {
                    s: if print {
                        StmtView::Print { expression: e }
                    } else {
                        StmtView::Expression(e)
                    },
                    next: next + 1,
                }
            } else {
                ParsedStmt::Fail {
                    err: ParseError {
                        kind: ParseErrorKind::Expected(TokenType::Semicolon),
                        line: if 0 <= next < toks.len() {
                            toks[next].line as usize
                        } else {
                            0
                        },
                    },
                    at: next,
                }
            }
        },
        ParsedExpr::Fail { err, at } => ParsedStmt::Fail { err, at },
        ParsedExpr::OutOfFuel => ParsedStmt::OutOfFuel,
    }
}

/// Parse one statement: `print` introduces a print statement, anything else
/// an expression statement; both require the terminating semicolon.
pub open spec fn parse_statement(toks: Seq<TokenView>, i: int, fuel: int) -> ParsedStmt {
    if fuel <= 0 {
        ParsedStmt::OutOfFuel
    } else if 0 <= i < toks.len() && toks[i].token_type == TokenType::Print {
        parse_stmt_body(toks, i + 1, true, fuel - 1)
    } else {
        parse_stmt_body(toks, i, false, fuel - 1)
    }
}

/// A token that begins a new statement: where synchronization may resume.
pub open spec fn stmt_boundary(tt: TokenType) -> bool {
    tt == TokenType::Class || tt == TokenType::Fun || tt == TokenType::Var || tt == TokenType::For
        || tt == TokenType::If || tt == TokenType::While || tt == TokenType::Print || tt
        == TokenType::Return
}

/// Walk forward from `j` until just after a semicolon, at a token that
/// begins a statement, or at the end marker.
pub open spec fn sync_scan(toks: Seq<TokenView>, j: int) -> int
    decreases toks.len() - j,
{
    if !(1 <= j < toks.len()) {
        j
    } else if toks[j].token_type == TokenType::Eof {
        j
    } else if toks[j - 1].token_type == TokenType::Semicolon {
        j
    } else if stmt_boundary(toks[j].token_type) {
        j
    } else {
        sync_scan(toks, j + 1)
    }
}

/// Synchronization after a syntax error at `at`: discard the offending
/// token (unless it is the end marker) and scan to the next statement
/// boundary, so that parsing can resume there.
pub open spec fn sync_from(toks: Seq<TokenView>, at: int) -> int {
    if 0 <= at < toks.len() && toks[at].token_type != TokenType::Eof {
        sync_scan(toks, at + 1)
    } else {
        at
    }
}

/// The recursion budget that suffices to parse one statement at `i`.
pub open spec fn stmt_fuel(n: int, i: int) -> int {
    6 * (n - i) + 8
}

/// The whole parse from position `i`: one statement per round until the end
/// marker, recording each syntax error and synchronizing past it, so the
/// statements present are exactly those parsed before and between errors.
pub open spec fn parse_program(toks: Seq<TokenView>, i: int) -> (Seq<StmtView>, Seq<ParseError>)
    decreases toks.len() - i,
    via parse_program_decreases
{
    if !(0 <= i < toks.len()) || toks[i].token_type == TokenType::Eof {
        (Seq::empty(), Seq::empty())
    } else {
        match parse_statement(toks, i, stmt_fuel(toks.len() as int, i)) {
            ParsedStmt::Done { s, next } => {
                let rest = parse_program(toks, next);
                (seq![s] + rest.0, rest.1)
            },
            ParsedStmt::Fail { err, at } => {
                let rest = parse_program(toks, sync_from(toks, at));
                (rest.0, seq![err] + rest.1)
            },
            ParsedStmt::OutOfFuel => (Seq::empty(), Seq::empty()),
        }
    }
}

#[via_fn]
proof fn parse_program_decreases(toks: Seq<TokenView>, i: int) {
    if 0 <= i < toks.len() && toks[i].token_type != TokenType::Eof {
        lemma_parse_statement_props(toks, i, stmt_fuel(toks.len() as int, i));
        if let ParsedStmt::Fail { err, at } = parse_statement(
            toks,
            i,
            stmt_fuel(toks.len() as int, i),
        ) {
            lemma_sync_bounds(toks, at);
        }
    }
}

/// Every parsed expression moves forward and stays within the tokens; every
/// error sits at or after where parsing began, within the tokens.
pub proof fn lemma_parse_binary_props(toks: Seq<TokenView>, i: int, level: int, fuel: int)
    ensures
        parse_binary(toks, i, level, fuel) matches ParsedExpr::Done { e, next } ==> i < next
            <= toks.len(),
        parse_binary(toks, i, level, fuel) matches ParsedExpr::Fail { err, at } ==> (i <= at && (i
            <= toks.len() ==> at <= toks.len())),
    decreases fuel, level_rank(level), 1int,
{
    if fuel <= 0 {
    } else if level >= 4 || level < 0 {
        lemma_parse_unary_props(toks, i, fuel);
    } else {
        lemma_parse_binary_props(toks, i, level + 1, fuel);
        if let ParsedExpr::Done { e, next } = parse_binary(toks, i, level + 1, fuel) {
            lemma_parse_binary_tail_props(toks, next, level, e, fuel - 1);
        }
    }
}

pub proof fn lemma_parse_binary_tail_props(
    toks: Seq<TokenView>,
    i: int,
    level: int,
    left: ExprView,
    fuel: int,
)
    ensures
        parse_binary_tail(toks, i, level, left, fuel) matches ParsedExpr::Done { e, next } ==> i
            <= next <= toks.len() || next == i,
        parse_binary_tail(toks, i, level, left, fuel) matches ParsedExpr::Fail { err, at } ==> (i
            <= at && (i <= toks.len() ==> at <= toks.len())),
    decreases fuel, level_rank(level), 2int,
{
    if fuel <= 0 {
    } else if 0 <= i < toks.len() && level_op(level, toks[i].token_type) && 0 <= level < 4 {
        lemma_parse_binary_props(toks, i + 1, level + 1, fuel);
        if let ParsedExpr::Done { e, next } = parse_binary(toks, i + 1, level + 1, fuel) {
            lemma_parse_binary_tail_props(
                toks,
                next,
                level,
                ExprView::Binary { left: Box::new(left), operator: toks[i], right: Box::new(e) },
                fuel - 1,
            );
        }
    }
}

pub proof fn lemma_parse_unary_props(toks: Seq<TokenView>, i: int, fuel: int)
    ensures
        parse_unary(toks, i, fuel) matches ParsedExpr::Done { e, next } ==> i < next <= toks.len(),
        parse_unary(toks, i, fuel) matches ParsedExpr::Fail { err, at } ==> (i <= at && (i
            <= toks.len() ==> at <= toks.len())),
    decreases fuel, 1int, 0int,
{
    if fuel <= 0 {
    } else if 0 <= i < toks.len() && (toks[i].token_type == TokenType::Bang || toks[i].token_type
        == TokenType::Minus) {
        lemma_parse_unary_props(toks, i + 1, fuel - 1);
    } else {
        lemma_parse_primary_props(toks, i, fuel);
    }
}

pub proof fn lemma_parse_primary_props(toks: Seq<TokenView>, i: int, fuel: int)
    ensures
        parse_primary(toks, i, fuel) matches ParsedExpr::Done { e, next } ==> i < next
            <= toks.len(),
        parse_primary(toks, i, fuel) matches ParsedExpr::Fail { err, at } ==> (i <= at && (i
            <= toks.len() ==> at <= toks.len())),
    decreases fuel, 0int, 0int,
{
    if fuel <= 0 {
    } else if 0 <= i < toks.len() && toks[i].token_type == TokenType::LeftParen {
        lemma_parse_binary_props(toks, i + 1, 0, fuel - 1);
    }
}

/// Every parsed statement moves forward and stays within the tokens.
pub proof fn lemma_parse_statement_props(toks: Seq<TokenView>, i: int, fuel: int)
    ensures
        parse_statement(toks, i, fuel) matches ParsedStmt::Done { s, next } ==> i < next
            <= toks.len(),
        parse_statement(toks, i, fuel) matches ParsedStmt::Fail { err, at } ==> (i <= at && (i
            <= toks.len() ==> at <= toks.len())),
{
    if fuel <= 0 {
    } else if 0 <= i < toks.len() && toks[i].token_type == TokenType::Print {
        lemma_parse_binary_props(toks, i + 1, 0, fuel - 1);
    } else {
        lemma_parse_binary_props(toks, i, 0, fuel - 1);
    }
}

/// Synchronization never walks backwards nor out of the tokens, and always
/// discards at least the offending token when one stands there.
pub proof fn lemma_sync_scan_bounds(toks: Seq<TokenView>, j: int)
    ensures
        sync_scan(toks, j) >= j,
        j <= toks.len() ==> sync_scan(toks, j) <= toks.len(),
    decreases toks.len() - j,
{
    if 1 <= j < toks.len() && toks[j].token_type != TokenType::Eof && toks[j - 1].token_type
        != TokenType::Semicolon && !stmt_boundary(toks[j].token_type) {
        lemma_sync_scan_bounds(toks, j + 1);
    }
}

pub proof fn lemma_sync_bounds(toks: Seq<TokenView>, at: int)
    ensures
        sync_from(toks, at) >= at,
        at <= toks.len() ==> sync_from(toks, at) <= toks.len(),
        (0 <= at < toks.len() && toks[at].token_type != TokenType::Eof) ==> at < sync_from(
            toks,
            at,
        ) <= toks.len(),
{
    if 0 <= at < toks.len() && toks[at].token_type != TokenType::Eof {
        lemma_sync_scan_bounds(toks, at + 1);
    }
}

/// A recursion budget linear in the number of remaining tokens is never
/// exhausted: with it, the spec parser always reaches a result.
pub proof fn lemma_parse_binary_sufficient(toks: Seq<TokenView>, i: int, level: int, fuel: int)
    requires
        i <= toks.len(),
        fuel >= 6 * (toks.len() - i) + 6,
    ensures
        !(parse_binary(toks, i, level, fuel) is OutOfFuel),
    decreases fuel, level_rank(level), 1int,
{
    if level >= 4 || level < 0 {
        lemma_parse_unary_sufficient(toks, i, fuel);
    } else {
        lemma_parse_binary_sufficient(toks, i, level + 1, fuel);
        if let ParsedExpr::Done { e, next } = parse_binary(toks, i, level + 1, fuel) {
            lemma_parse_binary_props(toks, i, level + 1, fuel);
            lemma_parse_binary_tail_sufficient(toks, next, level, e, fuel - 1);
        }
    }
}

pub proof fn lemma_parse_binary_tail_sufficient(
    toks: Seq<TokenView>,
    i: int,
    level: int,
    left: ExprView,
    fuel: int,
)
    requires
        i <= toks.len(),
        fuel >= 6 * (toks.len() - i) + 5,
    ensures
        !(parse_binary_tail(toks, i, level, left, fuel) is OutOfFuel),
    decreases fuel, level_rank(level), 2int,
{
    if 0 <= i < toks.len() && level_op(level, toks[i].token_type) && 0 <= level < 4 {
        lemma_parse_binary_sufficient(toks, i + 1, level + 1, fuel);
        if let ParsedExpr::Done { e, next } = parse_binary(toks, i + 1, level + 1, fuel) {
            lemma_parse_binary_props(toks, i + 1, level + 1, fuel);
            lemma_parse_binary_tail_sufficient(
                toks,
                next,
                level,
                ExprView::Binary { left: Box::new(left), operator: toks[i], right: Box::new(e) },
                fuel - 1,
            );
        }
    }
}

pub proof fn lemma_parse_unary_sufficient(toks: Seq<TokenView>, i: int, fuel: int)
    requires
        i <= toks.len(),
        fuel >= 6 * (toks.len() - i) + 6,
    ensures
        !(parse_unary(toks, i, fuel) is OutOfFuel),
    decreases fuel, 1int, 0int,
{
    if 0 <= i < toks.len() && (toks[i].token_type == TokenType::Bang || toks[i].token_type
        == TokenType::Minus) {
        lemma_parse_unary_sufficient(toks, i + 1, fuel - 1);
    } else {
        lemma_parse_primary_sufficient(toks, i, fuel);
    }
}

pub proof fn lemma_parse_primary_sufficient(toks: Seq<TokenView>, i: int, fuel: int)
    requires
        i <= toks.len(),
        fuel >= 6 * (toks.len() - i) + 6,
    ensures
        !(parse_primary(toks, i, fuel) is OutOfFuel),
    decreases fuel, 0int, 0int,
{
    if 0 <= i < toks.len() && toks[i].token_type == TokenType::LeftParen {
        lemma_parse_binary_sufficient(toks, i + 1, 0, fuel - 1);
    }
}

/// The statement budget `stmt_fuel` is always sufficient.
pub proof fn lemma_parse_statement_sufficient(toks: Seq<TokenView>, i: int)
    requires
        i <= toks.len(),
    ensures
        !(parse_statement(toks, i, stmt_fuel(toks.len() as int, i)) is OutOfFuel),
{
    let fuel = stmt_fuel(toks.len() as int, i);
    if 0 <= i < toks.len() && toks[i].token_type == TokenType::Print {
        lemma_parse_binary_sufficient(toks, i + 1, 0, fuel - 1);
    } else {
        lemma_parse_binary_sufficient(toks, i, 0, fuel - 1);
    }
}

} // verus!

verus! {

/// Whether a token type stands among the operators of a binary level.
fn token_in_level(level: usize, tt: TokenType) -> (r: bool)
    requires
        level <= 3,
    ensures
        r == level_op(level as int, tt),
{
    if level == 0 {
        tt == TokenType::BangEqual || tt == TokenType::EqualEqual
    } else if level == 1 {
        tt == TokenType::Greater || tt == TokenType::GreaterEqual || tt == TokenType::Less || tt
            == TokenType::LessEqual
    } else if level == 2 {
        tt == TokenType::Minus || tt == TokenType::Plus
    } else {
        tt == TokenType::Slash || tt == TokenType::Star
    }
}

/// The parser state: the token sequence it owns and the cursor into it.
pub struct Parser {
    pub tokens: Vec<Token>,
    pub current: usize,
}

impl Parser {
    /// The values of the tokens under the cursor.
    pub open spec fn toks(self) -> Seq<TokenView> {
        toks_views(self.tokens@)
    }

    /// The parser always holds a scanner-shaped token sequence (ending with
    /// the end marker) and a cursor inside it.
    pub open spec fn wf(self) -> bool {
        &&& tokens_wf(self.toks())
        &&& self.current < self.tokens@.len()
    }

    /// A parser over a token sequence as the scanner yields it: nonempty,
    /// ending with the end-marker token.
    pub fn new(tokens: Vec<Token>) -> (r: Parser)
        requires
            tokens@.len() >= 1,
            tokens@[tokens@.len() - 1]@.token_type == TokenType::Eof,
        ensures
            r.tokens == tokens,
            r.current == 0,
            r.wf(),
    {
        proof {
            assert(toks_views(tokens@).last() == tokens@[tokens@.len() - 1]@);
        }
        Parser { tokens, current: 0 }
    }

    /// Whether the cursor has reached the end marker.
    fn is_at_end(&self) -> (r: bool)
        requires
            self.wf(),
        ensures
            r == (self.toks()[self.current as int].token_type == TokenType::Eof),
    {
        self.peek().token_type == TokenType::Eof
    }

    /// The token at the cursor.
    fn peek(&self) -> (t: &Token)
        requires
            self.wf(),
        ensures
            t@ == self.toks()[self.current as int],
    {
        proof {
            assert(self.toks()[self.current as int] == self.tokens@[self.current as int]@);
        }
        &self.tokens[self.current]
    }

    /// A copy of the token at the cursor.
    fn peek_clone(&self) -> (t: Token)
        requires
            self.wf(),
        ensures
            t@ == self.toks()[self.current as int],
    {
        proof {
            assert(self.toks()[self.current as int] == self.tokens@[self.current as int]@);
        }
        self.tokens[self.current].clone()
    }

    /// The token just before the cursor.
    fn previous(&self) -> (t: &Token)
        requires
            self.wf(),
            self.current >= 1,
        ensures
            t@ == self.toks()[self.current as int - 1],
    {
        proof {
            assert(self.toks()[self.current as int - 1] == self.tokens@[self.current as int - 1]@);
        }
        &self.tokens[self.current - 1]
    }

    /// Move the cursor forward, except past the end marker.
    fn advance(&mut self)
        requires
            old(self).wf(),
        ensures
            final(self).wf(),
            final(self).tokens == old(self).tokens,
            if old(self).toks()[old(self).current as int].token_type == TokenType::Eof {
                final(self).current == old(self).current
            } else {
                final(self).current == old(self).current + 1
            },
    {
        if !self.is_at_end() {
            proof {
                assert(self.toks().last() == self.tokens@[self.tokens@.len() - 1]@);
            }
            let n = self.tokens.len();
            assert(self.current < n);
            self.current = self.current + 1;
        }
    }

    /// Whether the token at the cursor is of the given type; the end marker
    /// never counts.
    fn check(&self, token_type: TokenType) -> (r: bool)
        requires
            self.wf(),
        ensures
            r == (self.toks()[self.current as int].token_type == token_type && token_type
                != TokenType::Eof),
    {
        if self.is_at_end() {
            return false;
        }
        self.peek().token_type == token_type
    }

    /// Consume the token at the cursor when it is the required one; a
    /// missing required token is a syntax error on the cursor's line, and
    /// the cursor does not move.
    fn consume(&mut self, token_type: TokenType) -> (r: Result<(), ParseError>)
        requires
            old(self).wf(),
            token_type != TokenType::Eof,
        ensures
            final(self).wf(),
            final(self).tokens == old(self).tokens,
            if old(self).toks()[old(self).current as int].token_type == token_type {
                r is Ok && final(self).current == old(self).current + 1
            } else {
                r == Result::<(), ParseError>::Err(
                    ParseError {
                        kind: ParseErrorKind::Expected(token_type),
                        line: old(self).toks()[old(self).current as int].line as usize,
                    },
                ) && final(self).current == old(self).current
            },
    {
        if self.check(token_type) {
            self.advance();
            return Result::Ok(());
        }
        let line = self.peek().line;
        Result::Err(ParseError { kind: ParseErrorKind::Expected(token_type), line })
    }
}

} // verus!

verus! {

impl Parser {
    /// Parse one expression at a binary precedence level: one operand at
    /// the next level, then fold trailing operator-operand pairs into
    /// left-associative binary nodes, exactly as `parse_binary` states.
    fn parse_level(&mut self, level: usize, Ghost(fuel): Ghost<int>) -> (r: Result<
        Expr,
        ParseError,
    >)
        requires
            old(self).wf(),
            level <= 4,
            !(parse_binary(old(self).toks(), old(self).current as int, level as int, fuel)
                is OutOfFuel),
        ensures
            final(self).wf(),
            final(self).tokens == old(self).tokens,
            final(self).current >= old(self).current,
            match r {
                Result::Ok(e) => parse_binary(
                    old(self).toks(),
                    old(self).current as int,
                    level as int,
                    fuel,
                ) matches ParsedExpr::Done { e: ev, next } && e@ == ev && final(self).current as int
                    == next,
                Result::Err(pe) => parse_binary(
                    old(self).toks(),
                    old(self).current as int,
                    level as int,
                    fuel,
                ) matches ParsedExpr::Fail { err, at } && pe == err && final(self).current as int
                    == at,
            },
        decreases self.tokens@.len() - self.current, level_rank(level as int), 1int,
    {
        let ghost toks = old(self).toks();
        let ghost i0 = old(self).current as int;
        if level == 4 {
            return self.unary(Ghost(fuel));
        }
        proof {
            assert(!(parse_binary(toks, i0, level as int + 1, fuel) is OutOfFuel));
        }
        let left = match self.parse_level(level + 1, Ghost(fuel)) {
            Result::Ok(e) => e,
            Result::Err(pe) => {
                return Result::Err(pe);
            },
        };
        let ghost target = parse_binary_tail(
            toks,
            self.current as int,
            level as int,
            left@,
            fuel - 1,
        );
        proof {
            assert(parse_binary(toks, i0, level as int, fuel) == target);
            lemma_parse_binary_props(toks, i0, level as int + 1, fuel);
        }
        let ghost mut f = fuel - 1;
        let mut expr = left;
        loop
            invariant
                self.wf(),
                self.tokens == old(self).tokens,
                self.toks() == toks,
                old(self).toks() == toks,
                old(self).current as int == i0,
                level < 4,
                i0 < self.current as int,
                parse_binary(toks, i0, level as int, fuel) == target,
                parse_binary_tail(toks, self.current as int, level as int, expr@, f) == target,
                !(target is OutOfFuel),
            ensures
                self.wf(),
                self.tokens == old(self).tokens,
                i0 < self.current as int,
                parse_binary(toks, i0, level as int, fuel) == target,
                old(self).current as int == i0,
                old(self).toks() == toks,
                target matches ParsedExpr::Done { e: ev, next } && expr@ == ev
                    && self.current as int == next,
            decreases self.tokens@.len() - self.current,
        {
            let tt = self.peek().token_type;
            if !token_in_level(level, tt) {
                proof {
                    assert(parse_binary_tail(toks, self.current as int, level as int, expr@, f)
                        == (ParsedExpr::Done { e: expr@, next: self.current as int }));
                }
                break ;
            }
            let ghost cur = self.current as int;
            let operator = self.peek_clone();
            self.advance();
            proof {
                assert(!(parse_binary(toks, cur + 1, level as int + 1, f) is OutOfFuel));
            }
            let right = match self.parse_level(level + 1, Ghost(f)) {
                Result::Ok(e) => e,
                Result::Err(pe) => {
                    return Result::Err(pe);
                },
            };
            expr = Expr::Binary { left: Box::new(expr), operator, right: Box::new(right) };
            proof {
                f = f - 1;
            }
        }
        Result::Ok(expr)
    }

    /// Parse a unary expression: `!` or `-` applied by direct recursion, or
    /// a primary expression, exactly as `parse_unary` states.
    fn unary(&mut self, Ghost(fuel): Ghost<int>) -> (r: Result<Expr, ParseError>)
        requires
            old(self).wf(),
            !(parse_unary(old(self).toks(), old(self).current as int, fuel) is OutOfFuel),
        ensures
            final(self).wf(),
            final(self).tokens == old(self).tokens,
            final(self).current >= old(self).current,
            match r {
                Result::Ok(e) => parse_unary(old(self).toks(), old(self).current as int, fuel)
                    matches ParsedExpr::Done { e: ev, next } && e@ == ev && final(self).current as int
                    == next,
                Result::Err(pe) => parse_unary(old(self).toks(), old(self).current as int, fuel)
                    matches ParsedExpr::Fail { err, at } && pe == err && final(self).current as int
                    == at,
            },
        decreases self.tokens@.len() - self.current, 1int, 0int,
    {
        let ghost toks = old(self).toks();
        let ghost i0 = old(self).current as int;
        let tt = self.peek().token_type;
        if tt == TokenType::Bang || tt == TokenType::Minus {
            let operator = self.peek_clone();
            self.advance();
            proof {
                assert(!(parse_unary(toks, i0 + 1, fuel - 1) is OutOfFuel));
            }
            let right = match self.unary(Ghost(fuel - 1)) {
                Result::Ok(e) => e,
                Result::Err(pe) => {
                    return Result::Err(pe);
                },
            };
            Result::Ok(Expr::Unary { operator, right: Box::new(right) })
        } else {
            self.primary(Ghost(fuel))
        }
    }

    /// Parse a primary expression: one literal token, or a parenthesized
    /// sub-expression that must be closed by `)`, exactly as `parse_primary`
    /// states. Anything else is a syntax error where an expression was
    /// required.
    fn primary(&mut self, Ghost(fuel): Ghost<int>) -> (r: Result<Expr, ParseError>)
        requires
            old(self).wf(),
            !(parse_primary(old(self).toks(), old(self).current as int, fuel) is OutOfFuel),
        ensures
            final(self).wf(),
            final(self).tokens == old(self).tokens,
            final(self).current >= old(self).current,
            match r {
                Result::Ok(e) => parse_primary(old(self).toks(), old(self).current as int, fuel)
                    matches ParsedExpr::Done { e: ev, next } && e@ == ev && final(self).current as int
                    == next,
                Result::Err(pe) => parse_primary(old(self).toks(), old(self).current as int, fuel)
                    matches ParsedExpr::Fail { err, at } && pe == err && final(self).current as int
                    == at,
            },
        decreases self.tokens@.len() - self.current, 0int, 0int,
    {
        let ghost toks = old(self).toks();
        let ghost i0 = old(self).current as int;
        let tt = self.peek().token_type;
        if tt == TokenType::False {
            self.advance();
            return Result::Ok(Expr::Literal { literal: Literal::Bool(false) });
        }
        if tt == TokenType::True {
            self.advance();
            return Result::Ok(Expr::Literal { literal: Literal::Bool(true) });
        }
        if tt == TokenType::Nil {
            self.advance();
            return Result::Ok(Expr::Literal { literal: Literal::Nil });
        }
        if tt == TokenType::Number || tt == TokenType::Str {
            proof {
                assert(self.toks()[i0] == self.tokens@[i0]@);
            }
            let lit = match &self.tokens[self.current].literal {
                Some(l) => Some(l.clone()),
                None => None,
            };
            match lit {
                Some(l) => {
                    self.advance();
                    return Result::Ok(Expr::Literal { literal: l });
                },
                None => {
                    let line = self.peek().line;
                    return Result::Err(
                        ParseError { kind: ParseErrorKind::ExpectedExpression, line },
                    );
                },
            }
        }
        if tt == TokenType::LeftParen {
            self.advance();
            proof {
                assert(!(parse_binary(toks, i0 + 1, 0, fuel - 1) is OutOfFuel));
            }
            let e = match self.parse_level(0, Ghost(fuel - 1)) {
                Result::Ok(e) => e,
                Result::Err(pe) => {
                    return Result::Err(pe);
                },
            };
            match self.consume(TokenType::RightParen) {
                Result::Ok(u) => Result::Ok(Expr::Grouping { expression: Box::new(e) }),
                Result::Err(pe) => Result::Err(pe),
            }
        } else {
            let line = self.peek().line;
            Result::Err(ParseError { kind: ParseErrorKind::ExpectedExpression, line })
        }
    }
}

} // verus!

verus! {

impl Parser {
    /// Parse one expression (the lowest-precedence level).
    fn expression(&mut self, Ghost(fuel): Ghost<int>) -> (r: Result<Expr, ParseError>)
        requires
            old(self).wf(),
            !(parse_binary(old(self).toks(), old(self).current as int, 0, fuel) is OutOfFuel),
        ensures
            final(self).wf(),
            final(self).tokens == old(self).tokens,
            final(self).current >= old(self).current,
            match r {
                Result::Ok(e) => parse_binary(old(self).toks(), old(self).current as int, 0, fuel)
                    matches ParsedExpr::Done { e: ev, next } && e@ == ev && final(self).current as int
                    == next,
                Result::Err(pe) => parse_binary(old(self).toks(), old(self).current as int, 0, fuel)
                    matches ParsedExpr::Fail { err, at } && pe == err && final(self).current as int
                    == at,
            },
    {
        self.parse_level(0, Ghost(fuel))
    }

    /// Parse the body of a print statement, after its `print` keyword: the
    /// expression to print, then the required semicolon.
    fn print_statement(&mut self, Ghost(fuel): Ghost<int>) -> (r: Result<Stmt, ParseError>)
        requires
            old(self).wf(),
            !(parse_stmt_body(old(self).toks(), old(self).current as int, true, fuel)
                is OutOfFuel),
        ensures
            final(self).wf(),
            final(self).tokens == old(self).tokens,
            final(self).current >= old(self).current,
            match r {
                Result::Ok(s) => parse_stmt_body(
                    old(self).toks(),
                    old(self).current as int,
                    true,
                    fuel,
                ) matches ParsedStmt::Done { s: sv, next } && s@ == sv && final(self).current as int
                    == next,
                Result::Err(pe) => parse_stmt_body(
                    old(self).toks(),
                    old(self).current as int,
                    true,
                    fuel,
                ) matches ParsedStmt::Fail { err, at } && pe == err && final(self).current as int
                    == at,
            },
    {
        let value = match self.expression(Ghost(fuel)) {
            Result::Ok(e) => e,
            Result::Err(pe) => {
                return Result::Err(pe);
            },
        };
        match self.consume(TokenType::Semicolon) {
            Result::Ok(u) => Result::Ok(Stmt::Print { expression: value }),
            Result::Err(pe) => Result::Err(pe),
        }
    }

    /// Parse an expression statement: the expression, then the required
    /// semicolon; its value is discarded at execution.
    fn expression_statement(&mut self, Ghost(fuel): Ghost<int>) -> (r: Result<Stmt, ParseError>)
        requires
            old(self).wf(),
            !(parse_stmt_body(old(self).toks(), old(self).current as int, false, fuel)
                is OutOfFuel),
        ensures
            final(self).wf(),
            final(self).tokens == old(self).tokens,
            final(self).current >= old(self).current,
            match r {
                Result::Ok(s) => parse_stmt_body(
                    old(self).toks(),
                    old(self).current as int,
                    false,
                    fuel,
                ) matches ParsedStmt::Done { s: sv, next } && s@ == sv && final(self).current as int
                    == next,
                Result::Err(pe) => parse_stmt_body(
                    old(self).toks(),
                    old(self).current as int,
                    false,
                    fuel,
                ) matches ParsedStmt::Fail { err, at } && pe == err && final(self).current as int
                    == at,
            },
    {
        let expr = match self.expression(Ghost(fuel)) {
            Result::Ok(e) => e,
            Result::Err(pe) => {
                return Result::Err(pe);
            },
        };
        match self.consume(TokenType::Semicolon) {
            Result::Ok(u) => Result::Ok(Stmt::Expression(expr)),
            Result::Err(pe) => Result::Err(pe),
        }
    }

    /// Parse one statement: `print` introduces a print statement, anything
    /// else an expression statement, exactly as `parse_statement` states.
    fn statement(&mut self, Ghost(fuel): Ghost<int>) -> (r: Result<Stmt, ParseError>)
        requires
            old(self).wf(),
            !(parse_statement(old(self).toks(), old(self).current as int, fuel) is OutOfFuel),
        ensures
            final(self).wf(),
            final(self).tokens == old(self).tokens,
            final(self).current >= old(self).current,
            match r {
                Result::Ok(s) => parse_statement(
                    old(self).toks(),
                    old(self).current as int,
                    fuel,
                ) matches ParsedStmt::Done { s: sv, next } && s@ == sv && final(self).current as int
                    == next,
                Result::Err(pe) => parse_statement(
                    old(self).toks(),
                    old(self).current as int,
                    fuel,
                ) matches ParsedStmt::Fail { err, at } && pe == err && final(self).current as int
                    == at,
            },
    {
        if self.peek().token_type == TokenType::Print {
            self.advance();
            self.print_statement(Ghost(fuel - 1))
        } else {
            self.expression_statement(Ghost(fuel - 1))
        }
    }

    /// Discard tokens after a syntax error until just past a semicolon, at
    /// a token that begins a statement, or at the end marker, so that
    /// parsing can resume on the next statement.
    fn synchronise(&mut self)
        requires
            old(self).wf(),
        ensures
            final(self).wf(),
            final(self).tokens == old(self).tokens,
            final(self).current as int == sync_from(old(self).toks(), old(self).current as int),
            final(self).current >= old(self).current,
    {
        let ghost toks = old(self).toks();
        if self.is_at_end() {
            return ;
        }
        self.advance();
        let ghost j0 = self.current as int;
        loop
            invariant
                self.wf(),
                self.tokens == old(self).tokens,
                self.toks() == toks,
                1 <= j0 <= self.current as int,
                sync_scan(toks, j0) == sync_scan(toks, self.current as int),
            ensures
                self.wf(),
                self.tokens == old(self).tokens,
                self.current as int == sync_scan(toks, j0),
                j0 <= self.current as int,
            decreases self.tokens@.len() - self.current,
        {
            if self.is_at_end() {
                break ;
            }
            if self.previous().token_type == TokenType::Semicolon {
                break ;
            }
            let tt = self.peek().token_type;
            if tt == TokenType::Class || tt == TokenType::Fun || tt == TokenType::Var || tt
                == TokenType::For || tt == TokenType::If || tt == TokenType::While || tt
                == TokenType::Print || tt == TokenType::Return {
                break ;
            }
            proof {
                assert(sync_scan(toks, self.current as int) == sync_scan(
                    toks,
                    self.current as int + 1,
                ));
            }
            self.advance();
        }
    }

    /// Parse the whole token sequence: one statement per round until the
    /// end marker, exactly as `parse_program` states. A statement with a
    /// syntax error is dropped, its error is recorded, and parsing resumes
    /// at the next statement boundary, so the statements returned are
    /// exactly those parsed before and between errors.
    pub fn parse(&mut self) -> (r: (Vec<Stmt>, Vec<ParseError>))
        requires
            old(self).wf(),
            old(self).current == 0,
        ensures
            r.0@.map_values(|s: Stmt| s@) == parse_program(old(self).toks(), 0).0,
            r.1@ == parse_program(old(self).toks(), 0).1,
    {
        let ghost toks = old(self).toks();
        let mut statements: Vec<Stmt> = Vec::new();
        let mut errors: Vec<ParseError> = Vec::new();
        while !self.is_at_end()
            invariant
                self.wf(),
                self.tokens == old(self).tokens,
                self.toks() == toks,
                parse_program(toks, 0).0 =~= statements@.map_values(|s: Stmt| s@) + parse_program(
                    toks,
                    self.current as int,
                ).0,
                parse_program(toks, 0).1 =~= errors@ + parse_program(
                    toks,
                    self.current as int,
                ).1,
            decreases self.tokens@.len() - self.current,
        {
            let ghost cur = self.current as int;
            let ghost f = stmt_fuel(toks.len() as int, cur);
            proof {
                lemma_parse_statement_sufficient(toks, cur);
            }
            match self.statement(Ghost(f)) {
                Result::Ok(s) => {
                    statements.push(s);
                    proof {
                        lemma_parse_statement_props(toks, cur, f);
                    }
                },
                Result::Err(pe) => {
                    errors.push(pe);
                    proof {
                        lemma_parse_statement_props(toks, cur, f);
                        if let ParsedStmt::Fail { err, at } = parse_statement(toks, cur, f) {
                            lemma_sync_bounds(toks, at);
                        }
                    }
                    self.synchronise();
                },
            }
            proof {
                assert(parse_program(toks, 0).0 =~= statements@.map_values(|s: Stmt| s@)
                    + parse_program(toks, self.current as int).0);
                assert(parse_program(toks, 0).1 =~= errors@ + parse_program(
                    toks,
                    self.current as int,
                ).1);
            }
        }
        proof {
            assert(parse_program(toks, 0).0 =~= statements@.map_values(|s: Stmt| s@));
            assert(parse_program(toks, 0).1 =~= errors@);
        }
        (statements, errors)
    }
}

} // verus!

verus! {

/// Error recovery: when the statement at `i` has a syntax error, the whole
/// parse records that error and goes on exactly at the synchronization
/// point — and when a statement parses there, it is the first statement of
/// the result. One bad statement does not cost the rest.
pub proof fn lemma_parse_error_recovery(toks: Seq<TokenView>, i: int)
    requires
        0 <= i < toks.len(),
        toks[i].token_type != TokenType::Eof,
        parse_statement(toks, i, stmt_fuel(toks.len() as int, i)) is Fail,
    ensures
        ({
            let failed = parse_statement(toks, i, stmt_fuel(toks.len() as int, i));
            let j = sync_from(toks, failed->Fail_at);
            &&& parse_program(toks, i).1.len() >= 1
            &&& parse_program(toks, i).1[0] == failed->Fail_err
            &&& parse_program(toks, i).0 == parse_program(toks, j).0
            &&& ((0 <= j < toks.len() && toks[j].token_type != TokenType::Eof && parse_statement(
                toks,
                j,
                stmt_fuel(toks.len() as int, j),
            ) is Done) ==> parse_program(toks, i).0.len() >= 1 && parse_program(toks, i).0[0]
                == parse_statement(toks, j, stmt_fuel(toks.len() as int, j))->Done_s)
        }),
{
}

} // verus!
