//! The lexical vocabulary: token categories, the literal value union shared
//! by the scanner and the evaluator, and the token record itself.

use vstd::prelude::*;

use crate::number::{num_to_text, single_text};

verus! {

/// The closed set of lexical categories.
#[derive(Clone, Copy, Debug, PartialEq, Eq, Structural)]
pub enum TokenType {
    LeftParen,
    RightParen,
    LeftBrace,
    RightBrace,
    Comma,
    Dot,
    Minus,
    Plus,
    Semicolon,
    Slash,
    Star,
    Bang,
    BangEqual,
    Equal,
    EqualEqual,
    Greater,
    GreaterEqual,
    Less,
    LessEqual,
    Identifier,
    Str,
    Number,
    And,
    Class,
    Else,
    False,
    Fun,
    For,
    If,
    Nil,
    Or,
    Print,
    Return,
    Super,
    This,
    True,
    Var,
    While,
    Eof,
}

/// A constant appearing in source, and equally the value a statement
/// evaluates to: one union, used by both the scanner and the evaluator.
/// Numbers are IEEE-754 single-precision bit patterns (see `number`).
#[derive(Debug, PartialEq)]
pub enum Literal {
    Str(String),
    Number(u32),
    Bool(bool),
    Nil,
}

/// The mathematical value of a `Literal`: text as a sequence of characters.
pub enum LiteralView {
    Str(Seq<char>),
    Number(u32),
    Bool(bool),
    Nil,
}

impl View for Literal {
    type V = LiteralView;

    open spec fn view(&self) -> LiteralView {
        match self {
            Literal::Str(s) => LiteralView::Str(s@),
            Literal::Number(b) => LiteralView::Number(*b),
            Literal::Bool(b) => LiteralView::Bool(*b),
            Literal::Nil => LiteralView::Nil,
        }
    }
}

/// The printable form of a value: a string prints as its characters, a
/// number as its shortest decimal text, a boolean as `true` or `false`,
/// and nil as `nil`.
pub open spec fn lit_text(l: LiteralView) -> Seq<char> {
    match l {
        LiteralView::Str(s) => s,
        LiteralView::Number(b) => single_text(b),
        LiteralView::Bool(b) => if b {
            "true"@
        } else {
            "false"@
        },
        LiteralView::Nil => "nil"@,
    }
}

impl Literal {
    /// The printable form of this value.
    pub fn to_display_string(&self) -> (r: String)
        ensures
            r@ == lit_text(self@),
    {
        match self {
            Literal::Str(s) => s.clone(),
            Literal::Number(b) => num_to_text(*b),
            Literal::Bool(b) => if *b {
                "true".to_owned()
            } else {
                "false".to_owned()
            },
            Literal::Nil => "nil".to_owned(),
        }
    }
}

impl Clone for Literal {
    /// A clone carries the same value.
    fn clone(&self) -> (r: Self)
        ensures
            r@ == self@,
    {
        match self {
            Literal::Str(s) => Literal::Str(s.clone()),
            Literal::Number(b) => Literal::Number(*b),
            Literal::Bool(b) => Literal::Bool(*b),
            Literal::Nil => Literal::Nil,
        }
    }
}

/// The mathematical value of a `Token`.
pub struct TokenView {
    pub token_type: TokenType,
    pub lexeme: Seq<char>,
    pub literal: Option<LiteralView>,
    pub line: int,
}

/// An immutable token record: its category, the exact source substring it
/// was scanned from, its literal value (present only for string and number
/// tokens), and its 1-based source line, kept for diagnostics.
#[derive(Debug)]
pub struct Token {
    pub token_type: TokenType,
    pub lexeme: String,
    pub literal: Option<Literal>,
    pub line: usize,
}

impl View for Token {
    type V = TokenView;

    open spec fn view(&self) -> TokenView {
        TokenView {
            token_type: self.token_type,
            lexeme: self.lexeme@,
            literal: match &self.literal {
                Some(l) => Some(l@),
                None => None,
            },
            line: self.line as int,
        }
    }
}

impl Clone for Token {
    /// A clone carries the same value.
    fn clone(&self) -> (r: Self)
        ensures
            r@ == self@,
    {
        Token {
            token_type: self.token_type,
            lexeme: self.lexeme.clone(),
            literal: match &self.literal {
                Some(l) => Some(l.clone()),
                None => None,
            },
            line: self.line,
        }
    }
}

impl Token {
    pub fn new(token_type: TokenType, lexeme: String, literal: Option<Literal>, line: usize) -> (r:
        Token)
        ensures
            r@ == (TokenView {
                token_type,
                lexeme: lexeme@,
                literal: match literal {
                    Some(l) => Some(l@),
                    None => None,
                },
                line: line as int,
            }),
    {
        Token { token_type, lexeme, literal, line }
    }

    /// The exact source substring this token was scanned from.
    pub fn get_lexeme(&self) -> (r: String)
        ensures
            r@ == self@.lexeme,
    {
        self.lexeme.clone()
    }

    /// The 1-based source line the token was scanned on.
    pub fn get_line(&self) -> (r: usize)
        ensures
            r as int == self@.line,
    {
        self.line
    }
}

} // verus!

verus! {

/// The name of a token category, as it reads in diagnostics.
pub open spec fn tt_name(tt: TokenType) -> Seq<char> {
    match tt {
        TokenType::LeftParen => "LeftParen"@,
        TokenType::RightParen => "RightParen"@,
        TokenType::LeftBrace => "LeftBrace"@,
        TokenType::RightBrace => "RightBrace"@,
        TokenType::Comma => "Comma"@,
        TokenType::Dot => "Dot"@,
        TokenType::Minus => "Minus"@,
        TokenType::Plus => "Plus"@,
        TokenType::Semicolon => "Semicolon"@,
        TokenType::Slash => "Slash"@,
        TokenType::Star => "Star"@,
        TokenType::Bang => "Bang"@,
        TokenType::BangEqual => "BangEqual"@,
        TokenType::Equal => "Equal"@,
        TokenType::EqualEqual => "EqualEqual"@,
        TokenType::Greater => "Greater"@,
        TokenType::GreaterEqual => "GreaterEqual"@,
        TokenType::Less => "Less"@,
        TokenType::LessEqual => "LessEqual"@,
        TokenType::Identifier => "Identifier"@,
        TokenType::Str => "Str"@,
        TokenType::Number => "Number"@,
        TokenType::And => "And"@,
        TokenType::Class => "Class"@,
        TokenType::Else => "Else"@,
        TokenType::False => "False"@,
        TokenType::Fun => "Fun"@,
        TokenType::For => "For"@,
        TokenType::If => "If"@,
        TokenType::Nil => "Nil"@,
        TokenType::Or => "Or"@,
        TokenType::Print => "Print"@,
        TokenType::Return => "Return"@,
        TokenType::Super => "Super"@,
        TokenType::This => "This"@,
        TokenType::True => "True"@,
        TokenType::Var => "Var"@,
        TokenType::While => "While"@,
        TokenType::Eof => "Eof"@,
    }
}

impl TokenType {
    /// The name of this category, as it reads in diagnostics.
    pub fn name(&self) -> (r: &'static str)
        ensures
            r@ == tt_name(*self),
    {
        match self {
            TokenType::LeftParen => "LeftParen",
            TokenType::RightParen => "RightParen",
            TokenType::LeftBrace => "LeftBrace",
            TokenType::RightBrace => "RightBrace",
            TokenType::Comma => "Comma",
            TokenType::Dot => "Dot",
            TokenType::Minus => "Minus",
            TokenType::Plus => "Plus",
            TokenType::Semicolon => "Semicolon",
            TokenType::Slash => "Slash",
            TokenType::Star => "Star",
            TokenType::Bang => "Bang",
            TokenType::BangEqual => "BangEqual",
            TokenType::Equal => "Equal",
            TokenType::EqualEqual => "EqualEqual",
            TokenType::Greater => "Greater",
            TokenType::GreaterEqual => "GreaterEqual",
            TokenType::Less => "Less",
            TokenType::LessEqual => "LessEqual",
            TokenType::Identifier => "Identifier",
            TokenType::Str => "Str",
            TokenType::Number => "Number",
            TokenType::And => "And",
            TokenType::Class => "Class",
            TokenType::Else => "Else",
            TokenType::False => "False",
            TokenType::Fun => "Fun",
            TokenType::For => "For",
            TokenType::If => "If",
            TokenType::Nil => "Nil",
            TokenType::Or => "Or",
            TokenType::Print => "Print",
            TokenType::Return => "Return",
            TokenType::Super => "Super",
            TokenType::This => "This",
            TokenType::True => "True",
            TokenType::Var => "Var",
            TokenType::While => "While",
            TokenType::Eof => "Eof",
        }
    }
}

/// The diagnostic line of a token: its category name, its lexeme, and its
/// literal value where it carries one.
pub open spec fn token_text(t: TokenView) -> Seq<char> {
    tt_name(t.token_type) + " "@ + t.lexeme + match t.literal {
        Some(l) => " "@ + lit_text(l),
        None => Seq::empty(),
    }
}

impl Token {
    /// The diagnostic line of this token, exactly `token_text` of its value.
    pub fn to_display_string(&self) -> (r: String)
        ensures
            r@ == token_text(self@),
    {
        let mut s = self.token_type.name().to_owned();
        s.append(" ");
        s.append(self.lexeme.as_str());
        match &self.literal {
            Some(l) => {
                s.append(" ");
                let lt = l.to_display_string();
                s.append(lt.as_str());
            },
            None => {},
        }
        proof {
            assert(s@ =~= token_text(self@));
        }
        s
    }
}

} // verus!
