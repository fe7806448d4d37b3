use glad::lexer::{LexError, LexErrorKind, Lexer};
use glad::token::{Literal, TokenType};

fn scan(source: &str) -> (Vec<glad::token::Token>, Vec<LexError>) {
    let mut lexer = Lexer::new(source);
    lexer.scan_tokens();
    (lexer.tokens, lexer.errors)
}

fn types(source: &str) -> Vec<TokenType> {
    scan(source).0.iter().map(|t| t.token_type).collect()
}

#[test]
fn a() {
    let mut lexer = Lexer::new("!");
    lexer.scan_tokens();
    assert_eq!(lexer.tokens.len(), 2);
    assert_eq!(lexer.tokens[0].token_type, TokenType::Bang);
    assert_eq!(lexer.tokens[1].token_type, TokenType::Eof);
}

#[test]
fn empty_source_yields_one_end_marker() {
    let (tokens, errors) = scan("");
    assert_eq!(tokens.len(), 1);
    assert_eq!(tokens[0].token_type, TokenType::Eof);
    assert!(errors.is_empty());
}

#[test]
fn ends_with_exactly_one_end_marker() {
    for source in ["", "((((", "print 1;", "\"open", "@#$", "// only a comment"] {
        let (tokens, _) = scan(source);
        assert_eq!(tokens.last().unwrap().token_type, TokenType::Eof);
        let eofs = tokens
            .iter()
            .filter(|t| t.token_type == TokenType::Eof)
            .count();
        assert_eq!(eofs, 1, "source {:?}", source);
    }
}

#[test]
fn line_numbers_never_decrease() {
    let (tokens, _) = scan("1\n2 3\n\n4 \"a\nb\" 5");
    let lines: Vec<usize> = tokens.iter().map(|t| t.get_line()).collect();
    for w in lines.windows(2) {
        assert!(w[0] <= w[1], "lines {:?}", lines);
    }
}

#[test]
fn punctuation_and_operators() {
    assert_eq!(
        types("(){},.-+;*/"),
        vec![
            TokenType::LeftParen,
            TokenType::RightParen,
            TokenType::LeftBrace,
            TokenType::RightBrace,
            TokenType::Comma,
            TokenType::Dot,
            TokenType::Minus,
            TokenType::Plus,
            TokenType::Semicolon,
            TokenType::Star,
            TokenType::Slash,
            TokenType::Eof,
        ]
    );
}

#[test]
fn maximal_munch_two_char_operators() {
    assert_eq!(
        types("!= == <= >= ! = < >"),
        vec![
            TokenType::BangEqual,
            TokenType::EqualEqual,
            TokenType::LessEqual,
            TokenType::GreaterEqual,
            TokenType::Bang,
            TokenType::Equal,
            TokenType::Less,
            TokenType::Greater,
            TokenType::Eof,
        ]
    );
}

#[test]
fn comments_produce_no_tokens() {
    assert_eq!(
        types("1 // the rest is ignored + 2\n3"),
        vec![TokenType::Number, TokenType::Number, TokenType::Eof]
    );
}

#[test]
fn string_literal_value_and_lexeme() {
    let (tokens, errors) = scan("\"hello\"");
    assert!(errors.is_empty());
    assert_eq!(tokens[0].token_type, TokenType::Str);
    assert_eq!(tokens[0].get_lexeme(), "\"hello\"");
    assert_eq!(tokens[0].literal, Some(Literal::Str("hello".to_owned())));
}

#[test]
fn string_with_embedded_newline_counts_lines() {
    let (tokens, errors) = scan("\"a\nb\" 1");
    assert!(errors.is_empty());
    assert_eq!(tokens[0].token_type, TokenType::Str);
    assert_eq!(tokens[0].literal, Some(Literal::Str("a\nb".to_owned())));
    assert_eq!(tokens[0].get_line(), 2);
    assert_eq!(tokens[1].get_line(), 2);
}

#[test]
fn unterminated_string_is_an_error_on_its_opening_line() {
    let (tokens, errors) = scan("1\n\"abc");
    assert_eq!(
        errors,
        vec![LexError { kind: LexErrorKind::UnterminatedString, line: 2 }]
    );
    assert_eq!(tokens.len(), 2);
    assert_eq!(tokens[1].token_type, TokenType::Eof);
}

#[test]
fn unexpected_character_is_recorded_and_scanning_goes_on() {
    let (tokens, errors) = scan("@ 1");
    assert_eq!(
        errors,
        vec![LexError { kind: LexErrorKind::UnexpectedCharacter('@'), line: 1 }]
    );
    assert_eq!(tokens[0].token_type, TokenType::Number);
    assert_eq!(tokens[1].token_type, TokenType::Eof);
}

#[test]
fn number_literals_parse_to_single_precision() {
    let (tokens, _) = scan("45.67 123 0 0.5");
    assert_eq!(tokens[0].literal, Some(Literal::Number(45.67f32.to_bits())));
    assert_eq!(tokens[1].literal, Some(Literal::Number(123.0f32.to_bits())));
    assert_eq!(tokens[2].literal, Some(Literal::Number(0.0f32.to_bits())));
    assert_eq!(tokens[3].literal, Some(Literal::Number(0.5f32.to_bits())));
}

#[test]
fn dot_without_following_digit_is_not_a_fraction() {
    let (tokens, _) = scan("1.");
    assert_eq!(tokens[0].token_type, TokenType::Number);
    assert_eq!(tokens[0].get_lexeme(), "1");
    assert_eq!(tokens[1].token_type, TokenType::Dot);
    let (tokens, _) = scan(".5");
    assert_eq!(tokens[0].token_type, TokenType::Dot);
    assert_eq!(tokens[1].token_type, TokenType::Number);
}

#[test]
fn keywords_and_identifiers() {
    assert_eq!(
        types("and class else false for fun if nil or print return super this true var while"),
        vec![
            TokenType::And,
            TokenType::Class,
            TokenType::Else,
            TokenType::False,
            TokenType::For,
            TokenType::Fun,
            TokenType::If,
            TokenType::Nil,
            TokenType::Or,
            TokenType::Print,
            TokenType::Return,
            TokenType::Super,
            TokenType::This,
            TokenType::True,
            TokenType::Var,
            TokenType::While,
            TokenType::Eof,
        ]
    );
    assert_eq!(
        types("printer _x x1"),
        vec![
            TokenType::Identifier,
            TokenType::Identifier,
            TokenType::Identifier,
            TokenType::Eof,
        ]
    );
}
