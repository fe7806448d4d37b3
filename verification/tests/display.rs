use glad::expr::Expr;
use glad::token::{Literal, Token, TokenType};

#[test]
fn plus() {
    let expr = Expr::Binary {
        left: Box::new(Expr::Literal {
            literal: Literal::Number(1.0f32.to_bits()),
        }),
        operator: Token::new(TokenType::Plus, "+".to_owned(), None, 1),
        right: Box::new(Expr::Literal {
            literal: Literal::Number(2.0f32.to_bits()),
        }),
    };
    assert_eq!(expr.to_display_string(), "(+ 1 2)");
}

#[test]
fn minus() {
    let expr = Expr::Binary {
        left: Box::new(Expr::Unary {
            operator: Token::new(TokenType::Minus, "-".to_owned(), None, 1),
            right: Box::new(Expr::Literal {
                literal: Literal::Number(123.0f32.to_bits()),
            }),
        }),
        operator: Token::new(TokenType::Star, "*".to_owned(), None, 1),
        right: Box::new(Expr::Grouping {
            expression: Box::new(Expr::Literal {
                literal: Literal::Number(45.67f32.to_bits()),
            }),
        }),
    };
    assert_eq!(expr.to_display_string(), "(* (- 123) (group 45.67))");
}

#[test]
fn literal_displays() {
    assert_eq!(Literal::Str("hi".to_owned()).to_display_string(), "hi");
    assert_eq!(Literal::Number(7.0f32.to_bits()).to_display_string(), "7");
    assert_eq!(Literal::Number((-4.0f32).to_bits()).to_display_string(), "-4");
    assert_eq!(Literal::Number(3.5f32.to_bits()).to_display_string(), "3.5");
    assert_eq!(Literal::Bool(true).to_display_string(), "true");
    assert_eq!(Literal::Bool(false).to_display_string(), "false");
    assert_eq!(Literal::Nil.to_display_string(), "nil");
}

#[test]
fn token_display() {
    let t = Token::new(TokenType::Plus, "+".to_owned(), None, 1);
    assert_eq!(t.to_display_string(), "Plus +");
    let n = Token::new(
        TokenType::Number,
        "1".to_owned(),
        Some(Literal::Number(1.0f32.to_bits())),
        1,
    );
    assert_eq!(n.to_display_string(), "Number 1 1");
}

#[test]
fn nested_grouping_display() {
    let expr = Expr::Grouping {
        expression: Box::new(Expr::Literal { literal: Literal::Nil }),
    };
    assert_eq!(expr.to_display_string(), "(group nil)");
}

#[test]
fn token_accessors() {
    let t = Token::new(TokenType::Star, "*".to_owned(), None, 3);
    assert_eq!(t.get_lexeme(), "*");
    assert_eq!(t.get_line(), 3);
}
