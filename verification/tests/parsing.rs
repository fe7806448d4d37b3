use glad::lexer::Lexer;
use glad::parser::{ParseError, ParseErrorKind, Parser};
use glad::stmt::Stmt;
use glad::token::TokenType;

fn parse(source: &str) -> (Vec<Stmt>, Vec<ParseError>) {
    let mut lexer = Lexer::new(source);
    lexer.scan_tokens();
    let mut parser = Parser::new(lexer.tokens);
    parser.parse()
}

fn only_expr_display(source: &str) -> String {
    let (stmts, errors) = parse(source);
    assert!(errors.is_empty(), "errors: {:?}", errors);
    assert_eq!(stmts.len(), 1);
    match &stmts[0] {
        Stmt::Expression(e) => e.to_display_string(),
        Stmt::Print { expression } => expression.to_display_string(),
    }
}

#[test]
fn precedence_factor_binds_tighter_than_term() {
    assert_eq!(only_expr_display("1 + 2 * 3;"), "(+ 1 (* 2 3))");
    assert_eq!(only_expr_display("(1 + 2) * 3;"), "(* (group (+ 1 2)) 3)");
}

#[test]
fn term_is_left_associative() {
    assert_eq!(only_expr_display("1 - 2 - 3;"), "(- (- 1 2) 3)");
}

#[test]
fn comparison_and_equality_levels() {
    assert_eq!(only_expr_display("1 < 2 == true;"), "(== (< 1 2) true)");
    assert_eq!(only_expr_display("1 + 2 >= 3;"), "(>= (+ 1 2) 3)");
}

#[test]
fn unary_is_right_associative() {
    assert_eq!(only_expr_display("!!true;"), "(! (! true))");
    assert_eq!(only_expr_display("--1;"), "(- (- 1))");
}

#[test]
fn print_statement_shape() {
    let (stmts, errors) = parse("print 1 + 2;");
    assert!(errors.is_empty());
    assert_eq!(stmts.len(), 1);
    assert!(matches!(stmts[0], Stmt::Print { .. }));
}

#[test]
fn missing_semicolon_is_reported() {
    let (stmts, errors) = parse("print 1");
    assert!(stmts.is_empty());
    assert_eq!(
        errors,
        vec![ParseError { kind: ParseErrorKind::Expected(TokenType::Semicolon), line: 1 }]
    );
}

#[test]
fn missing_right_paren_is_reported() {
    let (stmts, errors) = parse("(1 + 2;");
    assert!(stmts.is_empty());
    assert_eq!(
        errors,
        vec![ParseError { kind: ParseErrorKind::Expected(TokenType::RightParen), line: 1 }]
    );
}

#[test]
fn missing_expression_is_reported() {
    let (stmts, errors) = parse("+ 1;");
    assert!(stmts.is_empty());
    assert_eq!(
        errors,
        vec![ParseError { kind: ParseErrorKind::ExpectedExpression, line: 1 }]
    );
}

#[test]
fn error_recovery_keeps_the_valid_statement() {
    let (stmts, errors) = parse("1 + ;\nprint 2;");
    assert_eq!(errors.len(), 1);
    assert_eq!(errors[0].kind, ParseErrorKind::ExpectedExpression);
    assert_eq!(stmts.len(), 1);
    assert!(matches!(stmts[0], Stmt::Print { .. }));
}

#[test]
fn two_errors_two_recoveries() {
    let (stmts, errors) = parse("( 1;\n2 + ;\n3;");
    assert_eq!(errors.len(), 2);
    assert_eq!(stmts.len(), 1);
    assert!(matches!(stmts[0], Stmt::Expression(_)));
}

#[test]
fn several_statements_in_order() {
    let (stmts, errors) = parse("1; print 2; 3;");
    assert!(errors.is_empty());
    assert_eq!(stmts.len(), 3);
    assert!(matches!(stmts[0], Stmt::Expression(_)));
    assert!(matches!(stmts[1], Stmt::Print { .. }));
    assert!(matches!(stmts[2], Stmt::Expression(_)));
}
