use glad::interpreter::{Interpreter, RuntimeError};
use glad::lexer::Lexer;
use glad::parser::Parser;
use glad::stmt::Stmt;
use glad::token::Literal;

fn eval_expression(source: &str) -> Result<Literal, RuntimeError> {
    let mut lexer = Lexer::new(source);
    lexer.scan_tokens();
    assert!(lexer.errors.is_empty());
    let mut parser = Parser::new(lexer.tokens);
    let (stmts, errors) = parser.parse();
    assert!(errors.is_empty(), "syntax errors: {:?}", errors);
    assert_eq!(stmts.len(), 1);
    let interpreter = Interpreter::new();
    match &stmts[0] {
        Stmt::Expression(e) => interpreter.evaluate(e),
        Stmt::Print { expression } => interpreter.evaluate(expression),
    }
}

fn number(x: f32) -> Literal {
    Literal::Number(x.to_bits())
}

#[test]
fn precedence_gives_seven_and_nine() {
    assert_eq!(eval_expression("1 + 2 * 3;").unwrap(), number(7.0));
    assert_eq!(eval_expression("(1 + 2) * 3;").unwrap(), number(9.0));
}

#[test]
fn subtraction_is_left_associative() {
    assert_eq!(eval_expression("1 - 2 - 3;").unwrap(), number(-4.0));
}

#[test]
fn adding_bool_and_number_is_invalid_operands_naming_plus() {
    match eval_expression("true + 1;") {
        Err(RuntimeError::InvalidOperands { operator }) => {
            assert_eq!(operator.get_lexeme(), "+");
        },
        other => panic!("expected InvalidOperands, got {:?}", other),
    }
}

#[test]
fn negating_a_string_is_invalid_operand_naming_minus() {
    match eval_expression("-\"a\";") {
        Err(RuntimeError::InvalidOperand { operator }) => {
            assert_eq!(operator.get_lexeme(), "-");
        },
        other => panic!("expected InvalidOperand, got {:?}", other),
    }
}

#[test]
fn plus_concatenates_strings_and_adds_numbers() {
    assert_eq!(
        eval_expression("\"a\" + \"b\";").unwrap(),
        Literal::Str("ab".to_owned())
    );
    assert_eq!(eval_expression("1 + 2;").unwrap(), number(3.0));
    assert!(matches!(
        eval_expression("\"a\" + 1;"),
        Err(RuntimeError::InvalidOperands { .. })
    ));
}

#[test]
fn equality_across_types_never_errors() {
    assert_eq!(eval_expression("1 == \"1\";").unwrap(), Literal::Bool(false));
    assert_eq!(eval_expression("nil == nil;").unwrap(), Literal::Bool(true));
    assert_eq!(eval_expression("1 != \"1\";").unwrap(), Literal::Bool(true));
    assert_eq!(eval_expression("true == true;").unwrap(), Literal::Bool(true));
    assert_eq!(eval_expression("\"a\" == \"a\";").unwrap(), Literal::Bool(true));
    assert_eq!(eval_expression("nil == false;").unwrap(), Literal::Bool(false));
}

#[test]
fn comparisons_demand_numbers() {
    assert_eq!(eval_expression("2 < 3;").unwrap(), Literal::Bool(true));
    assert_eq!(eval_expression("2 <= 2;").unwrap(), Literal::Bool(true));
    assert_eq!(eval_expression("2 > 3;").unwrap(), Literal::Bool(false));
    assert_eq!(eval_expression("3 >= 3;").unwrap(), Literal::Bool(true));
    assert!(matches!(
        eval_expression("\"a\" < \"b\";"),
        Err(RuntimeError::InvalidOperands { .. })
    ));
}

#[test]
fn division_by_zero_follows_ieee_semantics() {
    assert_eq!(eval_expression("1 / 0;").unwrap(), number(f32::INFINITY));
    let nan = eval_expression("0 / 0;").unwrap();
    match nan {
        Literal::Number(bits) => assert!(f32::from_bits(bits).is_nan()),
        other => panic!("expected a number, got {:?}", other),
    }
}

#[test]
fn truthiness_under_bang() {
    assert_eq!(eval_expression("!nil;").unwrap(), Literal::Bool(true));
    assert_eq!(eval_expression("!false;").unwrap(), Literal::Bool(true));
    assert_eq!(eval_expression("!0;").unwrap(), Literal::Bool(false));
    assert_eq!(eval_expression("!\"\";").unwrap(), Literal::Bool(false));
}

#[test]
fn unary_minus_negates() {
    assert_eq!(eval_expression("-5;").unwrap(), number(-5.0));
    assert_eq!(eval_expression("--5;").unwrap(), number(5.0));
}

#[test]
fn is_truthy_and_is_equal_directly() {
    let i = Interpreter::new();
    assert!(!i.is_truthy(Literal::Nil));
    assert!(!i.is_truthy(Literal::Bool(false)));
    assert!(i.is_truthy(Literal::Bool(true)));
    assert!(i.is_truthy(number(0.0)));
    assert!(i.is_truthy(Literal::Str(String::new())));
    assert!(i.is_equal(&number(1.0), &number(1.0)));
    assert!(!i.is_equal(&number(1.0), &Literal::Str("1".to_owned())));
    assert!(i.is_equal(&Literal::Nil, &Literal::Nil));
    // IEEE equality, not bit equality: the two zeroes are equal.
    assert!(i.is_equal(&number(0.0), &number(-0.0)));
}

#[test]
fn interpret_yields_the_display_form() {
    let mut lexer = Lexer::new("1 + 2 * 3;");
    lexer.scan_tokens();
    let mut parser = Parser::new(lexer.tokens);
    let (stmts, _) = parser.parse();
    let mut interpreter = Interpreter::new();
    match &stmts[0] {
        Stmt::Expression(e) => assert_eq!(interpreter.interpret(e).unwrap(), "7"),
        _ => panic!("expected an expression statement"),
    }
}

#[test]
fn run_collects_prints_in_order() {
    let outcome = glad::run("print 1 + 2; 3; print \"a\" + \"b\";");
    assert!(outcome.lex_errors.is_empty());
    assert!(outcome.parse_errors.is_empty());
    assert!(outcome.runtime_error.is_none());
    assert_eq!(outcome.outputs, vec!["3".to_owned(), "ab".to_owned()]);
}

#[test]
fn run_stops_at_the_first_runtime_error_and_keeps_prior_prints() {
    let outcome = glad::run("print 1; print true + 1; print 2;");
    assert_eq!(outcome.outputs, vec!["1".to_owned()]);
    match outcome.runtime_error {
        Some(RuntimeError::InvalidOperands { operator }) => {
            assert_eq!(operator.get_lexeme(), "+");
            assert_eq!(operator.get_line(), 1);
        },
        other => panic!("expected InvalidOperands, got {:?}", other),
    }
}

#[test]
fn run_recovers_from_a_syntax_error_and_still_executes() {
    let outcome = glad::run("1 + ;\nprint 2;");
    assert_eq!(outcome.parse_errors.len(), 1);
    assert_eq!(outcome.outputs, vec!["2".to_owned()]);
    assert!(outcome.runtime_error.is_none());
}

#[test]
fn run_surfaces_lexical_errors_and_goes_on() {
    let outcome = glad::run("@ print 1;");
    assert_eq!(outcome.lex_errors.len(), 1);
    assert_eq!(outcome.outputs, vec!["1".to_owned()]);
}

#[test]
fn fractional_results_display_shortest() {
    let outcome = glad::run("print 7 / 2; print 45.67;");
    assert_eq!(outcome.outputs, vec!["3.5".to_owned(), "45.67".to_owned()]);
}
