//! The tree-walking evaluator: it reduces an expression to a value of the
//! literal union, checking operand types at each operator, and executes
//! statements in order, collecting the text a print statement emits.
//!
//! The whole semantics is the spec function `eval_expr`; every executable
//! entry point returns exactly its result. An operator token outside the
//! grammar is reported as a type mismatch on that operator, never a fault.

use vstd::prelude::*;
use vstd::string::StringExecFns;

use crate::expr::{Expr, ExprView};
use crate::number::{num_add, num_div, num_eq, num_le, num_lt, num_mul, num_neg, num_sub};
use crate::number::{single_add, single_div, single_eq, single_le, single_lt, single_mul,
    single_neg, single_sub};
use crate::stmt::{Stmt, StmtView};
use crate::token::{lit_text, Literal, LiteralView, Token, TokenType, TokenView};

verus! {

/// A fatal evaluation error: a type mismatch at an operator. It carries the
/// offending operator token, hence its source line, for diagnostics.
/// `InvalidOperand` names a unary operator, `InvalidOperands` a binary one.
#[derive(Debug)]
pub enum RuntimeError {
    InvalidOperand { operator: Token },
    InvalidOperands { operator: Token },
}

/// The mathematical value of a `RuntimeError`.
pub enum RuntimeErrorView {
    InvalidOperand { operator: TokenView },
    InvalidOperands { operator: TokenView },
}

impl View for RuntimeError {
    type V = RuntimeErrorView;

    open spec fn view(&self) -> RuntimeErrorView {
        match self {
            RuntimeError::InvalidOperand { operator } => RuntimeErrorView::InvalidOperand {
                operator: operator@,
            },
            RuntimeError::InvalidOperands { operator } => RuntimeErrorView::InvalidOperands {
                operator: operator@,
            },
        }
    }
}

/// Truthiness: nil is false, a boolean is itself, every other value is true.
pub open spec fn truthy(v: LiteralView) -> bool {
    match v {
        LiteralView::Nil => false,
        LiteralView::Bool(b) => b,
        _ => true,
    }
}

/// Structural equality of two values: equal only if both are the same
/// variant and, for non-nil, carry equal values. Numbers compare by IEEE-754
/// equality. A variant mismatch is false, never an error.
pub open spec fn lit_eq(l: LiteralView, r: LiteralView) -> bool {
    match (l, r) {
        (LiteralView::Number(a), LiteralView::Number(b)) => single_eq(a, b),
        (LiteralView::Str(a), LiteralView::Str(b)) => a == b,
        (LiteralView::Bool(a), LiteralView::Bool(b)) => a == b,
        (LiteralView::Nil, LiteralView::Nil) => true,
        _ => false,
    }
}

/// What a unary operator yields on an evaluated operand: `-` negates a
/// number and rejects anything else, `!` complements truthiness.
pub open spec fn eval_unary(operator: TokenView, v: LiteralView) -> Result<
    LiteralView,
    RuntimeErrorView,
> {
    match operator.token_type {
        TokenType::Minus => match v {
            LiteralView::Number(a) => Ok(LiteralView::Number(single_neg(a))),
            _ => Err(RuntimeErrorView::InvalidOperand { operator }),
        },
        TokenType::Bang => Ok(LiteralView::Bool(!truthy(v))),
        _ => Err(RuntimeErrorView::InvalidOperand { operator }),
    }
}

/// What a binary operator yields on two evaluated operands: arithmetic and
/// ordering demand two numbers, `+` concatenates when both sides are
/// strings, and `==` / `!=` compare any two values without erring.
pub open spec fn eval_binary(operator: TokenView, l: LiteralView, r: LiteralView) -> Result<
    LiteralView,
    RuntimeErrorView,
> {
    match operator.token_type {
        TokenType::Minus => match (l, r) {
            (LiteralView::Number(a), LiteralView::Number(b)) => Ok(
                LiteralView::Number(single_sub(a, b)),
            ),
            _ => Err(RuntimeErrorView::InvalidOperands { operator }),
        },
        TokenType::Slash => match (l, r) {
            (LiteralView::Number(a), LiteralView::Number(b)) => Ok(
                LiteralView::Number(single_div(a, b)),
            ),
            _ => Err(RuntimeErrorView::InvalidOperands { operator }),
        },
        TokenType::Star => match (l, r) {
            (LiteralView::Number(a), LiteralView::Number(b)) => Ok(
                LiteralView::Number(single_mul(a, b)),
            ),
            _ => Err(RuntimeErrorView::InvalidOperands { operator }),
        },
        TokenType::Plus => match (l, r) {
            (LiteralView::Number(a), LiteralView::Number(b)) => Ok(
                LiteralView::Number(single_add(a, b)),
            ),
            (LiteralView::Str(a), LiteralView::Str(b)) => Ok(LiteralView::Str(a + b)),
            _ => Err(RuntimeErrorView::InvalidOperands { operator }),
        },
        TokenType::Greater => match (l, r) {
            (LiteralView::Number(a), LiteralView::Number(b)) => Ok(
                LiteralView::Bool(single_lt(b, a)),
            ),
            _ => Err(RuntimeErrorView::InvalidOperands { operator }),
        },
        TokenType::GreaterEqual => match (l, r) {
            (LiteralView::Number(a), LiteralView::Number(b)) => Ok(
                LiteralView::Bool(single_le(b, a)),
            ),
            _ => Err(RuntimeErrorView::InvalidOperands { operator }),
        },
        TokenType::Less => match (l, r) {
            (LiteralView::Number(a), LiteralView::Number(b)) => Ok(
                LiteralView::Bool(single_lt(a, b)),
            ),
            _ => Err(RuntimeErrorView::InvalidOperands { operator }),
        },
        TokenType::LessEqual => match (l, r) {
            (LiteralView::Number(a), LiteralView::Number(b)) => Ok(
                LiteralView::Bool(single_le(a, b)),
            ),
            _ => Err(RuntimeErrorView::InvalidOperands { operator }),
        },
        TokenType::BangEqual => Ok(LiteralView::Bool(!lit_eq(l, r))),
        TokenType::EqualEqual => Ok(LiteralView::Bool(lit_eq(l, r))),
        _ => Err(RuntimeErrorView::InvalidOperands { operator }),
    }
}

/// The value an expression evaluates to, or the first runtime error met:
/// a literal is itself, a grouping is its inner expression, and operators
/// evaluate their operands first, the left one before the right one.
pub open spec fn eval_expr(e: ExprView) -> Result<LiteralView, RuntimeErrorView>
    decreases e,
{
    match e {
        ExprView::Literal { literal } => Ok(literal),
        ExprView::Grouping { expression } => eval_expr(*expression),
        ExprView::Unary { operator, right } => match eval_expr(*right) {
            Ok(v) => eval_unary(operator, v),
            Err(err) => Err(err),
        },
        ExprView::Binary { left, operator, right } => match eval_expr(*left) {
            Ok(lv) => match eval_expr(*right) {
                Ok(rv) => eval_binary(operator, lv, rv),
                Err(err) => Err(err),
            },
            Err(err) => Err(err),
        },
    }
}

/// What executing one statement yields: the printed text for a print
/// statement, nothing for an expression statement, or the runtime error its
/// expression raises.
pub open spec fn exec_stmt(s: StmtView) -> Result<Option<Seq<char>>, RuntimeErrorView> {
    match s {
        StmtView::Expression(e) => match eval_expr(e) {
            Ok(_) => Ok(None),
            Err(err) => Err(err),
        },
        StmtView::Print { expression } => match eval_expr(expression) {
            Ok(v) => Ok(Some(lit_text(v))),
            Err(err) => Err(err),
        },
    }
}

/// What running the statements from index `i` on yields: the texts printed
/// in order, and the first runtime error, at which execution stops. Texts
/// printed before the error are kept, not rolled back.
pub open spec fn run_from(ss: Seq<StmtView>, i: int) -> (Seq<Seq<char>>, Option<
    RuntimeErrorView,
>)
    decreases ss.len() - i,
{
    if i < 0 || i >= ss.len() {
        (Seq::empty(), None)
    } else {
        match exec_stmt(ss[i]) {
            Err(err) => (Seq::empty(), Some(err)),
            Ok(out) => {
                let rest = run_from(ss, i + 1);
                match out {
                    Some(t) => (seq![t] + rest.0, rest.1),
                    None => rest,
                }
            },
        }
    }
}

/// The view of an evaluation result.
pub open spec fn res_view(r: Result<Literal, RuntimeError>) -> Result<
    LiteralView,
    RuntimeErrorView,
> {
    match r {
        Ok(v) => Ok(v@),
        Err(e) => Err(e@),
    }
}

/// The evaluator. It holds no state: each entry point is a function of its
/// arguments alone.
pub struct Interpreter {}

impl Interpreter {
    pub fn new() -> (r: Interpreter) {
        Interpreter {  }
    }

    /// Reduce an expression to a value or to the first runtime error met,
    /// exactly as `eval_expr` states.
    pub fn evaluate(&self, expr: &Expr) -> (r: Result<Literal, RuntimeError>)
        ensures
            res_view(r) == eval_expr(expr@),
        decreases expr,
    {
        match expr {
            Expr::Literal { literal } => Ok(literal.clone()),
            Expr::Grouping { expression } => self.evaluate(expression),
            Expr::Unary { operator, right } => {
                let v = match self.evaluate(right) {
                    Ok(v) => v,
                    Err(err) => {
                        return Err(err);
                    },
                };
                match operator.token_type {
                    TokenType::Minus => {
                        let a = match self.check_number_operand(operator, &v) {
                            Ok(a) => a,
                            Err(err) => {
                                return Err(err);
                            },
                        };
                        Ok(Literal::Number(num_neg(a)))
                    },
                    TokenType::Bang => Ok(Literal::Bool(!self.is_truthy(v))),
                    _ => Err(RuntimeError::InvalidOperand { operator: operator.clone() }),
                }
            },
            Expr::Binary { left, operator, right } => {
                let lv = match self.evaluate(left) {
                    Ok(v) => v,
                    Err(err) => {
                        return Err(err);
                    },
                };
                let rv = match self.evaluate(right) {
                    Ok(v) => v,
                    Err(err) => {
                        return Err(err);
                    },
                };
                match operator.token_type {
                    TokenType::Minus => {
                        let (a, b) = match self.check_number_operands(operator, &lv, &rv) {
                            Ok(p) => p,
                            Err(err) => {
                                return Err(err);
                            },
                        };
                        Ok(Literal::Number(num_sub(a, b)))
                    },
                    TokenType::Slash => {
                        let (a, b) = match self.check_number_operands(operator, &lv, &rv) {
                            Ok(p) => p,
                            Err(err) => {
                                return Err(err);
                            },
                        };
                        Ok(Literal::Number(num_div(a, b)))
                    },
                    TokenType::Star => {
                        let (a, b) = match self.check_number_operands(operator, &lv, &rv) {
                            Ok(p) => p,
                            Err(err) => {
                                return Err(err);
                            },
                        };
                        Ok(Literal::Number(num_mul(a, b)))
                    },
                    TokenType::Plus => {
                        match (lv, rv) {
                            (Literal::Number(a), Literal::Number(b)) => Ok(
                                Literal::Number(num_add(a, b)),
                            ),
                            (Literal::Str(a), Literal::Str(b)) => Ok(
                                Literal::Str(a.concat(b.as_str())),
                            ),
                            _ => Err(RuntimeError::InvalidOperands { operator: operator.clone() }),
                        }
                    },
                    TokenType::Greater => {
                        let (a, b) = match self.check_number_operands(operator, &lv, &rv) {
                            Ok(p) => p,
                            Err(err) => {
                                return Err(err);
                            },
                        };
                        Ok(Literal::Bool(num_lt(b, a)))
                    },
                    TokenType::GreaterEqual => {
                        let (a, b) = match self.check_number_operands(operator, &lv, &rv) {
                            Ok(p) => p,
                            Err(err) => {
                                return Err(err);
                            },
                        };
                        Ok(Literal::Bool(num_le(b, a)))
                    },
                    TokenType::Less => {
                        let (a, b) = match self.check_number_operands(operator, &lv, &rv) {
                            Ok(p) => p,
                            Err(err) => {
                                return Err(err);
                            },
                        };
                        Ok(Literal::Bool(num_lt(a, b)))
                    },
                    TokenType::LessEqual => {
                        let (a, b) = match self.check_number_operands(operator, &lv, &rv) {
                            Ok(p) => p,
                            Err(err) => {
                                return Err(err);
                            },
                        };
                        Ok(Literal::Bool(num_le(a, b)))
                    },
                    TokenType::BangEqual => Ok(Literal::Bool(!self.is_equal(&lv, &rv))),
                    TokenType::EqualEqual => Ok(Literal::Bool(self.is_equal(&lv, &rv))),
                    _ => Err(RuntimeError::InvalidOperands { operator: operator.clone() }),
                }
            },
        }
    }

    /// The operand of a numeric unary operator must be a number; anything
    /// else is an `InvalidOperand` error naming the operator.
    fn check_number_operand(&self, operator: &Token, a: &Literal) -> (r: Result<u32, RuntimeError>)
        ensures
            match a@ {
                LiteralView::Number(bits) => r == Ok::<u32, RuntimeError>(bits),
                _ => r matches Err(e) && e@ == (RuntimeErrorView::InvalidOperand {
                    operator: operator@,
                }),
            },
    {
        if let Literal::Number(bits) = a {
            return Ok(*bits);
        }
        Err(RuntimeError::InvalidOperand { operator: operator.clone() })
    }

    /// Both operands of an arithmetic or ordering operator must be numbers;
    /// anything else is an `InvalidOperands` error naming the operator.
    fn check_number_operands(&self, operator: &Token, a: &Literal, b: &Literal) -> (r: Result<
        (u32, u32),
        RuntimeError,
    >)
        ensures
            match (a@, b@) {
                (LiteralView::Number(x), LiteralView::Number(y)) => r == Ok::<
                    (u32, u32),
                    RuntimeError,
                >((x, y)),
                _ => r matches Err(e) && e@ == (RuntimeErrorView::InvalidOperands {
                    operator: operator@,
                }),
            },
    {
        if let Literal::Number(x) = a {
            if let Literal::Number(y) = b {
                return Ok((*x, *y));
            }
        }
        Err(RuntimeError::InvalidOperands { operator: operator.clone() })
    }

    /// Truthiness of a value, exactly as `truthy` states.
    pub fn is_truthy(&self, literal: Literal) -> (r: bool)
        ensures
            r == truthy(literal@),
    {
        match literal {
            Literal::Nil => false,
            Literal::Bool(b) => b,
            _ => true,
        }
    }

    /// Structural equality of two values, exactly as `lit_eq` states.
    pub fn is_equal(&self, left: &Literal, right: &Literal) -> (r: bool)
        ensures
            r == lit_eq(left@, right@),
    {
        match (left, right) {
            (Literal::Number(a), Literal::Number(b)) => num_eq(*a, *b),
            (Literal::Str(a), Literal::Str(b)) => *a == *b,
            (Literal::Bool(a), Literal::Bool(b)) => *a == *b,
            (Literal::Nil, Literal::Nil) => true,
            _ => false,
        }
    }

    /// Evaluate an expression and hand back the printable form of its value,
    /// or the runtime error it raises; the caller owns any actual output.
    pub fn interpret(&mut self, expr: &Expr) -> (r: Result<String, RuntimeError>)
        ensures
            (eval_expr(expr@) matches Ok(v) ==> r matches Ok(s) && s@ == lit_text(v)),
            (eval_expr(expr@) matches Err(e) ==> r matches Err(re) && re@ == e),
    {
        let value = match self.evaluate(expr) {
            Ok(v) => v,
            Err(err) => {
                return Err(err);
            },
        };
        Ok(value.to_display_string())
    }

    /// Execute one statement: a print statement yields the printable form of
    /// its value, an expression statement yields nothing, and a runtime
    /// error is passed up, exactly as `exec_stmt` states.
    pub fn execute(&self, stmt: &Stmt) -> (r: Result<Option<String>, RuntimeError>)
        ensures
            (exec_stmt(stmt@) matches Ok(out) ==> r matches Ok(o) && match (o, out) {
                (Some(s), Some(t)) => s@ == t,
                (None, None) => true,
                _ => false,
            }),
            (exec_stmt(stmt@) matches Err(e) ==> r matches Err(re) && re@ == e),
    {
        match stmt {
            Stmt::Expression(e) => {
                match self.evaluate(e) {
                    Ok(_) => Ok(None),
                    Err(err) => Err(err),
                }
            },
            Stmt::Print { expression } => {
                match self.evaluate(expression) {
                    Ok(v) => Ok(Some(v.to_display_string())),
                    Err(err) => Err(err),
                }
            },
        }
    }

    /// Run the statements in order, stopping at the first runtime error:
    /// the texts printed before it are kept, exactly as `run_from` states.
    pub fn run(&self, statements: &Vec<Stmt>) -> (r: (Vec<String>, Option<RuntimeError>))
        ensures
            ({
                let spec_r = run_from(statements@.map_values(|s: Stmt| s@), 0);
                &&& r.0@.map_values(|s: String| s@) == spec_r.0
                &&& match (r.1, spec_r.1) {
                    (Some(e), Some(ev)) => e@ == ev,
                    (None, None) => true,
                    _ => false,
                }
            }),
    {
        let ghost ss = statements@.map_values(|s: Stmt| s@);
        let mut outputs: Vec<String> = Vec::new();
        let mut i: usize = 0;
        while i < statements.len()
            invariant
                0 <= i <= statements.len(),
                ss == statements@.map_values(|s: Stmt| s@),
                ss.len() == statements@.len(),
                run_from(ss, 0).0 == outputs@.map_values(|s: String| s@) + run_from(ss, i as int).0,
                run_from(ss, 0).1 == run_from(ss, i as int).1,
            decreases statements.len() - i,
        {
            assert(ss[i as int] == statements@[i as int]@);
            match self.execute(&statements[i]) {
                Ok(out) => {
                    if let Some(text) = out {
                        outputs.push(text);
                    }
                },
                Err(err) => {
                    proof {
                        assert(run_from(ss, 0).0 =~= outputs@.map_values(|s: String| s@));
                    }
                    return (outputs, Some(err));
                },
            }
            i = i + 1;
            proof {
                assert(run_from(ss, 0).0 =~= outputs@.map_values(|s: String| s@) + run_from(
                    ss,
                    i as int,
                ).0);
            }
        }
        proof {
            assert(run_from(ss, 0).0 =~= outputs@.map_values(|s: String| s@));
        }
        (outputs, None)
    }
}

/// Equality across types never errors: when both operands evaluate, `==`
/// yields whether their values are equal and `!=` its complement, whatever
/// the variants of the two values.
pub proof fn lemma_equality_never_errors(l: ExprView, operator: TokenView, r: ExprView)
    requires
        operator.token_type == TokenType::EqualEqual || operator.token_type
            == TokenType::BangEqual,
        eval_expr(l) is Ok,
        eval_expr(r) is Ok,
    ensures
        eval_expr(ExprView::Binary { left: Box::new(l), operator, right: Box::new(r) }) == Ok::<
            LiteralView,
            RuntimeErrorView,
        >(
            LiteralView::Bool(
                if operator.token_type == TokenType::EqualEqual {
                    lit_eq(eval_expr(l)->Ok_0, eval_expr(r)->Ok_0)
                } else {
                    !lit_eq(eval_expr(l)->Ok_0, eval_expr(r)->Ok_0)
                },
            ),
        ),
{
}

} // verus!
