//! Expression trees: literals, unary and binary applications, and
//! parenthesized groupings. Each node owns its children outright, so a tree
//! has no sharing and no cycles. Display renders the fully parenthesized
//! prefix form, e.g. `(* (- 123) (group 45.67))`.

use vstd::prelude::*;
use vstd::string::StringExecFns;

use crate::token::{lit_text, Literal, LiteralView, Token, TokenView};

verus! {

/// An expression node.
pub enum Expr {
    Unary { operator: Token, right: Box<Expr> },
    Binary { left: Box<Expr>, operator: Token, right: Box<Expr> },
    Grouping { expression: Box<Expr> },
    Literal { literal: Literal },
}

/// The mathematical value of an expression tree.
pub enum ExprView {
    Unary { operator: TokenView, right: Box<ExprView> },
    Binary { left: Box<ExprView>, operator: TokenView, right: Box<ExprView> },
    Grouping { expression: Box<ExprView> },
    Literal { literal: LiteralView },
}

/// The value of an expression node, children included.
pub open spec fn expr_view(e: &Expr) -> ExprView
    decreases e,
{
    match e {
        Expr::Unary { operator, right } => ExprView::Unary {
            operator: operator@,
            right: Box::new(expr_view(right)),
        },
        Expr::Binary { left, operator, right } => ExprView::Binary {
            left: Box::new(expr_view(left)),
            operator: operator@,
            right: Box::new(expr_view(right)),
        },
        Expr::Grouping { expression } => ExprView::Grouping {
            expression: Box::new(expr_view(expression)),
        },
        Expr::Literal { literal } => ExprView::Literal { literal: literal@ },
    }
}

impl View for Expr {
    type V = ExprView;

    open spec fn view(&self) -> ExprView {
        expr_view(self)
    }
}

/// The fully parenthesized prefix form of an expression: an application
/// prints as `(` operator, a space-separated operand list and `)`, a
/// grouping as `(group ...)`, and a literal as its printable value.
pub open spec fn expr_text(e: ExprView) -> Seq<char>
    decreases e,
{
    match e {
        ExprView::Unary { operator, right } => "("@ + operator.lexeme + " "@ + expr_text(*right)
            + ")"@,
        ExprView::Binary { left, operator, right } => "("@ + operator.lexeme + " "@ + expr_text(
            *left,
        ) + " "@ + expr_text(*right) + ")"@,
        ExprView::Grouping { expression } => "(group "@ + expr_text(*expression) + ")"@,
        ExprView::Literal { literal } => lit_text(literal),
    }
}

impl Expr {
    /// The fully parenthesized prefix form of this tree: for every
    /// expression, the returned text is exactly `expr_text` of its value.
    pub fn to_display_string(&self) -> (r: String)
        ensures
            r@ == expr_text(self@),
        decreases self,
    {
        match self {
            Expr::Unary { operator, right } => {
                let mut s = "(".to_owned();
                s.append(operator.lexeme.as_str());
                s.append(" ");
                let rs = right.to_display_string();
                s.append(rs.as_str());
                s.append(")");
                proof {
                    assert(s@ =~= expr_text(self@));
                }
                s
            },
            Expr::Binary { left, operator, right } => {
                let mut s = "(".to_owned();
                s.append(operator.lexeme.as_str());
                s.append(" ");
                let ls = left.to_display_string();
                s.append(ls.as_str());
                s.append(" ");
                let rs = right.to_display_string();
                s.append(rs.as_str());
                s.append(")");
                proof {
                    assert(s@ =~= expr_text(self@));
                }
                s
            },
            Expr::Grouping { expression } => {
                let mut s = "(group ".to_owned();
                let es = expression.to_display_string();
                s.append(es.as_str());
                s.append(")");
                proof {
                    assert(s@ =~= expr_text(self@));
                }
                s
            },
            Expr::Literal { literal } => literal.to_display_string(),
        }
    }
}

} // verus!
