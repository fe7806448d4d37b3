//! Statements: an expression evaluated for its effect, or a print statement.

use vstd::prelude::*;

use crate::expr::{Expr, ExprView};

verus! {

/// A statement node; it owns its expression outright.
pub enum Stmt {
    Expression(Expr),
    Print { expression: Expr },
}

/// The mathematical value of a statement.
pub enum StmtView {
    Expression(ExprView),
    Print { expression: ExprView },
}

impl View for Stmt {
    type V = StmtView;

    open spec fn view(&self) -> StmtView {
        match self {
            Stmt::Expression(e) => StmtView::Expression(e@),
            Stmt::Print { expression } => StmtView::Print { expression: expression@ },
        }
    }
}

} // verus!
