use vstd::prelude::*;

use crate::tokens::{Token, TokenView};
use super::AstIndex;

verus! {

/// The statement of a code block; the first token is its action.
pub enum Statement {
    /// The closing statement `{{!}}`.
    End(Token),
    /// Let(action, pattern, expression)
    Let(Token, AstIndex, AstIndex),
    /// Render(action, pattern, expression)
    Render(Token, AstIndex, AstIndex),
    /// Write(action, expression)
    Write(Token, AstIndex),
}

pub enum StatementView {
    End(TokenView),
    Let(TokenView, AstIndex, AstIndex),
    Render(TokenView, AstIndex, AstIndex),
    Write(TokenView, AstIndex),
}

impl View for Statement {
    type V = StatementView;

    open spec fn view(&self) -> StatementView {
        match self {
            Statement::End(a) => StatementView::End(a@),
            Statement::Let(a, p, e) => StatementView::Let(a@, *p, *e),
            Statement::Render(a, p, e) => StatementView::Render(a@, *p, *e),
            Statement::Write(a, e) => StatementView::Write(a@, *e),
        }
    }
}

} // verus!
