use vstd::prelude::*;

use crate::tokens::{Token, TokenView};
use super::AstIndex;

verus! {

pub enum Expression {
    /// Literal(literal, transforms)
    Literal(Token, Vec<AstIndex>),
    /// Reference(dot separated labels, transforms)
    Reference(Vec<Token>, Vec<AstIndex>),
}

pub enum ExpressionView {
    Literal(TokenView, Seq<AstIndex>),
    Reference(Seq<TokenView>, Seq<AstIndex>),
}

impl View for Expression {
    type V = ExpressionView;

    open spec fn view(&self) -> ExpressionView {
        match self {
            Expression::Literal(l, ts) => ExpressionView::Literal(l@, ts@),
            Expression::Reference(rs, ts) => ExpressionView::Reference(
                rs@.map_values(|t: Token| t@),
                ts@,
            ),
        }
    }
}

} // verus!
