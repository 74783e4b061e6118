use vstd::prelude::*;

use crate::tokens::{Token, TokenView};

verus! {

/// The left-hand side of a let! or render! statement.
pub enum Pattern {
    /// Decleration(labels)
    Decleration(Vec<Token>),
}

pub enum PatternView {
    Decleration(Seq<TokenView>),
}

impl View for Pattern {
    type V = PatternView;

    open spec fn view(&self) -> PatternView {
        match self {
            Pattern::Decleration(ds) => PatternView::Decleration(ds@.map_values(|t: Token| t@)),
        }
    }
}

} // verus!
