//! The tokens that the lexer produces and the parser reads.
use vstd::prelude::*;

use crate::common::Location;

verus! {

/// A token together with the location of its first character.
#[derive(Debug, PartialEq, Clone)]
pub enum Token {
    StringLiteral(String, Location),
    NumberLiteral(usize, Location),
    Label(String, Location),
    Operator(Op, Location),
    Action(Action, Location),
}

/// What a token holds, with its text as a sequence of characters.
pub enum TokenView {
    StringLiteral(Seq<char>, Location),
    NumberLiteral(usize, Location),
    Label(Seq<char>, Location),
    Operator(Op, Location),
    Action(Action, Location),
}

impl View for Token {
    type V = TokenView;

    open spec fn view(&self) -> TokenView {
        match self {
            Token::StringLiteral(s, loc) => TokenView::StringLiteral(s@, *loc),
            Token::NumberLiteral(n, loc) => TokenView::NumberLiteral(*n, *loc),
            Token::Label(s, loc) => TokenView::Label(s@, *loc),
            Token::Operator(op, loc) => TokenView::Operator(*op, *loc),
            Token::Action(a, loc) => TokenView::Action(*a, *loc),
        }
    }
}

impl Token {
    /// The text of a label token; `None` for every other kind of token.
    pub fn label(&self) -> (l: Option<&str>)
        ensures
            self is Label ==> l is Some && l.unwrap()@ == self->Label_0@,
            !(self is Label) ==> l is None,
    {
        match self {
            Token::Label(label, _) => Some(label.as_str()),
            _ => None,
        }
    }

    /// The location of the token's first character.
    pub open spec fn location(&self) -> Location {
        match self {
            Token::StringLiteral(_, loc) => *loc,
            Token::NumberLiteral(_, loc) => *loc,
            Token::Label(_, loc) => *loc,
            Token::Operator(_, loc) => *loc,
            Token::Action(_, loc) => *loc,
        }
    }
}

/// The action that starts a statement: `!`, `let!`, `render!` or `write!`.
#[derive(Debug, PartialEq, Eq, Clone, Copy, Structural)]
pub enum Action {
    End,
    Let,
    Render,
    Write,
}

/// Operators recognised inside a code block.
#[derive(Debug, PartialEq, Eq, Clone, Copy, Structural)]
pub enum Op {
    And,
    Assign,
    BlockClose,
    BlockClosePrime,
    BlockOpen,
    BlockOpenPrime,
    ClosureOpen,
    ClosureClose,
    Comma,
    Dot,
    Each,
    Equality,
    Inequality,
    Or,
    ParenOpen,
    ParenClose,
    Pipe,
}

} // verus!
