//! Tokens that keep the text they were read from.
use vstd::prelude::*;

use crate::common::Location;
use crate::tokens::{Action, Op};

verus! {

/// What kind of token a lexeme is.
#[derive(Debug, PartialEq, Eq, Clone, Copy, Structural)]
pub enum TokenKind {
    StringLiteral,
    NumberLiteral(usize),
    Label,
    Operator(Op),
    Action(Action),
}

/// A token: its kind, the text it was read from and where that text starts.
#[derive(Debug, PartialEq, Clone)]
pub struct Token {
    kind: TokenKind,
    lexeme: String,
    location: Location,
}

/// What a `Token` holds.
pub struct Lexeme {
    pub kind: TokenKind,
    pub text: Seq<char>,
    pub location: Location,
}

impl View for Token {
    type V = Lexeme;

    closed spec fn view(&self) -> Lexeme {
        Lexeme { kind: self.kind, text: self.lexeme@, location: self.location }
    }
}

impl Token {
    pub fn new(kind: TokenKind, lexeme: String, location: Location) -> (t: Token)
        ensures
            t@ == (Lexeme { kind, text: lexeme@, location }),
    {
        Token { kind, lexeme, location }
    }

    pub fn kind(&self) -> (k: &TokenKind)
        ensures
            *k == self@.kind,
    {
        &self.kind
    }

    /// The text the token was read from.
    pub fn lexeme(&self) -> (s: &str)
        ensures
            s@ == self@.text,
    {
        self.lexeme.as_str()
    }

    pub fn location(&self) -> (loc: Location)
        ensures
            loc == self@.location,
    {
        self.location
    }
}

} // verus!
