//! Parsing the tokens of the lexer that keeps lexemes: each token stands for
//! a token of the main lexer, which the parser reads.
use vstd::prelude::*;

use crate::lexer::lexemes::lexemes;
use crate::lexer::lexemes::tokens::{Lexeme, Token as LexemeToken, TokenKind};
use crate::lexer::views;
use crate::tokens::{Token, TokenView};
use super::Parser;

verus! {

/// The token that a lexeme stands for: its kind, with the text of its lexeme
/// where the kind carries text.
pub open spec fn token_of_lexeme(l: Lexeme) -> TokenView {
    match l.kind {
        TokenKind::StringLiteral => TokenView::StringLiteral(l.text, l.location),
        TokenKind::NumberLiteral(n) => TokenView::NumberLiteral(n, l.location),
        TokenKind::Label => TokenView::Label(l.text, l.location),
        TokenKind::Operator(op) => TokenView::Operator(op, l.location),
        TokenKind::Action(a) => TokenView::Action(a, l.location),
    }
}

pub fn token_from_lexeme(t: &LexemeToken) -> (r: Token)
    ensures
        r@ == token_of_lexeme(t@),
{
    let text = t.lexeme();
    let loc = t.location();
    match *t.kind() {
        TokenKind::StringLiteral => Token::StringLiteral(text.to_owned(), loc),
        TokenKind::NumberLiteral(n) => Token::NumberLiteral(n, loc),
        TokenKind::Label => Token::Label(text.to_owned(), loc),
        TokenKind::Operator(op) => Token::Operator(op, loc),
        TokenKind::Action(a) => Token::Action(a, loc),
    }
}

// A parser holds a vector, and no spec expression builds one; so `from`
// names no spec value, and says what it builds in its own `ensures`.
impl vstd::std_specs::convert::FromSpecImpl<Vec<LexemeToken>> for Parser {
    open spec fn obeys_from_spec() -> bool {
        false
    }

    open spec fn from_spec(v: Vec<LexemeToken>) -> Parser {
        arbitrary()
    }
}

impl From<Vec<LexemeToken>> for Parser {
    /// A parser over the tokens that the lexemes stand for.
    fn from(tokens: Vec<LexemeToken>) -> (parser: Parser)
        ensures
            parser@ == lexemes(tokens@).map_values(|l: Lexeme| token_of_lexeme(l)),
    {
        let mut converted: Vec<Token> = Vec::new();
        let mut i: usize = 0;
        while i < tokens.len()
            invariant
                i <= tokens.len(),
                views(converted@) == lexemes(tokens@).take(i as int).map_values(|l: Lexeme| token_of_lexeme(l)),
            decreases tokens.len() - i,
        {
            let t = token_from_lexeme(&tokens[i]);
            let ghost before = converted@;
            assert(lexemes(tokens@).len() == tokens@.len());
            assert(views(before).len() == before.len());
            assert(before.len() == i);
            converted.push(t);
            let ghost want = lexemes(tokens@).take(i + 1).map_values(|l: Lexeme| token_of_lexeme(l));
            assert forall|k: int| 0 <= k < i + 1 implies #[trigger] views(converted@)[k] == want[k] by {
                if k < i {
                    assert(converted@[k] == before[k]);
                    assert(views(before)[k] == lexemes(tokens@).take(i as int).map_values(|l: Lexeme| token_of_lexeme(l))[k]);
                }
            }
            assert(views(converted@) =~= want);
            i = i + 1;
        }
        assert(lexemes(tokens@).take(tokens.len() as int) == lexemes(tokens@));
        Parser::new(converted)
    }
}

} // verus!
