use vstd::prelude::*;

use crate::tokens::{Token, TokenView};
use super::AstIndex;

verus! {

/// A block of a template: text, or a code block `{{ .. }}` that holds a
/// statement. Every block knows the block after it.
pub enum Block {
    /// Text(text, next block)
    Text(Token, Option<AstIndex>),
    /// A code block whose statement needs no closing block: let! and write!.
    CodeEnclosed(AstIndex, Option<AstIndex>),
    /// A code block that opens a scope: render!. The blocks of the scope are
    /// filled in by the semantic analysis.
    CodeUnclosed(AstIndex, Vec<AstIndex>, Option<AstIndex>),
    /// The closing block `{{!}}`.
    CodeClosing(AstIndex, Option<AstIndex>),
}

pub enum BlockView {
    Text(TokenView, Option<AstIndex>),
    CodeEnclosed(AstIndex, Option<AstIndex>),
    CodeUnclosed(AstIndex, Seq<AstIndex>, Option<AstIndex>),
    CodeClosing(AstIndex, Option<AstIndex>),
}

impl BlockView {
    pub open spec fn next(self) -> Option<AstIndex> {
        match self {
            BlockView::Text(_, n) => n,
            BlockView::CodeEnclosed(_, n) => n,
            BlockView::CodeUnclosed(_, _, n) => n,
            BlockView::CodeClosing(_, n) => n,
        }
    }

    pub open spec fn with_next(self, next: Option<AstIndex>) -> BlockView {
        match self {
            BlockView::Text(t, _) => BlockView::Text(t, next),
            BlockView::CodeEnclosed(s, _) => BlockView::CodeEnclosed(s, next),
            BlockView::CodeUnclosed(s, scope, _) => BlockView::CodeUnclosed(s, scope, next),
            BlockView::CodeClosing(s, _) => BlockView::CodeClosing(s, next),
        }
    }

    pub open spec fn stmt(self) -> Option<AstIndex> {
        match self {
            BlockView::Text(_, _) => None,
            BlockView::CodeEnclosed(s, _) => Some(s),
            BlockView::CodeUnclosed(s, _, _) => Some(s),
            BlockView::CodeClosing(s, _) => Some(s),
        }
    }

    pub open spec fn with_stmt(self, stmt: AstIndex) -> BlockView {
        match self {
            BlockView::Text(t, n) => BlockView::Text(t, n),
            BlockView::CodeEnclosed(_, n) => BlockView::CodeEnclosed(stmt, n),
            BlockView::CodeUnclosed(_, scope, n) => BlockView::CodeUnclosed(stmt, scope, n),
            BlockView::CodeClosing(_, n) => BlockView::CodeClosing(stmt, n),
        }
    }
}

impl View for Block {
    type V = BlockView;

    open spec fn view(&self) -> BlockView {
        match self {
            Block::Text(t, n) => BlockView::Text(t@, *n),
            Block::CodeEnclosed(s, n) => BlockView::CodeEnclosed(*s, *n),
            Block::CodeUnclosed(s, scope, n) => BlockView::CodeUnclosed(*s, scope@, *n),
            Block::CodeClosing(s, n) => BlockView::CodeClosing(*s, *n),
        }
    }
}

impl Block {
    /// The text of a text block.
    pub fn text(&self) -> (t: Option<&Token>)
        ensures
            self is Text ==> t is Some && t.unwrap() == self->Text_0,
            !(self is Text) ==> t is None,
    {
        match self {
            Block::Text(text, _) => Some(text),
            _ => None,
        }
    }

    /// The statement of a code block.
    pub fn stmt(&self) -> (s: Option<&AstIndex>)
        ensures
            s is Some <==> self@.stmt() is Some,
            s matches Some(i) ==> *i == self@.stmt().unwrap(),
    {
        match self {
            Block::CodeEnclosed(stmt, _) => Some(stmt),
            Block::CodeUnclosed(stmt, _, _) => Some(stmt),
            Block::CodeClosing(stmt, _) => Some(stmt),
            _ => None,
        }
    }

    /// Replaces the statement of a code block; a text block is left as it is.
    pub fn set_stmt(&mut self, statement: AstIndex)
        ensures
            final(self)@ == old(self)@.with_stmt(statement),
    {
        match self {
            Block::Text(_, _) => {},
            Block::CodeEnclosed(stmt, _) => *stmt = statement,
            Block::CodeUnclosed(stmt, _, _) => *stmt = statement,
            Block::CodeClosing(stmt, _) => *stmt = statement,
        }
    }

    /// The block after this one.
    pub fn next(&self) -> (n: &Option<AstIndex>)
        ensures
            *n == self@.next(),
    {
        match self {
            Block::Text(_, index) => index,
            Block::CodeEnclosed(_, index) => index,
            Block::CodeUnclosed(_, _, index) => index,
            Block::CodeClosing(_, index) => index,
        }
    }

    pub fn set_next(&mut self, index: AstIndex)
        ensures
            final(self)@ == old(self)@.with_next(Some(index)),
    {
        match self {
            Block::Text(_, idx) => *idx = Some(index),
            Block::CodeEnclosed(_, idx) => *idx = Some(index),
            Block::CodeUnclosed(_, _, idx) => *idx = Some(index),
            Block::CodeClosing(_, idx) => *idx = Some(index),
        }
    }
}

} // verus!
