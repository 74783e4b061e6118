//! The abstract syntax tree of a template. All nodes live in one arena, the
//! `Ast`, and refer to each other by their position in it.
use vstd::prelude::*;

pub mod ast;
pub mod blocks;
pub mod expressions;
pub mod patterns;
pub mod statements;
pub mod transforms;
pub mod shape;

pub use ast::{Ast, AstElement, AstView, ElementView, Pushable};
pub use blocks::{Block, BlockView};
pub use expressions::{Expression, ExpressionView};
pub use patterns::{Pattern, PatternView};
pub use statements::{Statement, StatementView};
pub use transforms::{Transform, TransformView};

verus! {

/// The position of a node in the arena of an `Ast`.
#[derive(Debug, Clone, Copy, PartialEq, Eq, Structural)]
pub struct AstIndex(pub usize);

impl core::ops::Deref for AstIndex {
    type Target = usize;

    fn deref(&self) -> (r: &usize)
        ensures
            *r == self.0,
    {
        &self.0
    }
}

} // verus!

