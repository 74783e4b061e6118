use vstd::prelude::*;

use crate::tokens::{Token, TokenView};
use super::AstIndex;

verus! {

/// A transformation applied with `|`: its name and its argument expressions.
#[derive(Debug)]
pub struct Transform(Token, Vec<AstIndex>);

pub struct TransformView {
    pub name: TokenView,
    pub arguments: Seq<AstIndex>,
}

impl View for Transform {
    type V = TransformView;

    closed spec fn view(&self) -> TransformView {
        TransformView { name: self.0@, arguments: self.1@ }
    }
}

impl Transform {
    pub fn new(label: Token, arguments: Vec<AstIndex>) -> (t: Transform)
        ensures
            t@ == (TransformView { name: label@, arguments: arguments@ }),
    {
        Transform(label, arguments)
    }

    /// The name and the number of arguments.
    pub fn signature(&self) -> (s: (&str, usize))
        requires
            self@.name is Label,
        ensures
            s.0@ == self@.name->Label_0,
            s.1 == self@.arguments.len(),
    {
        (self.name(), self.1.len())
    }

    pub fn has_arguments(&self) -> (b: bool)
        ensures
            b == (self@.arguments.len() != 0),
    {
        self.1.len() != 0
    }

    pub fn num_arguments(&self) -> (n: usize)
        ensures
            n == self@.arguments.len(),
    {
        self.1.len()
    }

    pub fn arguments(&self) -> (a: &Vec<AstIndex>)
        ensures
            a@ == self@.arguments,
    {
        &self.1
    }

    /// The token that names the transformation.
    pub fn label(&self) -> (t: &Token)
        ensures
            t@ == self@.name,
    {
        &self.0
    }

    /// The name of the transformation, which the parser always reads from a
    /// label.
    pub fn name(&self) -> (n: &str)
        requires
            self@.name is Label,
        ensures
            n@ == self@.name->Label_0,
    {
        match self.0.label() {
            Some(name) => name,
            None => {
                proof {
                    assert(false);
                }
                ""
            },
        }
    }
}

} // verus!
