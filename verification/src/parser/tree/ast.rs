//! A template as the list of its nodes, in order.
use vstd::prelude::*;

use super::nodes::Node;

verus! {

pub struct Ast {
    pub(crate) blocks: Vec<Node>,
}

impl Ast {
    /// The nodes of the template, in order.
    pub closed spec fn nodes(&self) -> Seq<Node> {
        self.blocks@
    }

    pub fn new() -> (ast: Ast)
        ensures
            ast.nodes() == Seq::<Node>::empty(),
    {
        Ast { blocks: Vec::new() }
    }

    pub fn blocks(&self) -> (r: &Vec<Node>)
        ensures
            r@ == self.nodes(),
    {
        &self.blocks
    }

    /// Appends a node after the others.
    pub fn push_block(&mut self, node: Node)
        ensures
            final(self).nodes() == old(self).nodes().push(node),
    {
        self.blocks.push(node);
    }
}

} // verus!
