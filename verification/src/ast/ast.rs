use vstd::prelude::*;

use super::AstIndex;
use super::blocks::{Block, BlockView};
use super::expressions::{Expression, ExpressionView};
use super::patterns::{Pattern, PatternView};
use super::statements::{Statement, StatementView};
use super::transforms::{Transform, TransformView};

verus! {

/// Types whose values can be pushed onto the arena of an `Ast`.
pub trait Pushable<T> {
    fn push(&mut self, item: T) -> AstIndex;
}

/// A node of the arena, together with its own position.
pub enum AstElement {
    Block(AstIndex, Block),
    Statement(AstIndex, Statement),
    Expression(AstIndex, Expression),
    Transform(AstIndex, Transform),
    Pattern(AstIndex, Pattern),
}

pub enum ElementView {
    Block(AstIndex, BlockView),
    Statement(AstIndex, StatementView),
    Expression(AstIndex, ExpressionView),
    Transform(AstIndex, TransformView),
    Pattern(AstIndex, PatternView),
}

impl ElementView {
    pub open spec fn index(self) -> AstIndex {
        match self {
            ElementView::Block(i, _) => i,
            ElementView::Statement(i, _) => i,
            ElementView::Expression(i, _) => i,
            ElementView::Transform(i, _) => i,
            ElementView::Pattern(i, _) => i,
        }
    }
}

impl View for AstElement {
    type V = ElementView;

    open spec fn view(&self) -> ElementView {
        match self {
            AstElement::Block(i, b) => ElementView::Block(*i, b@),
            AstElement::Statement(i, s) => ElementView::Statement(*i, s@),
            AstElement::Expression(i, e) => ElementView::Expression(*i, e@),
            AstElement::Transform(i, t) => ElementView::Transform(*i, t@),
            AstElement::Pattern(i, p) => ElementView::Pattern(*i, p@),
        }
    }
}

impl AstElement {
    /// The position of the element in its arena.
    pub fn index(&self) -> (i: &AstIndex)
        ensures
            *i == self@.index(),
    {
        match self {
            AstElement::Block(index, _) => index,
            AstElement::Statement(index, _) => index,
            AstElement::Expression(index, _) => index,
            AstElement::Transform(index, _) => index,
            AstElement::Pattern(index, _) => index,
        }
    }
}

/// What an `Ast` holds: its arena and the index of its first block.
pub struct AstView {
    pub elements: Seq<ElementView>,
    pub head: Option<AstIndex>,
}

/// The next free position of an arena.
pub open spec fn next_index(elements: Seq<ElementView>) -> AstIndex {
    AstIndex(elements.len() as usize)
}

/// `later` keeps the nodes of `earlier`, in place, and its first block; it may
/// hold more nodes after them.
pub open spec fn grown(earlier: AstView, later: AstView) -> bool {
    &&& earlier.elements.len() <= later.elements.len()
    &&& later.elements.take(earlier.elements.len() as int) == earlier.elements
    &&& later.head == earlier.head
}

pub broadcast proof fn lemma_grown_refl(a: AstView)
    ensures
        #[trigger] grown(a, a),
{
    assert(a.elements.take(a.elements.len() as int) =~= a.elements);
}

pub broadcast proof fn lemma_grown_trans(a: AstView, b: AstView, c: AstView)
    requires
        grown(a, b),
        grown(b, c),
    ensures
        #![trigger grown(a, b), grown(b, c)]
        grown(a, c),
{
    assert(c.elements.take(a.elements.len() as int) =~= b.elements.take(a.elements.len() as int));
}

pub struct Ast {
    // The arena: every node of the tree, children before their parents
    tree: Vec<AstElement>,
    // The first block, which need not be the first element of the arena
    head: Option<AstIndex>,
}

impl View for Ast {
    type V = AstView;

    closed spec fn view(&self) -> AstView {
        AstView { elements: self.tree@.map_values(|e: AstElement| e@), head: self.head }
    }
}

impl Ast {
    pub fn new() -> (ast: Ast)
        ensures
            ast@ == (AstView { elements: Seq::empty(), head: None }),
    {
        let ast = Ast { tree: Vec::new(), head: None };
        assert(ast@.elements =~= Seq::<ElementView>::empty());
        ast
    }

    pub fn head(&self) -> (h: Option<AstIndex>)
        ensures
            h == self@.head,
    {
        self.head
    }

    /// Sets the first block; the head can be set only once.
    pub fn set_head(&mut self, index: AstIndex)
        requires
            old(self)@.head is None,
        ensures
            final(self)@ == (AstView { head: Some(index), ..old(self)@ }),
    {
        self.head = Some(index);
    }

    pub fn len(&self) -> (n: usize)
        ensures
            n == self@.elements.len(),
    {
        self.tree.len()
    }

    pub fn get(&self, index: AstIndex) -> (e: &AstElement)
        requires
            index.0 < self@.elements.len(),
        ensures
            e@ == self@.elements[index.0 as int],
    {
        &self.tree[index.0]
    }

    /// Replaces the element at `index`.
    pub fn set(&mut self, index: AstIndex, element: AstElement)
        requires
            index.0 < old(self)@.elements.len(),
        ensures
            final(self)@ == (AstView {
                elements: old(self)@.elements.update(index.0 as int, element@),
                ..old(self)@
            }),
    {
        self.tree.set(index.0, element);
        assert(self@.elements =~= old(self)@.elements.update(index.0 as int, element@));
    }

    /// Sets the block after the block at `index`.
    pub fn set_next(&mut self, index: AstIndex, next: AstIndex) -> (found: bool)
        requires
            index.0 < old(self)@.elements.len(),
        ensures
            found == (old(self)@.elements[index.0 as int] is Block),
            final(self)@ == if found {
                AstView {
                    elements: old(self)@.elements.update(
                        index.0 as int,
                        ElementView::Block(
                            old(self)@.elements[index.0 as int]->Block_0,
                            old(self)@.elements[index.0 as int]->Block_1.with_next(Some(next)),
                        ),
                    ),
                    ..old(self)@
                }
            } else {
                old(self)@
            },
    {
        let found = match &mut self.tree[index.0] {
            AstElement::Block(_, block) => {
                block.set_next(next);
                true
            },
            _ => false,
        };
        proof {
            let old_elements = old(self)@.elements;
            if found {
                assert(self@.elements =~= old_elements.update(
                    index.0 as int,
                    ElementView::Block(
                        old_elements[index.0 as int]->Block_0,
                        old_elements[index.0 as int]->Block_1.with_next(Some(next)),
                    ),
                ));
            } else {
                assert(self@.elements =~= old_elements);
            }
        }
        found
    }

    fn push_element(&mut self, element: AstElement) -> (index: AstIndex)
        requires
            element@.index() == next_index(old(self)@.elements),
        ensures
            index == next_index(old(self)@.elements),
            final(self)@ == (AstView { elements: old(self)@.elements.push(element@), ..old(self)@ }),
            grown(old(self)@, final(self)@),
    {
        let index = AstIndex(self.tree.len());
        self.tree.push(element);
        assert(self@.elements =~= old(self)@.elements.push(element@));
        assert(self@.elements.take(old(self)@.elements.len() as int) =~= old(self)@.elements);
        index
    }
}

impl Pushable<Block> for Ast {
    fn push(&mut self, block: Block) -> (index: AstIndex)
        ensures
            index == next_index(old(self)@.elements),
            final(self)@ == (AstView {
                elements: old(self)@.elements.push(ElementView::Block(index, block@)),
                ..old(self)@
            }),
            grown(old(self)@, final(self)@),
    {
        let index = AstIndex(self.tree.len());
        self.push_element(AstElement::Block(index, block))
    }
}

impl Pushable<Statement> for Ast {
    fn push(&mut self, statement: Statement) -> (index: AstIndex)
        ensures
            index == next_index(old(self)@.elements),
            final(self)@ == (AstView {
                elements: old(self)@.elements.push(ElementView::Statement(index, statement@)),
                ..old(self)@
            }),
            grown(old(self)@, final(self)@),
    {
        let index = AstIndex(self.tree.len());
        self.push_element(AstElement::Statement(index, statement))
    }
}

impl Pushable<Expression> for Ast {
    fn push(&mut self, expression: Expression) -> (index: AstIndex)
        ensures
            index == next_index(old(self)@.elements),
            final(self)@ == (AstView {
                elements: old(self)@.elements.push(ElementView::Expression(index, expression@)),
                ..old(self)@
            }),
            grown(old(self)@, final(self)@),
    {
        let index = AstIndex(self.tree.len());
        self.push_element(AstElement::Expression(index, expression))
    }
}

impl Pushable<Transform> for Ast {
    fn push(&mut self, transform: Transform) -> (index: AstIndex)
        ensures
            index == next_index(old(self)@.elements),
            final(self)@ == (AstView {
                elements: old(self)@.elements.push(ElementView::Transform(index, transform@)),
                ..old(self)@
            }),
            grown(old(self)@, final(self)@),
    {
        let index = AstIndex(self.tree.len());
        self.push_element(AstElement::Transform(index, transform))
    }
}

impl Pushable<Pattern> for Ast {
    fn push(&mut self, pattern: Pattern) -> (index: AstIndex)
        ensures
            index == next_index(old(self)@.elements),
            final(self)@ == (AstView {
                elements: old(self)@.elements.push(ElementView::Pattern(index, pattern@)),
                ..old(self)@
            }),
            grown(old(self)@, final(self)@),
    {
        let index = AstIndex(self.tree.len());
        self.push_element(AstElement::Pattern(index, pattern))
    }
}

} // verus!
