//! Syntax tree nodes that own their parts: a template is a list of text
//! nodes and block nodes, and a block node holds the statement of its block.
//! The tokens are those of the lexer that keeps lexemes.
use vstd::prelude::*;

use crate::lexer::lexemes::tokens::{Lexeme, Token};

verus! {

/// A node of the tree: text, a code block, or a statement.
pub enum Node {
    Text(TextNode),
    Block(BlockNode),
    Stmt(StmtNode),
}

/// Text outside code blocks.
pub struct TextNode {
    text: Token,
}

impl TextNode {
    pub closed spec fn text_token(&self) -> Token {
        self.text
    }

    pub fn new(text: Token) -> (node: TextNode)
        ensures
            node.text_token() == text,
    {
        TextNode { text }
    }

    pub fn text(&self) -> (r: &Token)
        ensures
            *r == self.text_token(),
    {
        &self.text
    }
}

/// A code block; its statement is set once it is read.
pub struct BlockNode {
    stmt: Option<StmtNode>,
}

impl BlockNode {
    pub closed spec fn statement(&self) -> Option<StmtNode> {
        self.stmt
    }

    pub fn new() -> (node: BlockNode)
        ensures
            node.statement() is None,
    {
        BlockNode { stmt: None }
    }

    pub fn set_stmt(&mut self, stmt: StmtNode)
        ensures
            final(self).statement() == Some(stmt),
    {
        self.stmt = Some(stmt);
    }

    pub fn stmt(&self) -> (r: &Option<StmtNode>)
        ensures
            *r == self.statement(),
    {
        &self.stmt
    }
}

/// A statement: its action, and the expression once it is read.
pub struct StmtNode {
    action: Token,
    expr: Option<Expression>,
}

impl StmtNode {
    pub closed spec fn action_token(&self) -> Token {
        self.action
    }

    pub closed spec fn expression(&self) -> Option<Expression> {
        self.expr
    }

    pub fn new(action: Token) -> (node: StmtNode)
        ensures
            node.action_token() == action,
            node.expression() is None,
    {
        StmtNode { action, expr: None }
    }

    pub fn action(&self) -> (r: &Token)
        ensures
            *r == self.action_token(),
    {
        &self.action
    }

    pub fn set_expr(&mut self, expr: Expression)
        ensures
            final(self).action_token() == old(self).action_token(),
            final(self).expression() == Some(expr),
    {
        self.expr = Some(expr);
    }

    pub fn expr(&self) -> (r: &Option<Expression>)
        ensures
            *r == self.expression(),
    {
        &self.expr
    }
}
/// An expression: a literal, or a reference to a value.
pub enum Expression {
    Literal(LiteralExpression),
    Reference(ReferenceExpression),
}

/// A string or number literal.
pub struct LiteralExpression {
    literal: Token,
}

impl LiteralExpression {
    pub closed spec fn literal_token(&self) -> Token {
        self.literal
    }

    pub fn new(literal: Token) -> (node: LiteralExpression)
        ensures
            node.literal_token() == literal,
    {
        LiteralExpression { literal }
    }

    pub fn literal(&self) -> (r: &Token)
        ensures
            *r == self.literal_token(),
    {
        &self.literal
    }
}

/// A label, and the reference to a field of its value, if any.
pub struct ReferenceExpression {
    reference: Token,
    child: Option<Box<ReferenceExpression>>,
}

impl ReferenceExpression {
    pub closed spec fn reference_token(&self) -> Token {
        self.reference
    }

    pub closed spec fn child_reference(&self) -> Option<Box<ReferenceExpression>> {
        self.child
    }

    pub fn new(reference: Token, child: Option<Box<ReferenceExpression>>) -> (node: ReferenceExpression)
        ensures
            node.reference_token() == reference,
            node.child_reference() == child,
    {
        ReferenceExpression { reference, child }
    }

    pub fn reference(&self) -> (r: &Token)
        ensures
            *r == self.reference_token(),
    {
        &self.reference
    }

    pub fn child(&self) -> (r: &Option<Box<ReferenceExpression>>)
        ensures
            *r == self.child_reference(),
    {
        &self.child
    }
}
// What the nodes hold, as plain values

/// What an expression holds: a literal, or the labels of a reference from
/// the outermost on.
pub enum ExprView {
    Literal(Lexeme),
    Reference(Seq<Lexeme>),
}

/// What a statement holds.
pub struct StmtView {
    pub action: Lexeme,
    pub expr: Option<ExprView>,
}

pub enum NodeView {
    Text(Lexeme),
    Block(Option<StmtView>),
    Stmt(StmtView),
}

impl ReferenceExpression {
    /// The labels of the reference, this one first.
    pub closed spec fn labels(&self) -> Seq<Lexeme>
        decreases self,
    {
        match self.child {
            Some(c) => seq![self.reference@] + c.labels(),
            None => seq![self.reference@],
        }
    }

    pub proof fn lemma_labels(&self)
        ensures
            self.labels().len() >= 1,
            self.labels()[0] == self.reference_token()@,
            self.child_reference() matches Some(c) ==> self.labels().drop_first() == c.labels(),
            self.child_reference() is None ==> self.labels().len() == 1,
    {
        match self.child {
            Some(c) => {
                assert(self.labels().drop_first() =~= c.labels());
            },
            None => {},
        }
    }
}

impl View for ReferenceExpression {
    type V = Seq<Lexeme>;

    open spec fn view(&self) -> Seq<Lexeme> {
        self.labels()
    }
}

impl View for LiteralExpression {
    type V = Lexeme;

    open spec fn view(&self) -> Lexeme {
        self.literal_token()@
    }
}

impl View for Expression {
    type V = ExprView;

    open spec fn view(&self) -> ExprView {
        match self {
            Expression::Literal(l) => ExprView::Literal(l@),
            Expression::Reference(r) => ExprView::Reference(r@),
        }
    }
}

impl View for StmtNode {
    type V = StmtView;

    open spec fn view(&self) -> StmtView {
        StmtView {
            action: self.action_token()@,
            expr: match self.expression() {
                Some(x) => Some(x@),
                None => None,
            },
        }
    }
}

impl View for BlockNode {
    type V = Option<StmtView>;

    open spec fn view(&self) -> Option<StmtView> {
        match self.statement() {
            Some(s) => Some(s@),
            None => None,
        }
    }
}

impl View for TextNode {
    type V = Lexeme;

    open spec fn view(&self) -> Lexeme {
        self.text_token()@
    }
}

impl View for Node {
    type V = NodeView;

    open spec fn view(&self) -> NodeView {
        match self {
            Node::Text(t) => NodeView::Text(t@),
            Node::Block(b) => NodeView::Block(b@),
            Node::Stmt(s) => NodeView::Stmt(s@),
        }
    }
}

} // verus!
