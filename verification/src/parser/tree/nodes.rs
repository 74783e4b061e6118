//! Syntax tree nodes that own their parts: a template is a list of text
//! nodes and block nodes; a block node holds a statement, a statement holds
//! expressions, and an expression the transformations piped onto it.
use vstd::prelude::*;

use crate::tokens::Token;

verus! {

/// A node of the tree: text or a code block.
pub enum Node {
    Text(TextNode),
    Block(BlockNode),
}

/// An expression: a literal, or a reference to a value.
pub enum Expression {
    Literal(LiteralExpression),
    Reference(ReferenceExpression),
}

/// What a let! statement binds: one name, or a tuple of names.
pub enum Pattern {
    Simple(SimplePattern),
    Tuple(TuplePattern),
}

/// A statement: an action with an optional expression, or a binding.
pub enum Stmt {
    Simple(SimpleStmt),
    Let(LetStmt),
}

/// Text outside code blocks.
pub struct TextNode {
    pub(crate) text: Token,
}

impl TextNode {
    pub closed spec fn text_token(&self) -> Token {
        self.text
    }

    pub fn new(text: Token) -> (node: TextNode)
        ensures
            node.text_token() == text,
    {
        TextNode { text }
    }

    pub fn text(&self) -> (r: &Token)
        ensures
            *r == self.text_token(),
    {
        &self.text
    }
}

/// A code block and its statement.
pub struct BlockNode {
    pub(crate) stmt: Stmt,
}

impl BlockNode {
    pub closed spec fn statement(&self) -> Stmt {
        self.stmt
    }

    pub fn new(stmt: Stmt) -> (node: BlockNode)
        ensures
            node.statement() == stmt,
    {
        BlockNode { stmt }
    }

    pub fn stmt(&self) -> (r: &Stmt)
        ensures
            *r == self.statement(),
    {
        &self.stmt
    }
}

/// A string or number literal and the transformations piped onto it.
pub struct LiteralExpression {
    pub(crate) literal: Token,
    pub(crate) pipe: Option<PipeSubExpression>,
}

impl LiteralExpression {
    pub closed spec fn literal_token(&self) -> Token {
        self.literal
    }

    pub closed spec fn pipe_expression(&self) -> Option<PipeSubExpression> {
        self.pipe
    }

    pub fn new(literal: Token, pipe: Option<PipeSubExpression>) -> (node: LiteralExpression)
        ensures
            node.literal_token() == literal,
            node.pipe_expression() == pipe,
    {
        LiteralExpression { literal, pipe }
    }

    pub fn literal(&self) -> (r: &Token)
        ensures
            *r == self.literal_token(),
    {
        &self.literal
    }

    pub fn pipe(&self) -> (r: &Option<PipeSubExpression>)
        ensures
            *r == self.pipe_expression(),
    {
        &self.pipe
    }
}

/// A label, and the reference to a field of its value, if any.
pub struct ReferenceExpression {
    pub(crate) reference: Token,
    pub(crate) child: Option<Box<ReferenceExpression>>,
}

impl ReferenceExpression {
    pub closed spec fn reference_token(&self) -> Token {
        self.reference
    }

    pub closed spec fn child_reference(&self) -> Option<Box<ReferenceExpression>> {
        self.child
    }

    pub fn new(reference: Token, child: Option<Box<ReferenceExpression>>) -> (node: ReferenceExpression)
        ensures
            node.reference_token() == reference,
            node.child_reference() == child,
    {
        ReferenceExpression { reference, child }
    }

    pub fn reference(&self) -> (r: &Token)
        ensures
            *r == self.reference_token(),
    {
        &self.reference
    }

    pub fn child(&self) -> (r: &Option<Box<ReferenceExpression>>)
        ensures
            *r == self.child_reference(),
    {
        &self.child
    }
}

/// A transformation call, and the next one in the pipe, if any.
pub struct PipeSubExpression {
    pub(crate) call: Call,
    pub(crate) next: Option<Box<PipeSubExpression>>,
}

impl PipeSubExpression {
    pub closed spec fn call_expression(&self) -> Call {
        self.call
    }

    pub closed spec fn next_pipe(&self) -> Option<Box<PipeSubExpression>> {
        self.next
    }

    pub fn new(call: Call, next: Option<Box<PipeSubExpression>>) -> (node: PipeSubExpression)
        ensures
            node.call_expression() == call,
            node.next_pipe() == next,
    {
        PipeSubExpression { call, next }
    }

    pub fn call(&self) -> (r: &Call)
        ensures
            *r == self.call_expression(),
    {
        &self.call
    }

    pub fn next(&self) -> (r: &Option<Box<PipeSubExpression>>)
        ensures
            *r == self.next_pipe(),
    {
        &self.next
    }
}

/// The name of a transformation and its arguments, if any.
pub struct Call {
    pub(crate) function: Token,
    pub(crate) arguments: Option<Arguments>,
}

impl Call {
    pub closed spec fn function_token(&self) -> Token {
        self.function
    }

    pub closed spec fn call_arguments(&self) -> Option<Arguments> {
        self.arguments
    }

    pub fn new(function: Token, arguments: Option<Arguments>) -> (node: Call)
        ensures
            node.function_token() == function,
            node.call_arguments() == arguments,
    {
        Call { function, arguments }
    }

    pub fn function(&self) -> (r: &Token)
        ensures
            *r == self.function_token(),
    {
        &self.function
    }

    pub fn arguments(&self) -> (r: &Option<Arguments>)
        ensures
            *r == self.call_arguments(),
    {
        &self.arguments
    }
}

/// The arguments of a call.
pub struct Arguments {
    pub(crate) args: Vec<Expression>,
}

impl Arguments {
    pub closed spec fn argument_list(&self) -> Vec<Expression> {
        self.args
    }

    pub fn new(args: Vec<Expression>) -> (node: Arguments)
        ensures
            node.argument_list() == args,
    {
        Arguments { args }
    }

    pub fn args(&self) -> (r: &Vec<Expression>)
        ensures
            *r == self.argument_list(),
    {
        &self.args
    }
}

/// A pattern of one name.
pub struct SimplePattern {
    pub(crate) decl: Token,
}

impl SimplePattern {
    pub closed spec fn declared(&self) -> Token {
        self.decl
    }

    pub fn new(decl: Token) -> (node: SimplePattern)
        ensures
            node.declared() == decl,
    {
        SimplePattern { decl }
    }

    pub fn decl(&self) -> (r: &Token)
        ensures
            *r == self.declared(),
    {
        &self.decl
    }
}

/// A pattern of several names.
pub struct TuplePattern {
    pub(crate) decls: Vec<Token>,
}

impl TuplePattern {
    pub closed spec fn declared_list(&self) -> Vec<Token> {
        self.decls
    }

    pub fn new(decls: Vec<Token>) -> (node: TuplePattern)
        ensures
            node.declared_list() == decls,
    {
        TuplePattern { decls }
    }

    pub fn decls(&self) -> (r: &Vec<Token>)
        ensures
            *r == self.declared_list(),
    {
        &self.decls
    }
}

/// An action and its expression, if any.
pub struct SimpleStmt {
    pub(crate) action: Token,
    pub(crate) expr: Option<Expression>,
}

impl SimpleStmt {
    pub closed spec fn action_token(&self) -> Token {
        self.action
    }

    pub closed spec fn expression(&self) -> Option<Expression> {
        self.expr
    }

    pub fn new(action: Token, expr: Option<Expression>) -> (node: SimpleStmt)
        ensures
            node.action_token() == action,
            node.expression() == expr,
    {
        SimpleStmt { action, expr }
    }

    pub fn action(&self) -> (r: &Token)
        ensures
            *r == self.action_token(),
    {
        &self.action
    }

    pub fn expr(&self) -> (r: &Option<Expression>)
        ensures
            *r == self.expression(),
    {
        &self.expr
    }
}

/// A binding: the name bound and the expression bound to it.
pub struct LetStmt {
    pub(crate) assignee: Token,
    pub(crate) expr: Expression,
}

impl LetStmt {
    pub closed spec fn assignee_token(&self) -> Token {
        self.assignee
    }

    pub closed spec fn expression(&self) -> Expression {
        self.expr
    }

    pub fn new(assignee: Token, expr: Expression) -> (node: LetStmt)
        ensures
            node.assignee_token() == assignee,
            node.expression() == expr,
    {
        LetStmt { assignee, expr }
    }

    pub fn assignee(&self) -> (r: &Token)
        ensures
            *r == self.assignee_token(),
    {
        &self.assignee
    }

    pub fn expr(&self) -> (r: &Expression)
        ensures
            *r == self.expression(),
    {
        &self.expr
    }
}
} // verus!
