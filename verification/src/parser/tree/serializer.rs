//! Prints a tree of owned nodes in the XML-like format of the printer: each
//! part in a tag of its own, each field in a tag named after it, an optional
//! part as `<Option>` around it or `<Option>None</Option>`.
use vstd::prelude::*;

use crate::common::serialize::{lemma_tag, none_text, tagged, token_text, Serializer};
use crate::tokens::Token;
use super::ast::Ast;
use super::nodes::{
    Arguments, BlockNode, Call, Expression, LetStmt, LiteralExpression, Node, Pattern,
    PipeSubExpression, ReferenceExpression, SimplePattern, SimpleStmt, Stmt, TextNode, TuplePattern,
};

verus! {

// ---------------------------------------------------------------------------
// The text of each part, written at indentation `level`

/// A token in a tag named after the field that holds it.
pub open spec fn field_token_text(name: Seq<char>, t: Token, level: nat) -> Seq<char> {
    tagged(level, name, token_text(t@, level + 1))
}

pub closed spec fn expression_text(x: Expression, level: nat) -> Seq<char>
    decreases x, 0nat,
{
    match x {
        Expression::Literal(l) => literal_text(l, level),
        Expression::Reference(r) => reference_text(r, level),
    }
}

pub closed spec fn literal_text(l: LiteralExpression, level: nat) -> Seq<char>
    decreases l, 0nat,
{
    tagged(
        level,
        "LiteralExpression"@,
        field_token_text("literal"@, l.literal, level + 1) + tagged(
            level + 1,
            "pipe"@,
            pipe_option_text(l.pipe, level + 2),
        ),
    )
}

pub closed spec fn reference_text(r: ReferenceExpression, level: nat) -> Seq<char>
    decreases r, 0nat,
{
    tagged(
        level,
        "ReferenceExpression"@,
        field_token_text("reference"@, r.reference, level + 1) + tagged(
            level + 1,
            "child"@,
            child_option_text(r.child, level + 2),
        ),
    )
}

pub closed spec fn child_option_text(o: Option<Box<ReferenceExpression>>, level: nat) -> Seq<char>
    decreases o, 0nat,
{
    match o {
        Some(r) => tagged(level, "Option"@, reference_text(*r, level + 1)),
        None => none_text(level),
    }
}

pub closed spec fn pipe_option_text(o: Option<PipeSubExpression>, level: nat) -> Seq<char>
    decreases o, 0nat,
{
    match o {
        Some(p) => tagged(level, "Option"@, pipe_text(p, level + 1)),
        None => none_text(level),
    }
}

pub closed spec fn next_option_text(o: Option<Box<PipeSubExpression>>, level: nat) -> Seq<char>
    decreases o, 0nat,
{
    match o {
        Some(p) => tagged(level, "Option"@, pipe_text(*p, level + 1)),
        None => none_text(level),
    }
}

pub closed spec fn pipe_text(p: PipeSubExpression, level: nat) -> Seq<char>
    decreases p, 0nat,
{
    tagged(
        level,
        "PipeSubExpression"@,
        tagged(level + 1, "call"@, call_text(p.call, level + 2)) + tagged(
            level + 1,
            "next"@,
            next_option_text(p.next, level + 2),
        ),
    )
}

pub closed spec fn call_text(c: Call, level: nat) -> Seq<char>
    decreases c, 0nat,
{
    tagged(
        level,
        "Call"@,
        field_token_text("function"@, c.function, level + 1) + tagged(
            level + 1,
            "arguments"@,
            arguments_option_text(c.arguments, level + 2),
        ),
    )
}

pub closed spec fn arguments_option_text(o: Option<Arguments>, level: nat) -> Seq<char>
    decreases o, 0nat,
{
    match o {
        Some(a) => tagged(level, "Option"@, arguments_text(a, level + 1)),
        None => none_text(level),
    }
}

pub closed spec fn arguments_text(a: Arguments, level: nat) -> Seq<char>
    decreases a, 0nat,
{
    tagged(level, "Arguments"@, args_text(a.args@, a.args@.len(), level + 1))
}

/// The first `n` arguments, each in an `arg` tag.
pub closed spec fn args_text(args: Seq<Expression>, n: nat, level: nat) -> Seq<char>
    decreases args, n,
{
    if n == 0 || n > args.len() {
        Seq::empty()
    } else {
        args_text(args, (n - 1) as nat, level) + tagged(
            level,
            "arg"@,
            expression_text(args[n - 1], level + 1),
        )
    }
}

// ---------------------------------------------------------------------------
// How many levels of indentation printing a part takes below its own level:
// a bound that the printer's level must stay under.

/// The larger of two numbers.
pub open spec fn larger(a: nat, b: nat) -> nat {
    if a >= b {
        a
    } else {
        b
    }
}

pub closed spec fn expression_depth(x: Expression) -> nat
    decreases x, 0nat,
{
    match x {
        Expression::Literal(l) => literal_depth(l),
        Expression::Reference(r) => reference_depth(r),
    }
}

pub closed spec fn literal_depth(l: LiteralExpression) -> nat
    decreases l, 0nat,
{
    larger(4, 2 + pipe_option_depth(l.pipe))
}

pub closed spec fn reference_depth(r: ReferenceExpression) -> nat
    decreases r, 0nat,
{
    larger(4, 2 + child_option_depth(r.child))
}

pub closed spec fn child_option_depth(o: Option<Box<ReferenceExpression>>) -> nat
    decreases o, 0nat,
{
    match o {
        Some(r) => 1 + reference_depth(*r),
        None => 1,
    }
}

pub closed spec fn pipe_option_depth(o: Option<PipeSubExpression>) -> nat
    decreases o, 0nat,
{
    match o {
        Some(p) => 1 + pipe_depth(p),
        None => 1,
    }
}

pub closed spec fn next_option_depth(o: Option<Box<PipeSubExpression>>) -> nat
    decreases o, 0nat,
{
    match o {
        Some(p) => 1 + pipe_depth(*p),
        None => 1,
    }
}

pub closed spec fn pipe_depth(p: PipeSubExpression) -> nat
    decreases p, 0nat,
{
    2 + larger(call_depth(p.call), next_option_depth(p.next))
}

pub closed spec fn call_depth(c: Call) -> nat
    decreases c, 0nat,
{
    larger(4, 2 + arguments_option_depth(c.arguments))
}

pub closed spec fn arguments_option_depth(o: Option<Arguments>) -> nat
    decreases o, 0nat,
{
    match o {
        Some(a) => 1 + arguments_depth(a),
        None => 1,
    }
}

pub closed spec fn arguments_depth(a: Arguments) -> nat
    decreases a, 0nat,
{
    2 + args_depth(a.args@, a.args@.len())
}

pub closed spec fn args_depth(args: Seq<Expression>, n: nat) -> nat
    decreases args, n,
{
    if n == 0 || n > args.len() {
        0
    } else {
        larger(args_depth(args, (n - 1) as nat), expression_depth(args[n - 1]))
    }
}

proof fn lemma_args_depth(args: Seq<Expression>, n: nat, i: int)
    requires
        0 <= i < n <= args.len(),
    ensures
        expression_depth(args[i]) <= args_depth(args, n),
    decreases n,
{
    if i < n - 1 {
        lemma_args_depth(args, (n - 1) as nat, i);
    }
}

// ---------------------------------------------------------------------------
// The printer of each part. Each writes its part at the printer's level and
// leaves the level as it found it.

/// Writes a token in a tag named after the field that holds it.
fn write_field_token(serde: &mut Serializer, name: &str, t: &Token)
    requires
        old(serde).level() + 3 <= usize::MAX,
    ensures
        final(serde).level() == old(serde).level(),
        final(serde).written() == old(serde).written() + field_token_text(name@, *t, old(serde).level()),
{
    let ghost w0 = serde.written();
    let ghost level = serde.level();
    let tag = serde.open_tag(name);
    let ghost w1 = serde.written();
    serde.write_token(t);
    let ghost w2 = serde.written();
    serde.close_tag(tag);
    proof {
        lemma_tag(w0, w1, w2, serde.written(), level, name@, token_text(t@, level + 1));
    }
}

impl Expression {
    pub fn serialize(&self, serde: &mut Serializer)
        requires
            old(serde).level() + expression_depth(*self) <= usize::MAX,
        ensures
            final(serde).level() == old(serde).level(),
            final(serde).written() == old(serde).written() + expression_text(*self, old(serde).level()),
        decreases self,
    {
        match self {
            Expression::Literal(l) => l.serialize(serde),
            Expression::Reference(r) => r.serialize(serde),
        }
    }
}

impl LiteralExpression {
    #[verifier::spinoff_prover]
    pub fn serialize(&self, serde: &mut Serializer)
        requires
            old(serde).level() + literal_depth(*self) <= usize::MAX,
        ensures
            final(serde).level() == old(serde).level(),
            final(serde).written() == old(serde).written() + literal_text(*self, old(serde).level()),
        decreases self,
    {
        let ghost w0 = serde.written();
        let ghost level = serde.level();
        let tag = serde.open_tag("LiteralExpression");
        let ghost w1 = serde.written();
        write_field_token(serde, "literal", &self.literal);
        let ghost w2 = serde.written();
        let field = serde.open_tag("pipe");
        let ghost a1 = serde.written();
        write_pipe_option(serde, &self.pipe);
        let ghost a2 = serde.written();
        serde.close_tag(field);
        let ghost w3 = serde.written();
        let ghost inner = field_token_text("literal"@, self.literal, level + 1) + tagged(
            level + 1,
            "pipe"@,
            pipe_option_text(self.pipe, level + 2),
        );
        proof {
            lemma_tag(w2, a1, a2, w3, level + 1, "pipe"@, pipe_option_text(self.pipe, level + 2));
            assert(w3 =~= w1 + inner);
        }
        serde.close_tag(tag);
        proof {
            lemma_tag(w0, w1, w3, serde.written(), level, "LiteralExpression"@, inner);
        }
    }
}

impl ReferenceExpression {
    pub fn serialize(&self, serde: &mut Serializer)
        requires
            old(serde).level() + reference_depth(*self) <= usize::MAX,
        ensures
            final(serde).level() == old(serde).level(),
            final(serde).written() == old(serde).written() + reference_text(*self, old(serde).level()),
        decreases self,
    {
        let ghost w0 = serde.written();
        let ghost level = serde.level();
        let tag = serde.open_tag("ReferenceExpression");
        let ghost w1 = serde.written();
        write_field_token(serde, "reference", &self.reference);
        let ghost w2 = serde.written();
        let field = serde.open_tag("child");
        let ghost a1 = serde.written();
        write_child_option(serde, &self.child);
        let ghost a2 = serde.written();
        serde.close_tag(field);
        let ghost w3 = serde.written();
        let ghost inner = field_token_text("reference"@, self.reference, level + 1) + tagged(
            level + 1,
            "child"@,
            child_option_text(self.child, level + 2),
        );
        proof {
            lemma_tag(w2, a1, a2, w3, level + 1, "child"@, child_option_text(self.child, level + 2));
            assert(w3 =~= w1 + inner);
        }
        serde.close_tag(tag);
        proof {
            lemma_tag(w0, w1, w3, serde.written(), level, "ReferenceExpression"@, inner);
        }
    }
}

fn write_child_option(serde: &mut Serializer, o: &Option<Box<ReferenceExpression>>)
    requires
        old(serde).level() + child_option_depth(*o) <= usize::MAX,
    ensures
        final(serde).level() == old(serde).level(),
        final(serde).written() == old(serde).written() + child_option_text(*o, old(serde).level()),
    decreases o,
{
    match o {
        Some(r) => {
            let ghost w0 = serde.written();
            let ghost level = serde.level();
            let tag = serde.open_tag("Option");
            let ghost w1 = serde.written();
            r.serialize(serde);
            let ghost w2 = serde.written();
            serde.close_tag(tag);
            proof {
                lemma_tag(w0, w1, w2, serde.written(), level, "Option"@, reference_text(**r, level + 1));
            }
        },
        None => serde.terminal("Option", "None"),
    }
}

fn write_pipe_option(serde: &mut Serializer, o: &Option<PipeSubExpression>)
    requires
        old(serde).level() + pipe_option_depth(*o) <= usize::MAX,
    ensures
        final(serde).level() == old(serde).level(),
        final(serde).written() == old(serde).written() + pipe_option_text(*o, old(serde).level()),
    decreases o,
{
    match o {
        Some(p) => {
            let ghost w0 = serde.written();
            let ghost level = serde.level();
            let tag = serde.open_tag("Option");
            let ghost w1 = serde.written();
            p.serialize(serde);
            let ghost w2 = serde.written();
            serde.close_tag(tag);
            proof {
                lemma_tag(w0, w1, w2, serde.written(), level, "Option"@, pipe_text(*p, level + 1));
            }
        },
        None => serde.terminal("Option", "None"),
    }
}

fn write_next_option(serde: &mut Serializer, o: &Option<Box<PipeSubExpression>>)
    requires
        old(serde).level() + next_option_depth(*o) <= usize::MAX,
    ensures
        final(serde).level() == old(serde).level(),
        final(serde).written() == old(serde).written() + next_option_text(*o, old(serde).level()),
    decreases o,
{
    match o {
        Some(p) => {
            let ghost w0 = serde.written();
            let ghost level = serde.level();
            let tag = serde.open_tag("Option");
            let ghost w1 = serde.written();
            p.serialize(serde);
            let ghost w2 = serde.written();
            serde.close_tag(tag);
            proof {
                lemma_tag(w0, w1, w2, serde.written(), level, "Option"@, pipe_text(**p, level + 1));
            }
        },
        None => serde.terminal("Option", "None"),
    }
}

impl PipeSubExpression {
    pub fn serialize(&self, serde: &mut Serializer)
        requires
            old(serde).level() + pipe_depth(*self) <= usize::MAX,
        ensures
            final(serde).level() == old(serde).level(),
            final(serde).written() == old(serde).written() + pipe_text(*self, old(serde).level()),
        decreases self,
    {
        let ghost w0 = serde.written();
        let ghost level = serde.level();
        let tag = serde.open_tag("PipeSubExpression");
        let ghost w1 = serde.written();
        let field = serde.open_tag("call");
        let ghost a1 = serde.written();
        self.call.serialize(serde);
        let ghost a2 = serde.written();
        serde.close_tag(field);
        let ghost w2 = serde.written();
        let field = serde.open_tag("next");
        let ghost b1 = serde.written();
        write_next_option(serde, &self.next);
        let ghost b2 = serde.written();
        serde.close_tag(field);
        let ghost w3 = serde.written();
        let ghost inner = tagged(level + 1, "call"@, call_text(self.call, level + 2)) + tagged(
            level + 1,
            "next"@,
            next_option_text(self.next, level + 2),
        );
        proof {
            lemma_tag(w1, a1, a2, w2, level + 1, "call"@, call_text(self.call, level + 2));
            lemma_tag(w2, b1, b2, w3, level + 1, "next"@, next_option_text(self.next, level + 2));
            assert(w3 =~= w1 + inner);
        }
        serde.close_tag(tag);
        proof {
            lemma_tag(w0, w1, w3, serde.written(), level, "PipeSubExpression"@, inner);
        }
    }
}

impl Call {
    pub fn serialize(&self, serde: &mut Serializer)
        requires
            old(serde).level() + call_depth(*self) <= usize::MAX,
        ensures
            final(serde).level() == old(serde).level(),
            final(serde).written() == old(serde).written() + call_text(*self, old(serde).level()),
        decreases self,
    {
        let ghost w0 = serde.written();
        let ghost level = serde.level();
        let tag = serde.open_tag("Call");
        let ghost w1 = serde.written();
        write_field_token(serde, "function", &self.function);
        let ghost w2 = serde.written();
        let field = serde.open_tag("arguments");
        let ghost a1 = serde.written();
        write_arguments_option(serde, &self.arguments);
        let ghost a2 = serde.written();
        serde.close_tag(field);
        let ghost w3 = serde.written();
        let ghost inner = field_token_text("function"@, self.function, level + 1) + tagged(
            level + 1,
            "arguments"@,
            arguments_option_text(self.arguments, level + 2),
        );
        proof {
            lemma_tag(w2, a1, a2, w3, level + 1, "arguments"@, arguments_option_text(self.arguments, level + 2));
            assert(w3 =~= w1 + inner);
        }
        serde.close_tag(tag);
        proof {
            lemma_tag(w0, w1, w3, serde.written(), level, "Call"@, inner);
        }
    }
}

fn write_arguments_option(serde: &mut Serializer, o: &Option<Arguments>)
    requires
        old(serde).level() + arguments_option_depth(*o) <= usize::MAX,
    ensures
        final(serde).level() == old(serde).level(),
        final(serde).written() == old(serde).written() + arguments_option_text(*o, old(serde).level()),
    decreases o,
{
    match o {
        Some(a) => {
            let ghost w0 = serde.written();
            let ghost level = serde.level();
            let tag = serde.open_tag("Option");
            let ghost w1 = serde.written();
            a.serialize(serde);
            let ghost w2 = serde.written();
            serde.close_tag(tag);
            proof {
                lemma_tag(w0, w1, w2, serde.written(), level, "Option"@, arguments_text(*a, level + 1));
            }
        },
        None => serde.terminal("Option", "None"),
    }
}

impl Arguments {
    pub fn serialize(&self, serde: &mut Serializer)
        requires
            old(serde).level() + arguments_depth(*self) <= usize::MAX,
        ensures
            final(serde).level() == old(serde).level(),
            final(serde).written() == old(serde).written() + arguments_text(*self, old(serde).level()),
        decreases self,
    {
        let ghost w0 = serde.written();
        let ghost level = serde.level();
        let ghost args = self.args@;
        let tag = serde.open_tag("Arguments");
        let ghost w1 = serde.written();
        let mut i: usize = 0;
        while i < self.args.len()
            invariant
                i <= self.args.len(),
                args == self.args@,
                level + 2 + args_depth(args, args.len()) <= usize::MAX,
                serde.level() == level + 1,
                serde.written() == w1 + args_text(args, i as nat, level + 1),
            decreases self.args.len() - i,
        {
            proof {
                lemma_args_depth(args, args.len(), i as int);
            }
            let ghost a0 = serde.written();
            let field = serde.open_tag("arg");
            let ghost a1 = serde.written();
            self.args[i].serialize(serde);
            let ghost a2 = serde.written();
            serde.close_tag(field);
            proof {
                lemma_tag(a0, a1, a2, serde.written(), level + 1, "arg"@, expression_text(args[i as int], level + 2));
            }
            i = i + 1;
        }
        let ghost w2 = serde.written();
        serde.close_tag(tag);
        proof {
            lemma_tag(w0, w1, w2, serde.written(), level, "Arguments"@, args_text(args, args.len(), level + 1));
        }
    }
}

// ---------------------------------------------------------------------------
// Statements, patterns, nodes and whole trees

pub closed spec fn expression_option_text(o: Option<Expression>, level: nat) -> Seq<char> {
    match o {
        Some(x) => tagged(level, "Option"@, expression_text(x, level + 1)),
        None => none_text(level),
    }
}

pub closed spec fn expression_option_depth(o: Option<Expression>) -> nat {
    match o {
        Some(x) => 1 + expression_depth(x),
        None => 1,
    }
}

pub closed spec fn simple_stmt_text(s: SimpleStmt, level: nat) -> Seq<char> {
    tagged(
        level,
        "SimpleStmt"@,
        field_token_text("action"@, s.action, level + 1) + tagged(
            level + 1,
            "expr"@,
            expression_option_text(s.expr, level + 2),
        ),
    )
}

pub closed spec fn simple_stmt_depth(s: SimpleStmt) -> nat {
    larger(4, 2 + expression_option_depth(s.expr))
}

pub closed spec fn let_stmt_text(s: LetStmt, level: nat) -> Seq<char> {
    tagged(
        level,
        "LetStmt"@,
        field_token_text("assignee"@, s.assignee, level + 1) + tagged(
            level + 1,
            "expr"@,
            expression_text(s.expr, level + 2),
        ),
    )
}

pub closed spec fn let_stmt_depth(s: LetStmt) -> nat {
    larger(4, 2 + expression_depth(s.expr))
}

pub closed spec fn stmt_text(s: Stmt, level: nat) -> Seq<char> {
    match s {
        Stmt::Simple(s) => simple_stmt_text(s, level),
        Stmt::Let(s) => let_stmt_text(s, level),
    }
}

pub closed spec fn stmt_depth(s: Stmt) -> nat {
    match s {
        Stmt::Simple(s) => simple_stmt_depth(s),
        Stmt::Let(s) => let_stmt_depth(s),
    }
}

pub closed spec fn simple_pattern_text(p: SimplePattern, level: nat) -> Seq<char> {
    tagged(level, "SimplePattern"@, field_token_text("decl"@, p.decl, level + 1))
}

/// The first `n` names of a tuple pattern, each in a `decl` tag.
pub closed spec fn decls_text(decls: Seq<Token>, n: nat, level: nat) -> Seq<char>
    decreases n,
{
    if n == 0 || n > decls.len() {
        Seq::empty()
    } else {
        decls_text(decls, (n - 1) as nat, level) + field_token_text("decl"@, decls[n - 1], level)
    }
}

pub closed spec fn tuple_pattern_text(p: TuplePattern, level: nat) -> Seq<char> {
    tagged(level, "TuplePattern"@, decls_text(p.decls@, p.decls@.len(), level + 1))
}

pub closed spec fn pattern_text(p: Pattern, level: nat) -> Seq<char> {
    match p {
        Pattern::Simple(p) => simple_pattern_text(p, level),
        Pattern::Tuple(p) => tuple_pattern_text(p, level),
    }
}

pub closed spec fn text_node_text(n: TextNode, level: nat) -> Seq<char> {
    tagged(level, "TextNode"@, field_token_text("text"@, n.text, level + 1))
}

pub closed spec fn block_node_text(n: BlockNode, level: nat) -> Seq<char> {
    tagged(level, "BlockNode"@, tagged(level + 1, "stmt"@, stmt_text(n.stmt, level + 2)))
}

pub closed spec fn block_node_depth(n: BlockNode) -> nat {
    2 + stmt_depth(n.stmt)
}

#[verifier::opaque]
pub closed spec fn node_text(n: Node, level: nat) -> Seq<char> {
    match n {
        Node::Text(n) => text_node_text(n, level),
        Node::Block(n) => block_node_text(n, level),
    }
}

#[verifier::opaque]
pub closed spec fn node_depth(n: Node) -> nat {
    match n {
        Node::Text(_) => 4,
        Node::Block(n) => block_node_depth(n),
    }
}

/// The first `n` nodes, one after the other.
pub closed spec fn nodes_text(nodes: Seq<Node>, n: nat, level: nat) -> Seq<char>
    decreases n,
{
    if n == 0 || n > nodes.len() {
        Seq::empty()
    } else {
        nodes_text(nodes, (n - 1) as nat, level) + node_text(nodes[n - 1], level)
    }
}

pub closed spec fn nodes_depth(nodes: Seq<Node>, n: nat) -> nat
    decreases n,
{
    if n == 0 || n > nodes.len() {
        0
    } else {
        larger(nodes_depth(nodes, (n - 1) as nat), node_depth(nodes[n - 1]))
    }
}

/// A whole tree: its nodes inside an `Ast` tag.
pub closed spec fn ast_text(ast: Ast, level: nat) -> Seq<char> {
    tagged(level, "Ast"@, nodes_text(ast.blocks@, ast.blocks@.len(), level + 1))
}

pub closed spec fn ast_depth(ast: Ast) -> nat {
    1 + nodes_depth(ast.blocks@, ast.blocks@.len())
}

proof fn lemma_nodes_depth(nodes: Seq<Node>, n: nat, i: int)
    requires
        0 <= i < n <= nodes.len(),
    ensures
        node_depth(nodes[i]) <= nodes_depth(nodes, n),
    decreases n,
{
    if i < n - 1 {
        lemma_nodes_depth(nodes, (n - 1) as nat, i);
    }
}

fn write_expression_option(serde: &mut Serializer, o: &Option<Expression>)
    requires
        old(serde).level() + expression_option_depth(*o) <= usize::MAX,
    ensures
        final(serde).level() == old(serde).level(),
        final(serde).written() == old(serde).written() + expression_option_text(*o, old(serde).level()),
{
    match o {
        Some(x) => {
            let ghost w0 = serde.written();
            let ghost level = serde.level();
            let tag = serde.open_tag("Option");
            let ghost w1 = serde.written();
            x.serialize(serde);
            let ghost w2 = serde.written();
            serde.close_tag(tag);
            proof {
                lemma_tag(w0, w1, w2, serde.written(), level, "Option"@, expression_text(*x, level + 1));
            }
        },
        None => serde.terminal("Option", "None"),
    }
}

impl SimpleStmt {
    pub fn serialize(&self, serde: &mut Serializer)
        requires
            old(serde).level() + simple_stmt_depth(*self) <= usize::MAX,
        ensures
            final(serde).level() == old(serde).level(),
            final(serde).written() == old(serde).written() + simple_stmt_text(*self, old(serde).level()),
    {
        let ghost w0 = serde.written();
        let ghost level = serde.level();
        let tag = serde.open_tag("SimpleStmt");
        let ghost w1 = serde.written();
        write_field_token(serde, "action", &self.action);
        let ghost w2 = serde.written();
        let field = serde.open_tag("expr");
        let ghost a1 = serde.written();
        write_expression_option(serde, &self.expr);
        let ghost a2 = serde.written();
        serde.close_tag(field);
        let ghost w3 = serde.written();
        let ghost inner = field_token_text("action"@, self.action, level + 1) + tagged(
            level + 1,
            "expr"@,
            expression_option_text(self.expr, level + 2),
        );
        proof {
            lemma_tag(w2, a1, a2, w3, level + 1, "expr"@, expression_option_text(self.expr, level + 2));
            assert(w3 =~= w1 + inner);
        }
        serde.close_tag(tag);
        proof {
            lemma_tag(w0, w1, w3, serde.written(), level, "SimpleStmt"@, inner);
        }
    }
}

impl LetStmt {
    pub fn serialize(&self, serde: &mut Serializer)
        requires
            old(serde).level() + let_stmt_depth(*self) <= usize::MAX,
        ensures
            final(serde).level() == old(serde).level(),
            final(serde).written() == old(serde).written() + let_stmt_text(*self, old(serde).level()),
    {
        let ghost w0 = serde.written();
        let ghost level = serde.level();
        let tag = serde.open_tag("LetStmt");
        let ghost w1 = serde.written();
        write_field_token(serde, "assignee", &self.assignee);
        let ghost w2 = serde.written();
        let field = serde.open_tag("expr");
        let ghost a1 = serde.written();
        self.expr.serialize(serde);
        let ghost a2 = serde.written();
        serde.close_tag(field);
        let ghost w3 = serde.written();
        let ghost inner = field_token_text("assignee"@, self.assignee, level + 1) + tagged(
            level + 1,
            "expr"@,
            expression_text(self.expr, level + 2),
        );
        proof {
            lemma_tag(w2, a1, a2, w3, level + 1, "expr"@, expression_text(self.expr, level + 2));
            assert(w3 =~= w1 + inner);
        }
        serde.close_tag(tag);
        proof {
            lemma_tag(w0, w1, w3, serde.written(), level, "LetStmt"@, inner);
        }
    }
}

impl Stmt {
    pub fn serialize(&self, serde: &mut Serializer)
        requires
            old(serde).level() + stmt_depth(*self) <= usize::MAX,
        ensures
            final(serde).level() == old(serde).level(),
            final(serde).written() == old(serde).written() + stmt_text(*self, old(serde).level()),
    {
        match self {
            Stmt::Simple(s) => s.serialize(serde),
            Stmt::Let(s) => s.serialize(serde),
        }
    }
}

impl SimplePattern {
    pub fn serialize(&self, serde: &mut Serializer)
        requires
            old(serde).level() + 4 <= usize::MAX,
        ensures
            final(serde).level() == old(serde).level(),
            final(serde).written() == old(serde).written() + simple_pattern_text(*self, old(serde).level()),
    {
        let ghost w0 = serde.written();
        let ghost level = serde.level();
        let tag = serde.open_tag("SimplePattern");
        let ghost w1 = serde.written();
        write_field_token(serde, "decl", &self.decl);
        let ghost w2 = serde.written();
        serde.close_tag(tag);
        proof {
            lemma_tag(w0, w1, w2, serde.written(), level, "SimplePattern"@, field_token_text("decl"@, self.decl, level + 1));
        }
    }
}

impl TuplePattern {
    pub fn serialize(&self, serde: &mut Serializer)
        requires
            old(serde).level() + 4 <= usize::MAX,
        ensures
            final(serde).level() == old(serde).level(),
            final(serde).written() == old(serde).written() + tuple_pattern_text(*self, old(serde).level()),
    {
        let ghost w0 = serde.written();
        let ghost level = serde.level();
        let ghost decls = self.decls@;
        let tag = serde.open_tag("TuplePattern");
        let ghost w1 = serde.written();
        let mut i: usize = 0;
        while i < self.decls.len()
            invariant
                i <= self.decls.len(),
                decls == self.decls@,
                level + 4 <= usize::MAX,
                serde.level() == level + 1,
                serde.written() == w1 + decls_text(decls, i as nat, level + 1),
            decreases self.decls.len() - i,
        {
            write_field_token(serde, "decl", &self.decls[i]);
            i = i + 1;
        }
        let ghost w2 = serde.written();
        serde.close_tag(tag);
        proof {
            lemma_tag(w0, w1, w2, serde.written(), level, "TuplePattern"@, decls_text(decls, decls.len(), level + 1));
        }
    }
}

impl Pattern {
    pub fn serialize(&self, serde: &mut Serializer)
        requires
            old(serde).level() + 4 <= usize::MAX,
        ensures
            final(serde).level() == old(serde).level(),
            final(serde).written() == old(serde).written() + pattern_text(*self, old(serde).level()),
    {
        match self {
            Pattern::Simple(p) => p.serialize(serde),
            Pattern::Tuple(p) => p.serialize(serde),
        }
    }
}

impl TextNode {
    pub fn serialize(&self, serde: &mut Serializer)
        requires
            old(serde).level() + 4 <= usize::MAX,
        ensures
            final(serde).level() == old(serde).level(),
            final(serde).written() == old(serde).written() + text_node_text(*self, old(serde).level()),
    {
        let ghost w0 = serde.written();
        let ghost level = serde.level();
        let tag = serde.open_tag("TextNode");
        let ghost w1 = serde.written();
        write_field_token(serde, "text", &self.text);
        let ghost w2 = serde.written();
        serde.close_tag(tag);
        proof {
            lemma_tag(w0, w1, w2, serde.written(), level, "TextNode"@, field_token_text("text"@, self.text, level + 1));
        }
    }
}

impl BlockNode {
    pub fn serialize(&self, serde: &mut Serializer)
        requires
            old(serde).level() + block_node_depth(*self) <= usize::MAX,
        ensures
            final(serde).level() == old(serde).level(),
            final(serde).written() == old(serde).written() + block_node_text(*self, old(serde).level()),
    {
        let ghost w0 = serde.written();
        let ghost level = serde.level();
        let tag = serde.open_tag("BlockNode");
        let ghost w1 = serde.written();
        let field = serde.open_tag("stmt");
        let ghost a1 = serde.written();
        self.stmt.serialize(serde);
        let ghost a2 = serde.written();
        serde.close_tag(field);
        let ghost w2 = serde.written();
        proof {
            lemma_tag(w1, a1, a2, w2, level + 1, "stmt"@, stmt_text(self.stmt, level + 2));
        }
        serde.close_tag(tag);
        proof {
            lemma_tag(w0, w1, w2, serde.written(), level, "BlockNode"@, tagged(level + 1, "stmt"@, stmt_text(self.stmt, level + 2)));
        }
    }
}

impl Node {
    pub fn serialize(&self, serde: &mut Serializer)
        requires
            old(serde).level() + node_depth(*self) <= usize::MAX,
        ensures
            final(serde).level() == old(serde).level(),
            final(serde).written() == old(serde).written() + node_text(*self, old(serde).level()),
    {
        proof {
            reveal(node_text);
            reveal(node_depth);
        }
        match self {
            Node::Text(n) => n.serialize(serde),
            Node::Block(n) => n.serialize(serde),
        }
    }
}

impl Ast {
    #[verifier::spinoff_prover]
    pub fn serialize(&self, serde: &mut Serializer)
        requires
            old(serde).level() + ast_depth(*self) <= usize::MAX,
        ensures
            final(serde).level() == old(serde).level(),
            final(serde).written() == old(serde).written() + ast_text(*self, old(serde).level()),
    {
        let ghost w0 = serde.written();
        let ghost level = serde.level();
        let ghost nodes = self.blocks@;
        let tag = serde.open_tag("Ast");
        let ghost w1 = serde.written();
        let mut i: usize = 0;
        while i < self.blocks.len()
            invariant
                i <= self.blocks.len(),
                nodes == self.blocks@,
                level + 1 + nodes_depth(nodes, nodes.len()) <= usize::MAX,
                serde.level() == level + 1,
                serde.written() == w1 + nodes_text(nodes, i as nat, level + 1),
            decreases self.blocks.len() - i,
        {
            proof {
                lemma_nodes_depth(nodes, nodes.len(), i as int);
            }
            self.blocks[i].serialize(serde);
            i = i + 1;
        }
        let ghost w2 = serde.written();
        serde.close_tag(tag);
        proof {
            lemma_tag(w0, w1, w2, serde.written(), level, "Ast"@, nodes_text(nodes, nodes.len(), level + 1));
        }
    }

    /// The whole tree printed, starting at no indentation.
    pub fn print(&self) -> (s: String)
        requires
            ast_depth(*self) <= usize::MAX,
        ensures
            s@ == ast_text(*self, 0),
    {
        let mut serde = Serializer::new();
        self.serialize(&mut serde);
        assert(serde.written() =~= ast_text(*self, 0));
        serde.into_string()
    }
}

} // verus!
