//! Prints a tree of owned nodes in an XML-like format, each part in a tag of
//! its own, indented by two spaces per level.
use vstd::prelude::*;

use crate::common::serialize::{
    action_str, action_text, debug_quoted, debug_string, lemma_tag, location_text, none_text, op_str,
    op_text, tagged, terminal_line, Serializer,
};
use crate::common::text::{decimal, push_decimal, push_str};
use crate::lexer::lexemes::tokens::{Lexeme, Token, TokenKind};
use super::ast::Ast;
use super::nodes::{
    BlockNode, ExprView, Expression, LiteralExpression, Node, NodeView, ReferenceExpression, StmtNode,
    StmtView, TextNode,
};

verus! {

/// The kind of a token as `Debug` prints it.
pub open spec fn kind_text(k: TokenKind) -> Seq<char> {
    match k {
        TokenKind::StringLiteral => "StringLiteral"@,
        TokenKind::NumberLiteral(n) => "NumberLiteral("@ + decimal(n as nat) + ")"@,
        TokenKind::Label => "Label"@,
        TokenKind::Operator(op) => "Operator("@ + op_text(op) + ")"@,
        TokenKind::Action(a) => "Action("@ + action_text(a) + ")"@,
    }
}

/// A token: its kind, its lexeme in quotes, and its location.
pub open spec fn lexeme_text(t: Lexeme, level: nat) -> Seq<char> {
    tagged(
        level,
        "Token"@,
        terminal_line(level + 1, "kind"@, kind_text(t.kind)) + terminal_line(
            level + 1,
            "lexeme"@,
            debug_quoted(t.text),
        ) + location_text(t.location, level + 1),
    )
}

/// A reference with the given labels: the first label, then the reference
/// to its field, if any.
pub open spec fn reference_text(labels: Seq<Lexeme>, level: nat) -> Seq<char>
    decreases labels.len(),
{
    if labels.len() == 0 {
        Seq::empty()
    } else {
        tagged(
            level,
            "ReferenceExpression"@,
            tagged(level + 1, "reference"@, lexeme_text(labels[0], level + 2)) + tagged(
                level + 1,
                "child"@,
                if labels.len() > 1 {
                    tagged(level + 2, "Option"@, reference_text(labels.drop_first(), level + 3))
                } else {
                    none_text(level + 2)
                },
            ),
        )
    }
}

pub open spec fn expression_text(x: ExprView, level: nat) -> Seq<char> {
    match x {
        ExprView::Literal(l) => tagged(
            level,
            "LiteralExpression"@,
            tagged(level + 1, "literal"@, lexeme_text(l, level + 2)),
        ),
        ExprView::Reference(labels) => reference_text(labels, level),
    }
}

pub open spec fn stmt_text(s: StmtView, level: nat) -> Seq<char> {
    tagged(
        level,
        "StmtNode"@,
        tagged(level + 1, "action"@, lexeme_text(s.action, level + 2)) + tagged(
            level + 1,
            "expr"@,
            match s.expr {
                Some(x) => tagged(level + 2, "Option"@, expression_text(x, level + 3)),
                None => none_text(level + 2),
            },
        ),
    )
}

/// A node; a bare statement node prints nothing.
pub open spec fn node_text(n: NodeView, level: nat) -> Seq<char> {
    match n {
        NodeView::Text(t) => tagged(level, "TextNode"@, tagged(level + 1, "text"@, lexeme_text(t, level + 2))),
        NodeView::Block(b) => tagged(
            level,
            "BlockNode"@,
            tagged(
                level + 1,
                "stmt"@,
                match b {
                    Some(s) => tagged(level + 2, "Option"@, stmt_text(s, level + 3)),
                    None => none_text(level + 2),
                },
            ),
        ),
        NodeView::Stmt(_) => Seq::empty(),
    }
}

pub open spec fn nodes_text(ns: Seq<NodeView>, level: nat) -> Seq<char>
    decreases ns.len(),
{
    if ns.len() == 0 {
        Seq::empty()
    } else {
        nodes_text(ns.drop_last(), level) + node_text(ns.last(), level)
    }
}

/// A whole tree: a newline, then its nodes inside an `Ast` tag.
pub open spec fn tree_text(ns: Seq<NodeView>) -> Seq<char> {
    "\n"@ + tagged(0, "Ast"@, nodes_text(ns, 1))
}

/// How deep the printing of an expression goes below its own level.
pub open spec fn expr_depth(x: ExprView) -> nat {
    match x {
        ExprView::Literal(_) => 4,
        ExprView::Reference(labels) => 3 * labels.len() + 3,
    }
}

pub open spec fn stmt_depth(s: StmtView) -> nat {
    match s.expr {
        Some(x) => 3 + expr_depth(x),
        None => 4,
    }
}

/// How deep the printing of a node goes below its own level.
pub open spec fn node_depth(n: NodeView) -> nat {
    match n {
        NodeView::Text(_) => 4,
        NodeView::Block(Some(s)) => 3 + stmt_depth(s),
        NodeView::Block(None) => 4,
        NodeView::Stmt(_) => 0,
    }
}

/// Every node of the tree can be printed with room to spare in a `usize`
/// level of indentation.
pub open spec fn printable(ns: Seq<NodeView>) -> bool {
    forall|i: int| 0 <= i < ns.len() ==> #[trigger] node_depth(ns[i]) + 2 <= usize::MAX
}

/// Values that can be printed at any level.
pub trait Serializeable {
    /// What `serialize` writes at indentation `level`.
    spec fn printed(&self, level: nat) -> Seq<char>;

    /// How deep the printing goes below the level it starts at.
    spec fn depth(&self) -> nat;

    fn serialize(&self, serde: &mut AstSerializer)
        requires
            old(serde).level() + self.depth() <= usize::MAX,
        ensures
            final(serde).level() == old(serde).level(),
            final(serde).written() == old(serde).written() + self.printed(old(serde).level()),
    ;
}

/// Prints trees of owned nodes.
pub struct AstSerializer {
    serde: Serializer,
}

fn kind_string(k: TokenKind) -> (s: String)
    ensures
        s@ == kind_text(k),
{
    let mut s = String::new();
    match k {
        TokenKind::StringLiteral => push_str(&mut s, "StringLiteral"),
        TokenKind::NumberLiteral(n) => {
            push_str(&mut s, "NumberLiteral(");
            push_decimal(&mut s, n);
            push_str(&mut s, ")");
        },
        TokenKind::Label => push_str(&mut s, "Label"),
        TokenKind::Operator(op) => {
            push_str(&mut s, "Operator(");
            push_str(&mut s, op_str(op));
            push_str(&mut s, ")");
        },
        TokenKind::Action(a) => {
            push_str(&mut s, "Action(");
            push_str(&mut s, action_str(a));
            push_str(&mut s, ")");
        },
    }
    assert(s@ =~= kind_text(k));
    s
}

impl AstSerializer {
    pub closed spec fn level(&self) -> nat {
        self.serde.level()
    }

    pub closed spec fn written(&self) -> Seq<char> {
        self.serde.written()
    }

    /// Prints a whole tree.
    pub fn serialize(ast: &Ast) -> (s: String)
        requires
            printable(ast.nodes().map_values(|n: Node| n@)),
        ensures
            s@ == tree_text(ast.nodes().map_values(|n: Node| n@)),
    {
        let mut serde = AstSerializer { serde: Serializer::new() };
        serde.push("\n");
        let ghost w0 = serde.written();
        let ghost views = ast.nodes().map_values(|n: Node| n@);
        let tag = serde.serde.open_tag("Ast");
        let ghost w1 = serde.written();
        let nodes = ast.blocks();
        let mut i: usize = 0;
        while i < nodes.len()
            invariant
                i <= nodes.len(),
                nodes@ == ast.nodes(),
                views == ast.nodes().map_values(|n: Node| n@),
                printable(views),
                serde.level() == 1,
                serde.written() == w1 + nodes_text(views.take(i as int), 1),
            decreases nodes.len() - i,
        {
            assert(views[i as int] == nodes@[i as int]@);
            assert(node_depth(views[i as int]) + 2 <= usize::MAX);
            nodes[i].serialize(&mut serde);
            assert(views.take(i + 1).drop_last() == views.take(i as int));
            assert(serde.written() =~= w1 + nodes_text(views.take(i + 1), 1));
            i = i + 1;
        }
        assert(views.take(nodes.len() as int) == views);
        let ghost w2 = serde.written();
        serde.serde.close_tag(tag);
        proof {
            lemma_tag(w0, w1, w2, serde.written(), 0, "Ast"@, nodes_text(views, 1));
            assert(serde.written() =~= tree_text(views));
        }
        serde.serde.into_string()
    }

    /// Writes the tag `name` around `item`, which is written one level deeper.
    pub fn tag<T: Serializeable>(serde: &mut AstSerializer, name: &str, item: &T)
        requires
            old(serde).level() + item.depth() + 1 <= usize::MAX,
        ensures
            final(serde).level() == old(serde).level(),
            final(serde).written() == old(serde).written() + tagged(
                old(serde).level(),
                name@,
                item.printed(old(serde).level() + 1),
            ),
    {
        let ghost w0 = serde.written();
        let ghost level = serde.level();
        let t = serde.serde.open_tag(name);
        let ghost w1 = serde.written();
        item.serialize(serde);
        let ghost w2 = serde.written();
        serde.serde.close_tag(t);
        proof {
            lemma_tag(w0, w1, w2, serde.written(), level, name@, item.printed(level + 1));
        }
    }

    /// Writes a tag and its content on one line.
    pub fn terminal(serde: &mut AstSerializer, name: &str, content: &str)
        requires
            old(serde).level() < usize::MAX,
        ensures
            final(serde).level() == old(serde).level(),
            final(serde).written() == old(serde).written() + terminal_line(old(serde).level(), name@, content@),
    {
        serde.serde.terminal(name, content);
    }

    fn push(&mut self, text: &str)
        ensures
            final(self).level() == old(self).level(),
            final(self).written() == old(self).written() + text@,
    {
        self.serde.push(text);
    }

    fn write_lexeme(&mut self, t: &Token)
        requires
            old(self).level() + 2 <= usize::MAX,
        ensures
            final(self).level() == old(self).level(),
            final(self).written() == old(self).written() + lexeme_text(t@, old(self).level()),
    {
        let ghost w0 = self.written();
        let ghost level = self.level();
        let tag = self.serde.open_tag("Token");
        let ghost w1 = self.written();
        let kind = kind_string(*t.kind());
        self.serde.terminal("kind", kind.as_str());
        let lexeme = debug_string(t.lexeme());
        self.serde.terminal("lexeme", lexeme.as_str());
        let loc = t.location();
        self.serde.write_location(&loc);
        let ghost w2 = self.written();
        self.serde.close_tag(tag);
        proof {
            let inner = terminal_line(level + 1, "kind"@, kind_text(t@.kind)) + terminal_line(
                level + 1,
                "lexeme"@,
                debug_quoted(t@.text),
            ) + location_text(t@.location, level + 1);
            assert(w2 =~= w1 + inner);
            lemma_tag(w0, w1, w2, self.written(), level, "Token"@, inner);
        }
    }
}

} // verus!

verus! {

impl AstSerializer {
    /// `<Option>None</Option>`
    fn write_none(&mut self)
        requires
            old(self).level() < usize::MAX,
        ensures
            final(self).level() == old(self).level(),
            final(self).written() == old(self).written() + none_text(old(self).level()),
    {
        self.serde.terminal("Option", "None");
    }

    fn write_reference(&mut self, r: &ReferenceExpression)
        requires
            old(self).level() + 3 * r@.len() + 3 <= usize::MAX,
        ensures
            final(self).level() == old(self).level(),
            final(self).written() == old(self).written() + reference_text(r@, old(self).level()),
        decreases r@.len(),
    {
        proof {
            r.lemma_labels();
        }
        let ghost w0 = self.written();
        let ghost level = self.level();
        let ghost labels = r@;
        let tag = self.serde.open_tag("ReferenceExpression");
        let ghost w1 = self.written();

        let t1 = self.serde.open_tag("reference");
        let ghost a1 = self.written();
        self.write_lexeme(r.reference());
        let ghost a2 = self.written();
        self.serde.close_tag(t1);
        let ghost a3 = self.written();
        proof {
            lemma_tag(w1, a1, a2, a3, level + 1, "reference"@, lexeme_text(labels[0], level + 2));
        }

        let t2 = self.serde.open_tag("child");
        let ghost b1 = self.written();
        match r.child() {
            Some(c) => {
                proof {
                    c.lemma_labels();
                }
                let ghost c0 = self.written();
                let t3 = self.serde.open_tag("Option");
                let ghost c1 = self.written();
                self.write_reference(c);
                let ghost c2 = self.written();
                self.serde.close_tag(t3);
                proof {
                    lemma_tag(c0, c1, c2, self.written(), level + 2, "Option"@, reference_text(labels.drop_first(), level + 3));
                }
            },
            None => {
                self.write_none();
            },
        }
        let ghost b2 = self.written();
        self.serde.close_tag(t2);
        let ghost b3 = self.written();
        let ghost child = if labels.len() > 1 {
            tagged(level + 2, "Option"@, reference_text(labels.drop_first(), level + 3))
        } else {
            none_text(level + 2)
        };
        proof {
            lemma_tag(a3, b1, b2, b3, level + 1, "child"@, child);
            let inner = tagged(level + 1, "reference"@, lexeme_text(labels[0], level + 2)) + tagged(
                level + 1,
                "child"@,
                child,
            );
            assert(b3 =~= w1 + inner);
        }
        self.serde.close_tag(tag);
        proof {
            let inner = tagged(level + 1, "reference"@, lexeme_text(labels[0], level + 2)) + tagged(
                level + 1,
                "child"@,
                child,
            );
            lemma_tag(w0, w1, b3, self.written(), level, "ReferenceExpression"@, inner);
        }
    }
}

} // verus!

verus! {

impl AstSerializer {
    fn write_expression(&mut self, x: &Expression)
        requires
            old(self).level() + expr_depth(x@) <= usize::MAX,
        ensures
            final(self).level() == old(self).level(),
            final(self).written() == old(self).written() + expression_text(x@, old(self).level()),
    {
        match x {
            Expression::Literal(l) => {
                let ghost w0 = self.written();
                let ghost level = self.level();
                let tag = self.serde.open_tag("LiteralExpression");
                let ghost w1 = self.written();
                let t = self.serde.open_tag("literal");
                let ghost a1 = self.written();
                self.write_lexeme(l.literal());
                let ghost a2 = self.written();
                self.serde.close_tag(t);
                let ghost w2 = self.written();
                proof {
                    lemma_tag(w1, a1, a2, w2, level + 1, "literal"@, lexeme_text(l@, level + 2));
                }
                self.serde.close_tag(tag);
                proof {
                    lemma_tag(
                        w0,
                        w1,
                        w2,
                        self.written(),
                        level,
                        "LiteralExpression"@,
                        tagged(level + 1, "literal"@, lexeme_text(l@, level + 2)),
                    );
                }
            },
            Expression::Reference(r) => self.write_reference(r),
        }
    }

    fn write_stmt(&mut self, s: &StmtNode)
        requires
            old(self).level() + stmt_depth(s@) <= usize::MAX,
        ensures
            final(self).level() == old(self).level(),
            final(self).written() == old(self).written() + stmt_text(s@, old(self).level()),
    {
        let ghost w0 = self.written();
        let ghost level = self.level();
        let ghost v = s@;
        let tag = self.serde.open_tag("StmtNode");
        let ghost w1 = self.written();

        let t1 = self.serde.open_tag("action");
        let ghost a1 = self.written();
        self.write_lexeme(s.action());
        let ghost a2 = self.written();
        self.serde.close_tag(t1);
        let ghost a3 = self.written();
        proof {
            lemma_tag(w1, a1, a2, a3, level + 1, "action"@, lexeme_text(v.action, level + 2));
        }

        let t2 = self.serde.open_tag("expr");
        let ghost b1 = self.written();
        match s.expr() {
            Some(x) => {
                let ghost c0 = self.written();
                let t3 = self.serde.open_tag("Option");
                let ghost c1 = self.written();
                self.write_expression(x);
                let ghost c2 = self.written();
                self.serde.close_tag(t3);
                proof {
                    lemma_tag(c0, c1, c2, self.written(), level + 2, "Option"@, expression_text(x@, level + 3));
                }
            },
            None => self.write_none(),
        }
        let ghost b2 = self.written();
        self.serde.close_tag(t2);
        let ghost b3 = self.written();
        let ghost expr = match v.expr {
            Some(x) => tagged(level + 2, "Option"@, expression_text(x, level + 3)),
            None => none_text(level + 2),
        };
        proof {
            lemma_tag(a3, b1, b2, b3, level + 1, "expr"@, expr);
        }
        let ghost inner = tagged(level + 1, "action"@, lexeme_text(v.action, level + 2)) + tagged(
            level + 1,
            "expr"@,
            expr,
        );
        assert(b3 =~= w1 + inner);
        self.serde.close_tag(tag);
        proof {
            lemma_tag(w0, w1, b3, self.written(), level, "StmtNode"@, inner);
        }
    }

    fn write_node(&mut self, n: &Node)
        requires
            old(self).level() + node_depth(n@) <= usize::MAX,
        ensures
            final(self).level() == old(self).level(),
            final(self).written() == old(self).written() + node_text(n@, old(self).level()),
    {
        let ghost w0 = self.written();
        let ghost level = self.level();
        match n {
            Node::Text(t) => {
                let tag = self.serde.open_tag("TextNode");
                let ghost w1 = self.written();
                let t1 = self.serde.open_tag("text");
                let ghost a1 = self.written();
                self.write_lexeme(t.text());
                let ghost a2 = self.written();
                self.serde.close_tag(t1);
                let ghost w2 = self.written();
                proof {
                    lemma_tag(w1, a1, a2, w2, level + 1, "text"@, lexeme_text(t@, level + 2));
                }
                self.serde.close_tag(tag);
                proof {
                    lemma_tag(
                        w0,
                        w1,
                        w2,
                        self.written(),
                        level,
                        "TextNode"@,
                        tagged(level + 1, "text"@, lexeme_text(t@, level + 2)),
                    );
                }
            },
            Node::Block(b) => {
                let tag = self.serde.open_tag("BlockNode");
                let ghost w1 = self.written();
                let t1 = self.serde.open_tag("stmt");
                let ghost a1 = self.written();
                match b.stmt() {
                    Some(s) => {
                        let ghost c0 = self.written();
                        let t3 = self.serde.open_tag("Option");
                        let ghost c1 = self.written();
                        self.write_stmt(s);
                        let ghost c2 = self.written();
                        self.serde.close_tag(t3);
                        proof {
                            lemma_tag(c0, c1, c2, self.written(), level + 2, "Option"@, stmt_text(s@, level + 3));
                        }
                    },
                    None => self.write_none(),
                }
                let ghost a2 = self.written();
                self.serde.close_tag(t1);
                let ghost w2 = self.written();
                let ghost stmt = match b@ {
                    Some(s) => tagged(level + 2, "Option"@, stmt_text(s, level + 3)),
                    None => none_text(level + 2),
                };
                proof {
                    lemma_tag(w1, a1, a2, w2, level + 1, "stmt"@, stmt);
                }
                self.serde.close_tag(tag);
                proof {
                    lemma_tag(w0, w1, w2, self.written(), level, "BlockNode"@, tagged(level + 1, "stmt"@, stmt));
                }
            },
            Node::Stmt(_) => {
                assert(self.written() =~= w0 + Seq::<char>::empty());
            },
        }
    }
}

impl Serializeable for Token {
    open spec fn printed(&self, level: nat) -> Seq<char> {
        lexeme_text(self@, level)
    }

    open spec fn depth(&self) -> nat {
        2
    }

    fn serialize(&self, serde: &mut AstSerializer) {
        serde.write_lexeme(self);
    }
}

impl Serializeable for ReferenceExpression {
    open spec fn printed(&self, level: nat) -> Seq<char> {
        reference_text(self@, level)
    }

    open spec fn depth(&self) -> nat {
        3 * self@.len() + 3
    }

    fn serialize(&self, serde: &mut AstSerializer) {
        serde.write_reference(self);
    }
}

impl Serializeable for LiteralExpression {
    open spec fn printed(&self, level: nat) -> Seq<char> {
        expression_text(ExprView::Literal(self@), level)
    }

    open spec fn depth(&self) -> nat {
        4
    }

    fn serialize(&self, serde: &mut AstSerializer) {
        let ghost w0 = serde.written();
        let ghost level = serde.level();
        let tag = serde.serde.open_tag("LiteralExpression");
        let ghost w1 = serde.written();
        AstSerializer::tag(serde, "literal", self.literal());
        let ghost w2 = serde.written();
        serde.serde.close_tag(tag);
        proof {
            lemma_tag(
                w0,
                w1,
                w2,
                serde.written(),
                level,
                "LiteralExpression"@,
                tagged(level + 1, "literal"@, lexeme_text(self@, level + 2)),
            );
        }
    }
}

impl Serializeable for Expression {
    open spec fn printed(&self, level: nat) -> Seq<char> {
        expression_text(self@, level)
    }

    open spec fn depth(&self) -> nat {
        expr_depth(self@)
    }

    fn serialize(&self, serde: &mut AstSerializer) {
        serde.write_expression(self);
    }
}

impl Serializeable for StmtNode {
    open spec fn printed(&self, level: nat) -> Seq<char> {
        stmt_text(self@, level)
    }

    open spec fn depth(&self) -> nat {
        stmt_depth(self@)
    }

    fn serialize(&self, serde: &mut AstSerializer) {
        serde.write_stmt(self);
    }
}

impl Serializeable for BlockNode {
    open spec fn printed(&self, level: nat) -> Seq<char> {
        node_text(NodeView::Block(self@), level)
    }

    open spec fn depth(&self) -> nat {
        node_depth(NodeView::Block(self@))
    }

    fn serialize(&self, serde: &mut AstSerializer) {
        let ghost w0 = serde.written();
        let ghost level = serde.level();
        let tag = serde.serde.open_tag("BlockNode");
        let ghost w1 = serde.written();
        let t1 = serde.serde.open_tag("stmt");
        let ghost a1 = serde.written();
        match self.stmt() {
            Some(s) => AstSerializer::tag(serde, "Option", s),
            None => serde.write_none(),
        }
        let ghost a2 = serde.written();
        serde.serde.close_tag(t1);
        let ghost w2 = serde.written();
        let ghost stmt = match self@ {
            Some(s) => tagged(level + 2, "Option"@, stmt_text(s, level + 3)),
            None => none_text(level + 2),
        };
        proof {
            lemma_tag(w1, a1, a2, w2, level + 1, "stmt"@, stmt);
        }
        serde.serde.close_tag(tag);
        proof {
            lemma_tag(w0, w1, w2, serde.written(), level, "BlockNode"@, tagged(level + 1, "stmt"@, stmt));
        }
    }
}

impl Serializeable for TextNode {
    open spec fn printed(&self, level: nat) -> Seq<char> {
        node_text(NodeView::Text(self@), level)
    }

    open spec fn depth(&self) -> nat {
        4
    }

    fn serialize(&self, serde: &mut AstSerializer) {
        let ghost w0 = serde.written();
        let ghost level = serde.level();
        let tag = serde.serde.open_tag("TextNode");
        let ghost w1 = serde.written();
        AstSerializer::tag(serde, "text", self.text());
        let ghost w2 = serde.written();
        serde.serde.close_tag(tag);
        proof {
            lemma_tag(
                w0,
                w1,
                w2,
                serde.written(),
                level,
                "TextNode"@,
                tagged(level + 1, "text"@, lexeme_text(self@, level + 2)),
            );
        }
    }
}

impl Serializeable for Node {
    open spec fn printed(&self, level: nat) -> Seq<char> {
        node_text(self@, level)
    }

    open spec fn depth(&self) -> nat {
        node_depth(self@)
    }

    fn serialize(&self, serde: &mut AstSerializer) {
        serde.write_node(self);
    }
}

} // verus!
