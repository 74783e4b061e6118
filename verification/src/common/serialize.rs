//! Prints a syntax tree in an XML-like format: every node is a tag on a line of
//! its own, indented by two spaces per level, around the tags of its parts.
use vstd::prelude::*;

use crate::ast::{
    Ast, AstElement, AstIndex, AstView, Block, BlockView, ElementView, Expression, ExpressionView,
    Pattern, PatternView, Statement, StatementView, Transform, TransformView,
};
use crate::ast::shape::{all_in, block_in, element_in, elements_in_range, expression_in, refs_in_range, statement_in};
use crate::common::Location;
use crate::common::text::{decimal, push_char, push_decimal, push_str};
use crate::lexer::automata::spaces;
use crate::tokens::{Action, Op, Token, TokenView};

verus! {

/// What `format!("{:?}", s)` gives for a string `s`: the string in double
/// quotes, with quotes, backslashes and unprintable characters escaped.
pub uninterp spec fn debug_quoted(s: Seq<char>) -> Seq<char>;

/// Calls the `Debug` formatting of `str`; the result is named `debug_quoted`.
#[verifier::external_body]
pub(crate) fn debug_string(s: &str) -> (r: String)
    ensures
        r@ == debug_quoted(s@),
{
    format!("{:?}", s)
}

// ---------------------------------------------------------------------------
// The text of each piece

/// The indentation of a line at `level`: two spaces per level.
pub open spec fn indentation(level: nat) -> Seq<char> {
    spaces(2 * level)
}

pub open spec fn open_line(level: nat, name: Seq<char>) -> Seq<char> {
    indentation(level) + "<"@ + name + ">\n"@
}

pub open spec fn close_line(level: nat, name: Seq<char>) -> Seq<char> {
    indentation(level) + "</"@ + name + ">\n"@
}

/// A tag and its content on one line.
pub open spec fn terminal_line(level: nat, name: Seq<char>, content: Seq<char>) -> Seq<char> {
    indentation(level) + "<"@ + name + ">"@ + content + "</"@ + name + ">\n"@
}

/// A tag around `inner`, which is written one level deeper.
pub open spec fn tagged(level: nat, name: Seq<char>, inner: Seq<char>) -> Seq<char> {
    open_line(level, name) + inner + close_line(level, name)
}

/// An absent optional part.
pub open spec fn none_text(level: nat) -> Seq<char> {
    terminal_line(level, "Option"@, "None"@)
}

/// The name of an operator, as `Debug` prints it.
pub open spec fn op_text(op: Op) -> Seq<char> {
    match op {
        Op::And => "And"@,
        Op::Assign => "Assign"@,
        Op::BlockClose => "BlockClose"@,
        Op::BlockClosePrime => "BlockClosePrime"@,
        Op::BlockOpen => "BlockOpen"@,
        Op::BlockOpenPrime => "BlockOpenPrime"@,
        Op::ClosureOpen => "ClosureOpen"@,
        Op::ClosureClose => "ClosureClose"@,
        Op::Comma => "Comma"@,
        Op::Dot => "Dot"@,
        Op::Each => "Each"@,
        Op::Equality => "Equality"@,
        Op::Inequality => "Inequality"@,
        Op::Or => "Or"@,
        Op::ParenOpen => "ParenOpen"@,
        Op::ParenClose => "ParenClose"@,
        Op::Pipe => "Pipe"@,
    }
}

/// The name of an action, as `Debug` prints it.
pub open spec fn action_text(a: Action) -> Seq<char> {
    match a {
        Action::End => "End"@,
        Action::Let => "Let"@,
        Action::Render => "Render"@,
        Action::Write => "Write"@,
    }
}

/// `<location>{ line, column }</location>`
pub open spec fn location_text(loc: Location, level: nat) -> Seq<char> {
    terminal_line(
        level,
        "location"@,
        "{ "@ + decimal(loc.line as nat) + ", "@ + decimal(loc.column as nat) + " }"@,
    )
}

/// A token: a tag named after its kind around its value and its location.
pub open spec fn token_text(t: TokenView, level: nat) -> Seq<char> {
    let (name, value, loc) = match t {
        TokenView::StringLiteral(s, loc) => ("StringLiteral"@, debug_quoted(s), loc),
        TokenView::NumberLiteral(n, loc) => ("NumberLiteral"@, decimal(n as nat), loc),
        TokenView::Label(s, loc) => ("Label"@, debug_quoted(s), loc),
        TokenView::Operator(op, loc) => ("Operator"@, op_text(op), loc),
        TokenView::Action(a, loc) => ("Action"@, action_text(a), loc),
    };
    tagged(level, name, terminal_line(level + 1, "value"@, value) + location_text(loc, level + 1))
}

/// Tokens one after the other, all at the same level.
pub open spec fn tokens_text(ts: Seq<TokenView>, level: nat) -> Seq<char>
    decreases ts.len(),
{
    if ts.len() == 0 {
        Seq::empty()
    } else {
        tokens_text(ts.drop_last(), level) + token_text(ts.last(), level)
    }
}

// A node refers to its parts by their index in the arena. Each step down from
// a node to its parts uses one unit of `fuel`; a tree whose references never
// lead back to a node they came from is at most as deep as its arena is long,
// so that much fuel prints it whole.

/// The node at `idx`; nothing where the fuel is spent or `idx` is outside
/// the arena.
pub open spec fn node_text(e: Seq<ElementView>, idx: AstIndex, level: nat, fuel: nat) -> Seq<char>
    decreases fuel, 0nat, 0nat,
{
    if fuel == 0 || idx.0 >= e.len() {
        Seq::empty()
    } else {
        element_text(e, e[idx.0 as int], level, (fuel - 1) as nat)
    }
}

/// The nodes at `idxs`, one after the other, all at the same level.
pub open spec fn nodes_text(e: Seq<ElementView>, idxs: Seq<AstIndex>, level: nat, fuel: nat) -> Seq<char>
    decreases fuel, 1nat, idxs.len(),
{
    if idxs.len() == 0 {
        Seq::empty()
    } else {
        nodes_text(e, idxs.drop_last(), level, fuel) + node_text(e, idxs.last(), level, fuel)
    }
}

pub open spec fn element_text(e: Seq<ElementView>, el: ElementView, level: nat, fuel: nat) -> Seq<char>
    decreases fuel, 3nat, 0nat,
{
    match el {
        ElementView::Block(_, b) => block_text(e, b, level, fuel),
        ElementView::Statement(_, s) => statement_text(e, s, level, fuel),
        ElementView::Expression(_, x) => expression_text(e, x, level, fuel),
        ElementView::Transform(_, t) => transform_text(e, t, level, fuel),
        ElementView::Pattern(_, p) => pattern_text(p, level),
    }
}

pub open spec fn block_text(e: Seq<ElementView>, b: BlockView, level: nat, fuel: nat) -> Seq<char>
    decreases fuel, 2nat, 0nat,
{
    match b {
        BlockView::Text(text, _) => tagged(level, "TextBlock"@, token_text(text, level + 1)),
        BlockView::CodeEnclosed(s, _) => tagged(level, "EnclosedBlock"@, node_text(e, s, level + 1, fuel)),
        BlockView::CodeUnclosed(s, scope, _) => tagged(
            level,
            "UnclosedBlock"@,
            node_text(e, s, level + 1, fuel) + nodes_text(e, scope, level + 1, fuel),
        ),
        BlockView::CodeClosing(s, _) => tagged(level, "ClosingBlock"@, node_text(e, s, level + 1, fuel)),
    }
}

pub open spec fn statement_text(e: Seq<ElementView>, s: StatementView, level: nat, fuel: nat) -> Seq<char>
    decreases fuel, 2nat, 0nat,
{
    match s {
        StatementView::End(a) => tagged(level, "EndStatement"@, token_text(a, level + 1)),
        StatementView::Let(a, p, x) => tagged(
            level,
            "LetStatement"@,
            token_text(a, level + 1) + node_text(e, p, level + 1, fuel) + node_text(e, x, level + 1, fuel),
        ),
        StatementView::Render(a, p, x) => tagged(
            level,
            "RenderStatement"@,
            token_text(a, level + 1) + node_text(e, p, level + 1, fuel) + node_text(e, x, level + 1, fuel),
        ),
        StatementView::Write(a, x) => tagged(
            level,
            "WriteStatement"@,
            token_text(a, level + 1) + node_text(e, x, level + 1, fuel),
        ),
    }
}

pub open spec fn expression_text(e: Seq<ElementView>, x: ExpressionView, level: nat, fuel: nat) -> Seq<char>
    decreases fuel, 2nat, 0nat,
{
    // The transformations come in a tag of their own after the value
    match x {
        ExpressionView::Literal(t, trs) => tagged(
            level,
            "LiteralExpression"@,
            token_text(t, level + 1) + tagged(level + 1, "Transforms"@, nodes_text(e, trs, level + 2, fuel)),
        ),
        ExpressionView::Reference(ts, trs) => tagged(
            level,
            "ReferenceExpression"@,
            tokens_text(ts, level + 1) + tagged(level + 1, "Transforms"@, nodes_text(e, trs, level + 2, fuel)),
        ),
    }
}

pub open spec fn transform_text(e: Seq<ElementView>, t: TransformView, level: nat, fuel: nat) -> Seq<char>
    decreases fuel, 2nat, 0nat,
{
    tagged(
        level,
        "Transform"@,
        token_text(t.name, level + 1) + tagged(level + 1, "Arguments"@, nodes_text(e, t.arguments, level + 2, fuel)),
    )
}

pub open spec fn pattern_text(p: PatternView, level: nat) -> Seq<char> {
    match p {
        PatternView::Decleration(decls) => tagged(level, "DeclerationPattern"@, tokens_text(decls, level + 1)),
    }
}

/// The block after the element at `idx`, if that element is a block.
pub open spec fn element_next(e: Seq<ElementView>, idx: AstIndex) -> Option<AstIndex> {
    if idx.0 < e.len() && e[idx.0 as int] is Block {
        e[idx.0 as int]->Block_1.next()
    } else {
        None
    }
}

/// The blocks from `current` on, following the link of each block to the
/// next, for at most `steps` blocks; the parts of each block are looked up
/// in `ctx`.
pub open spec fn chain_text(
    e: Seq<ElementView>,
    ctx: Seq<ElementView>,
    current: Option<AstIndex>,
    level: nat,
    steps: nat,
) -> Seq<char>
    decreases steps,
{
    match current {
        None => Seq::empty(),
        Some(i) => if steps == 0 || i.0 >= e.len() {
            Seq::empty()
        } else {
            element_text(ctx, e[i.0 as int], level, ctx.len()) + chain_text(
                e,
                ctx,
                element_next(e, i),
                level,
                (steps - 1) as nat,
            )
        },
    }
}

/// A whole tree: its blocks from the head on, inside an `Ast` tag.
pub open spec fn ast_text(ast: AstView) -> Seq<char> {
    tagged(0, "Ast"@, chain_text(ast.elements, ast.elements, ast.head, 1, ast.elements.len()))
}

// ---------------------------------------------------------------------------
// The printer

/// A tag that has been opened and is still to be closed.
pub struct Tag {
    name: String,
}

impl View for Tag {
    type V = Seq<char>;

    closed spec fn view(&self) -> Seq<char> {
        self.name@
    }
}

impl Tag {
    pub fn new(name: &str) -> (tag: Tag)
        ensures
            tag@ == name@,
    {
        Tag { name: name.to_owned() }
    }
}

/// Prints syntax trees: the text written so far and the current level of
/// indentation.
pub struct Serializer {
    indent: usize,
    buffer: String,
}

pub(crate) fn op_str(op: Op) -> (s: &'static str)
    ensures
        s@ == op_text(op),
{
    match op {
        Op::And => "And",
        Op::Assign => "Assign",
        Op::BlockClose => "BlockClose",
        Op::BlockClosePrime => "BlockClosePrime",
        Op::BlockOpen => "BlockOpen",
        Op::BlockOpenPrime => "BlockOpenPrime",
        Op::ClosureOpen => "ClosureOpen",
        Op::ClosureClose => "ClosureClose",
        Op::Comma => "Comma",
        Op::Dot => "Dot",
        Op::Each => "Each",
        Op::Equality => "Equality",
        Op::Inequality => "Inequality",
        Op::Or => "Or",
        Op::ParenOpen => "ParenOpen",
        Op::ParenClose => "ParenClose",
        Op::Pipe => "Pipe",
    }
}

pub(crate) fn action_str(a: Action) -> (s: &'static str)
    ensures
        s@ == action_text(a),
{
    match a {
        Action::End => "End",
        Action::Let => "Let",
        Action::Render => "Render",
        Action::Write => "Write",
    }
}

impl Serializer {
    pub closed spec fn level(&self) -> nat {
        self.indent as nat
    }

    pub closed spec fn written(&self) -> Seq<char> {
        self.buffer@
    }

    /// A printer with nothing written yet, at no indentation.
    pub fn new() -> (serde: Serializer)
        ensures
            serde.level() == 0,
            serde.written() == Seq::<char>::empty(),
    {
        Serializer { indent: 0, buffer: String::new() }
    }

    /// The text written.
    pub fn into_string(self) -> (s: String)
        ensures
            s@ == self.written(),
    {
        self.buffer
    }

    fn indent_as_str(&self) -> (s: String)
        ensures
            s@ == indentation(self.level()),
    {
        let mut s = String::new();
        let mut i: usize = 0;
        while i < self.indent
            invariant
                i <= self.indent,
                s@ == spaces(2 * i as nat),
            decreases self.indent - i,
        {
            push_char(&mut s, ' ');
            push_char(&mut s, ' ');
            assert(spaces((2 * i + 2) as nat) == spaces((2 * i + 1) as nat).push(' '));
            i = i + 1;
        }
        s
    }

    fn indent(&mut self)
        requires
            old(self).level() < usize::MAX,
        ensures
            final(self).level() == old(self).level() + 1,
            final(self).written() == old(self).written(),
    {
        self.indent = self.indent + 1;
    }

    fn outdent(&mut self)
        requires
            old(self).level() > 0,
        ensures
            final(self).level() == old(self).level() - 1,
            final(self).written() == old(self).written(),
    {
        self.indent = self.indent - 1;
    }

    pub(crate) fn push(&mut self, text: &str)
        ensures
            final(self).level() == old(self).level(),
            final(self).written() == old(self).written() + text@,
    {
        push_str(&mut self.buffer, text);
    }

    fn indented_push(&mut self, text: &str)
        ensures
            final(self).level() == old(self).level(),
            final(self).written() == old(self).written() + indentation(old(self).level()) + text@,
    {
        let indentation = self.indent_as_str();
        push_str(&mut self.buffer, indentation.as_str());
        push_str(&mut self.buffer, text);
    }

    /// Writes `<name>` on a line of its own and indents what follows.
    pub fn open_tag(&mut self, name: &str) -> (tag: Tag)
        requires
            old(self).level() < usize::MAX,
        ensures
            final(self).level() == old(self).level() + 1,
            final(self).written() == old(self).written() + open_line(old(self).level(), name@),
            tag@ == name@,
    {
        let mut line = String::new();
        push_str(&mut line, "<");
        push_str(&mut line, name);
        push_str(&mut line, ">\n");
        self.indented_push(line.as_str());
        self.indent();
        assert(self.written() =~= old(self).written() + open_line(old(self).level(), name@));
        Tag::new(name)
    }

    /// Outdents and writes `</name>` for the tag on a line of its own.
    pub fn close_tag(&mut self, tag: Tag)
        requires
            old(self).level() > 0,
        ensures
            final(self).level() == old(self).level() - 1,
            final(self).written() == old(self).written() + close_line(final(self).level(), tag@),
    {
        self.outdent();
        let mut line = String::new();
        push_str(&mut line, "</");
        push_str(&mut line, tag.name.as_str());
        push_str(&mut line, ">\n");
        self.indented_push(line.as_str());
        assert(self.written() =~= old(self).written() + close_line(self.level(), tag@));
    }

    /// Writes a tag and its content on one line.
    pub fn terminal(&mut self, name: &str, content: &str)
        requires
            old(self).level() < usize::MAX,
        ensures
            final(self).level() == old(self).level(),
            final(self).written() == old(self).written() + terminal_line(old(self).level(), name@, content@),
    {
        let mut line = String::new();
        push_str(&mut line, "<");
        push_str(&mut line, name);
        push_str(&mut line, ">");
        self.indented_push(line.as_str());
        self.indent();
        self.push(content);
        self.outdent();
        let mut end = String::new();
        push_str(&mut end, "</");
        push_str(&mut end, name);
        push_str(&mut end, ">\n");
        self.push(end.as_str());
        assert(self.written() =~= old(self).written() + terminal_line(old(self).level(), name@, content@));
    }
}


} // verus!

verus! {

/// Writing an opening line, then `inner`, then the closing line writes the
/// tag around `inner`.
pub proof fn lemma_tag(
    w0: Seq<char>,
    w1: Seq<char>,
    w2: Seq<char>,
    w3: Seq<char>,
    level: nat,
    name: Seq<char>,
    inner: Seq<char>,
)
    requires
        w1 == w0 + open_line(level, name),
        w2 == w1 + inner,
        w3 == w2 + close_line(level, name),
    ensures
        w3 == w0 + tagged(level, name, inner),
{
    assert(w3 =~= w0 + tagged(level, name, inner));
}

// The writers below each print one kind of value at the current level and
// leave the level as they found it.
impl Serializer {
    pub(crate) fn write_location(&mut self, loc: &Location)
        requires
            old(self).level() < usize::MAX,
        ensures
            final(self).level() == old(self).level(),
            final(self).written() == old(self).written() + location_text(*loc, old(self).level()),
    {
        let mut content = String::new();
        push_str(&mut content, "{ ");
        push_decimal(&mut content, loc.line);
        push_str(&mut content, ", ");
        push_decimal(&mut content, loc.column);
        push_str(&mut content, " }");
        assert(content@ =~= "{ "@ + decimal(loc.line as nat) + ", "@ + decimal(loc.column as nat) + " }"@);
        self.terminal("location", content.as_str());
    }

    pub(crate) fn write_token(&mut self, t: &Token)
        requires
            old(self).level() + 2 <= usize::MAX,
        ensures
            final(self).level() == old(self).level(),
            final(self).written() == old(self).written() + token_text(t@, old(self).level()),
    {
        let (name, value, loc): (&str, String, &Location) = match t {
            Token::StringLiteral(s, loc) => ("StringLiteral", debug_string(s.as_str()), loc),
            Token::NumberLiteral(n, loc) => ("NumberLiteral", crate::common::text::decimal_string(*n), loc),
            Token::Label(s, loc) => ("Label", debug_string(s.as_str()), loc),
            Token::Operator(op, loc) => ("Operator", op_str(*op).to_owned(), loc),
            Token::Action(a, loc) => ("Action", action_str(*a).to_owned(), loc),
        };
        let level = Ghost(self.level());
        let tag = self.open_tag(name);
        let w1 = Ghost(self.written());
        self.terminal("value", value.as_str());
        self.write_location(loc);
        let w2 = Ghost(self.written());
        self.close_tag(tag);
        assert(w2@ == w1@ + terminal_line(level@ + 1, "value"@, value@) + location_text(*loc, level@ + 1));
        assert(self.written() =~= old(self).written() + token_text(t@, old(self).level()));
    }

    fn write_tokens(&mut self, ts: &Vec<Token>)
        requires
            old(self).level() + 2 <= usize::MAX,
        ensures
            final(self).level() == old(self).level(),
            final(self).written() == old(self).written() + tokens_text(
                ts@.map_values(|t: Token| t@),
                old(self).level(),
            ),
    {
        let ghost views = ts@.map_values(|t: Token| t@);
        let mut i: usize = 0;
        while i < ts.len()
            invariant
                i <= ts.len(),
                views == ts@.map_values(|t: Token| t@),
                self.level() == old(self).level(),
                self.level() + 2 <= usize::MAX,
                self.written() == old(self).written() + tokens_text(views.take(i as int), self.level()),
            decreases ts.len() - i,
        {
            self.write_token(&ts[i]);
            assert(views.take(i + 1).drop_last() == views.take(i as int));
            assert(self.written() =~= old(self).written() + tokens_text(views.take(i + 1), self.level()));
            i = i + 1;
        }
        assert(views.take(ts.len() as int) == views);
    }

    /// The node at `idx`; nothing where the fuel is spent or `idx` lies
    /// outside the arena.
    fn write_node(&mut self, ctx: &Ast, idx: AstIndex, fuel: usize)
        requires
            old(self).level() + 2 * fuel + 6 <= usize::MAX,
        ensures
            final(self).level() == old(self).level(),
            final(self).written() == old(self).written() + node_text(ctx@.elements, idx, old(self).level(), fuel as nat),
        decreases fuel, 0nat, 0nat,
    {
        if fuel == 0 || idx.0 >= ctx.len() {
            assert(self.written() =~= old(self).written() + Seq::<char>::empty());
            return;
        }
        let element = ctx.get(idx);
        self.write_element(ctx, element, fuel - 1);
    }

    fn write_nodes(&mut self, ctx: &Ast, idxs: &Vec<AstIndex>, fuel: usize)
        requires
            old(self).level() + 2 * fuel + 6 <= usize::MAX,
        ensures
            final(self).level() == old(self).level(),
            final(self).written() == old(self).written() + nodes_text(
                ctx@.elements,
                idxs@,
                old(self).level(),
                fuel as nat,
            ),
        decreases fuel, 1nat, idxs@.len(),
    {
        let ghost e = ctx@.elements;
        let mut i: usize = 0;
        proof {
            assert(idxs@.take(0) =~= Seq::<AstIndex>::empty());
            assert(self.written() =~= old(self).written() + Seq::<char>::empty());
        }
        while i < idxs.len()
            invariant
                i <= idxs.len(),
                e == ctx@.elements,
                self.level() == old(self).level(),
                self.level() + 2 * fuel + 6 <= usize::MAX,
                self.written() == old(self).written() + nodes_text(e, idxs@.take(i as int), self.level(), fuel as nat),
            decreases idxs.len() - i,
        {
            self.write_node(ctx, idxs[i], fuel);
            proof {
                assert(idxs@.take(i + 1).drop_last() == idxs@.take(i as int));
                assert(idxs@.take(i + 1).last() == idxs@[i as int]);
                assert(self.written() =~= old(self).written() + nodes_text(
                    e,
                    idxs@.take(i + 1),
                    self.level(),
                    fuel as nat,
                ));
            }
            i = i + 1;
        }
        assert(idxs@.take(idxs.len() as int) == idxs@);
    }

    fn write_element(&mut self, ctx: &Ast, element: &AstElement, fuel: usize)
        requires
            old(self).level() + 2 * fuel + 8 <= usize::MAX,
        ensures
            final(self).level() == old(self).level(),
            final(self).written() == old(self).written() + element_text(
                ctx@.elements,
                element@,
                old(self).level(),
                fuel as nat,
            ),
        decreases fuel, 4nat, 0nat,
    {
        match element {
            AstElement::Block(_, b) => self.write_block(ctx, b, fuel),
            AstElement::Statement(_, s) => self.write_statement(ctx, s, fuel),
            AstElement::Expression(_, x) => self.write_expression(ctx, x, fuel),
            AstElement::Transform(_, t) => self.write_transform(ctx, t, fuel),
            AstElement::Pattern(_, p) => self.write_pattern(p),
        }
    }

    #[verifier::spinoff_prover]
    #[verifier::rlimit(30)]
    fn write_block(&mut self, ctx: &Ast, b: &Block, fuel: usize)
        requires
            old(self).level() + 2 * fuel + 8 <= usize::MAX,
        ensures
            final(self).level() == old(self).level(),
            final(self).written() == old(self).written() + block_text(
                ctx@.elements,
                b@,
                old(self).level(),
                fuel as nat,
            ),
        decreases fuel, 3nat, 0nat,
    {
        let ghost e = ctx@.elements;
        let ghost level = self.level();
        let ghost w0 = self.written();
        match b {
            Block::Text(text, _) => {
                let tag = self.open_tag("TextBlock");
                let ghost w1 = self.written();
                self.write_token(text);
                let ghost w2 = self.written();
                self.close_tag(tag);
                proof {
                    lemma_tag(w0, w1, w2, self.written(), level, "TextBlock"@, token_text(text@, level + 1));
                }
            },
            Block::CodeEnclosed(s, _) => {
                let tag = self.open_tag("EnclosedBlock");
                let ghost w1 = self.written();
                self.write_node(ctx, *s, fuel);
                let ghost w2 = self.written();
                self.close_tag(tag);
                proof {
                    lemma_tag(w0, w1, w2, self.written(), level, "EnclosedBlock"@, node_text(e, *s, level + 1, fuel as nat));
                }
            },
            Block::CodeUnclosed(s, scope, _) => {
                let tag = self.open_tag("UnclosedBlock");
                let ghost w1 = self.written();
                self.write_node(ctx, *s, fuel);
                self.write_nodes(ctx, scope, fuel);
                let ghost w2 = self.written();
                self.close_tag(tag);
                proof {
                    let inner = node_text(e, *s, level + 1, fuel as nat) + nodes_text(e, scope@, level + 1, fuel as nat);
                    assert(w2 =~= w1 + inner);
                    lemma_tag(w0, w1, w2, self.written(), level, "UnclosedBlock"@, inner);
                }
            },
            Block::CodeClosing(s, _) => {
                let tag = self.open_tag("ClosingBlock");
                let ghost w1 = self.written();
                self.write_node(ctx, *s, fuel);
                let ghost w2 = self.written();
                self.close_tag(tag);
                proof {
                    lemma_tag(w0, w1, w2, self.written(), level, "ClosingBlock"@, node_text(e, *s, level + 1, fuel as nat));
                }
            },
        }
    }

    #[verifier::spinoff_prover]
    #[verifier::rlimit(30)]
    fn write_statement(&mut self, ctx: &Ast, s: &Statement, fuel: usize)
        requires
            old(self).level() + 2 * fuel + 8 <= usize::MAX,
        ensures
            final(self).level() == old(self).level(),
            final(self).written() == old(self).written() + statement_text(
                ctx@.elements,
                s@,
                old(self).level(),
                fuel as nat,
            ),
        decreases fuel, 3nat, 0nat,
    {
        let ghost e = ctx@.elements;
        let ghost level = self.level();
        let ghost w0 = self.written();
        match s {
            Statement::End(a) => {
                let tag = self.open_tag("EndStatement");
                let ghost w1 = self.written();
                self.write_token(a);
                let ghost w2 = self.written();
                self.close_tag(tag);
                proof {
                    lemma_tag(w0, w1, w2, self.written(), level, "EndStatement"@, token_text(a@, level + 1));
                }
            },
            Statement::Let(a, p, x) => {
                let tag = self.open_tag("LetStatement");
                let ghost w1 = self.written();
                self.write_token(a);
                self.write_node(ctx, *p, fuel);
                self.write_node(ctx, *x, fuel);
                let ghost w2 = self.written();
                self.close_tag(tag);
                proof {
                    let inner = token_text(a@, level + 1) + node_text(e, *p, level + 1, fuel as nat) + node_text(
                        e,
                        *x,
                        level + 1,
                        fuel as nat,
                    );
                    assert(w2 =~= w1 + inner);
                    lemma_tag(w0, w1, w2, self.written(), level, "LetStatement"@, inner);
                }
            },
            Statement::Render(a, p, x) => {
                let tag = self.open_tag("RenderStatement");
                let ghost w1 = self.written();
                self.write_token(a);
                self.write_node(ctx, *p, fuel);
                self.write_node(ctx, *x, fuel);
                let ghost w2 = self.written();
                self.close_tag(tag);
                proof {
                    let inner = token_text(a@, level + 1) + node_text(e, *p, level + 1, fuel as nat) + node_text(
                        e,
                        *x,
                        level + 1,
                        fuel as nat,
                    );
                    assert(w2 =~= w1 + inner);
                    lemma_tag(w0, w1, w2, self.written(), level, "RenderStatement"@, inner);
                }
            },
            Statement::Write(a, x) => {
                let tag = self.open_tag("WriteStatement");
                let ghost w1 = self.written();
                self.write_token(a);
                self.write_node(ctx, *x, fuel);
                let ghost w2 = self.written();
                self.close_tag(tag);
                proof {
                    let inner = token_text(a@, level + 1) + node_text(e, *x, level + 1, fuel as nat);
                    assert(w2 =~= w1 + inner);
                    lemma_tag(w0, w1, w2, self.written(), level, "WriteStatement"@, inner);
                }
            },
        }
    }

    /// The transformations of an expression, in a `Transforms` tag.
    fn write_transforms(&mut self, ctx: &Ast, transforms: &Vec<AstIndex>, fuel: usize)
        requires
            old(self).level() + 2 * fuel + 7 <= usize::MAX,
        ensures
            final(self).level() == old(self).level(),
            final(self).written() == old(self).written() + tagged(
                old(self).level(),
                "Transforms"@,
                nodes_text(ctx@.elements, transforms@, old(self).level() + 1, fuel as nat),
            ),
        decreases fuel, 2nat, 0nat,
    {
        let ghost w0 = self.written();
        let tag = self.open_tag("Transforms");
        let ghost w1 = self.written();
        self.write_nodes(ctx, transforms, fuel);
        let ghost w2 = self.written();
        self.close_tag(tag);
        proof {
            lemma_tag(
                w0,
                w1,
                w2,
                self.written(),
                old(self).level(),
                "Transforms"@,
                nodes_text(ctx@.elements, transforms@, old(self).level() + 1, fuel as nat),
            );
        }
    }

    #[verifier::spinoff_prover]
    #[verifier::rlimit(30)]
    fn write_expression(&mut self, ctx: &Ast, x: &Expression, fuel: usize)
        requires
            old(self).level() + 2 * fuel + 8 <= usize::MAX,
        ensures
            final(self).level() == old(self).level(),
            final(self).written() == old(self).written() + expression_text(
                ctx@.elements,
                x@,
                old(self).level(),
                fuel as nat,
            ),
        decreases fuel, 3nat, 0nat,
    {
        let ghost e = ctx@.elements;
        let ghost level = self.level();
        let ghost w0 = self.written();
        match x {
            Expression::Literal(t, trs) => {
                let tag = self.open_tag("LiteralExpression");
                let ghost w1 = self.written();
                self.write_token(t);
                self.write_transforms(ctx, trs, fuel);
                let ghost w2 = self.written();
                self.close_tag(tag);
                proof {
                    let inner = token_text(t@, level + 1) + tagged(
                        level + 1,
                        "Transforms"@,
                        nodes_text(e, trs@, level + 2, fuel as nat),
                    );
                    assert(w2 =~= w1 + inner);
                    lemma_tag(w0, w1, w2, self.written(), level, "LiteralExpression"@, inner);
                }
            },
            Expression::Reference(ts, trs) => {
                let tag = self.open_tag("ReferenceExpression");
                let ghost w1 = self.written();
                self.write_tokens(ts);
                self.write_transforms(ctx, trs, fuel);
                let ghost w2 = self.written();
                self.close_tag(tag);
                proof {
                    let inner = tokens_text(ts@.map_values(|t: Token| t@), level + 1) + tagged(
                        level + 1,
                        "Transforms"@,
                        nodes_text(e, trs@, level + 2, fuel as nat),
                    );
                    assert(w2 =~= w1 + inner);
                    lemma_tag(w0, w1, w2, self.written(), level, "ReferenceExpression"@, inner);
                }
            },
        }
    }

    fn write_transform(&mut self, ctx: &Ast, t: &Transform, fuel: usize)
        requires
            old(self).level() + 2 * fuel + 8 <= usize::MAX,
        ensures
            final(self).level() == old(self).level(),
            final(self).written() == old(self).written() + transform_text(
                ctx@.elements,
                t@,
                old(self).level(),
                fuel as nat,
            ),
        decreases fuel, 3nat, 0nat,
    {
        let ghost e = ctx@.elements;
        let ghost level = self.level();
        let ghost w0 = self.written();
        let tag = self.open_tag("Transform");
        let ghost w1 = self.written();
        self.write_token(t.label());
        let ghost wa = self.written();
        let inner_tag = self.open_tag("Arguments");
        let ghost wb = self.written();
        self.write_nodes(ctx, t.arguments(), fuel);
        let ghost wc = self.written();
        self.close_tag(inner_tag);
        let ghost w2 = self.written();
        self.close_tag(tag);
        proof {
            let args = nodes_text(e, t@.arguments, level + 2, fuel as nat);
            lemma_tag(wa, wb, wc, w2, level + 1, "Arguments"@, args);
            let inner = token_text(t@.name, level + 1) + tagged(level + 1, "Arguments"@, args);
            assert(w2 =~= w1 + inner);
            lemma_tag(w0, w1, w2, self.written(), level, "Transform"@, inner);
        }
    }

    fn write_pattern(&mut self, p: &Pattern)
        requires
            old(self).level() + 4 <= usize::MAX,
        ensures
            final(self).level() == old(self).level(),
            final(self).written() == old(self).written() + pattern_text(p@, old(self).level()),
    {
        match p {
            Pattern::Decleration(decls) => {
                let tag = self.open_tag("DeclerationPattern");
                self.write_tokens(decls);
                self.close_tag(tag);
            },
        }
        assert(self.written() =~= old(self).written() + pattern_text(p@, old(self).level()));
    }
}

} // verus!

verus! {

// ---------------------------------------------------------------------------
// What can be printed

/// Values that look up their parts in an arena.
pub trait Indexable {
    /// The element at `index`, if there is one.
    spec fn element_at(&self, index: AstIndex) -> Option<ElementView>;

    fn get(&self, index: &AstIndex) -> (r: Option<&AstElement>)
        ensures
            match self.element_at(*index) {
                Some(v) => r is Some && r.unwrap()@ == v,
                None => r is None,
            },
    ;
}

/// Values that can be printed, with the parts they refer to looked up in an
/// arena.
pub trait Serializable {
    /// What `serialize` writes at indentation `level`.
    spec fn serialized(&self, ctx: Seq<ElementView>, level: nat) -> Seq<char>;

    /// Whether every index the value holds points into an arena of `n` nodes.
    spec fn refers_within(&self, n: nat) -> bool;

    /// What `serialize` returns: the block after a block, `None` otherwise.
    spec fn following(&self) -> Option<AstIndex>;

    fn serialize(&self, serde: &mut Serializer, ctx: &Ast) -> (next: Option<AstIndex>)
        requires
            old(serde).level() + 2 * ctx@.elements.len() + 9 <= usize::MAX,
            elements_in_range(ctx@.elements),
            self.refers_within(ctx@.elements.len()),
        ensures
            final(serde).level() == old(serde).level(),
            final(serde).written() == old(serde).written() + self.serialized(ctx@.elements, old(serde).level()),
            next == self.following(),
    ;
}

/// An arena that can print itself.
pub trait IndexSerializable: Indexable + Serializable {

}

impl Indexable for Ast {
    open spec fn element_at(&self, index: AstIndex) -> Option<ElementView> {
        if index.0 < self@.elements.len() {
            Some(self@.elements[index.0 as int])
        } else {
            None
        }
    }

    fn get(&self, index: &AstIndex) -> (r: Option<&AstElement>) {
        if index.0 < self.len() {
            Some(Ast::get(self, *index))
        } else {
            None
        }
    }
}

impl Serializable for Token {
    open spec fn serialized(&self, ctx: Seq<ElementView>, level: nat) -> Seq<char> {
        token_text(self@, level)
    }

    open spec fn refers_within(&self, n: nat) -> bool {
        true
    }

    open spec fn following(&self) -> Option<AstIndex> {
        None
    }

    fn serialize(&self, serde: &mut Serializer, ctx: &Ast) -> (next: Option<AstIndex>) {
        serde.write_token(self);
        None
    }
}

impl Serializable for Location {
    open spec fn serialized(&self, ctx: Seq<ElementView>, level: nat) -> Seq<char> {
        location_text(*self, level)
    }

    open spec fn refers_within(&self, n: nat) -> bool {
        true
    }

    open spec fn following(&self) -> Option<AstIndex> {
        None
    }

    fn serialize(&self, serde: &mut Serializer, ctx: &Ast) -> (next: Option<AstIndex>) {
        serde.write_location(self);
        None
    }
}

impl Serializable for AstElement {
    open spec fn serialized(&self, ctx: Seq<ElementView>, level: nat) -> Seq<char> {
        element_text(ctx, self@, level, ctx.len())
    }

    open spec fn refers_within(&self, n: nat) -> bool {
        element_in(self@, n)
    }

    open spec fn following(&self) -> Option<AstIndex> {
        match self@ {
            ElementView::Block(_, b) => b.next(),
            _ => None,
        }
    }

    fn serialize(&self, serde: &mut Serializer, ctx: &Ast) -> (next: Option<AstIndex>) {
        serde.write_element(ctx, self, ctx.len());
        match self {
            AstElement::Block(_, b) => *b.next(),
            _ => None,
        }
    }
}

impl Serializable for Block {
    open spec fn serialized(&self, ctx: Seq<ElementView>, level: nat) -> Seq<char> {
        block_text(ctx, self@, level, ctx.len())
    }

    open spec fn refers_within(&self, n: nat) -> bool {
        block_in(self@, n)
    }

    open spec fn following(&self) -> Option<AstIndex> {
        self@.next()
    }

    fn serialize(&self, serde: &mut Serializer, ctx: &Ast) -> (next: Option<AstIndex>) {
        serde.write_block(ctx, self, ctx.len());
        *self.next()
    }
}

impl Serializable for Statement {
    open spec fn serialized(&self, ctx: Seq<ElementView>, level: nat) -> Seq<char> {
        statement_text(ctx, self@, level, ctx.len())
    }

    open spec fn refers_within(&self, n: nat) -> bool {
        statement_in(self@, n)
    }

    open spec fn following(&self) -> Option<AstIndex> {
        None
    }

    fn serialize(&self, serde: &mut Serializer, ctx: &Ast) -> (next: Option<AstIndex>) {
        serde.write_statement(ctx, self, ctx.len());
        None
    }
}

impl Serializable for Expression {
    open spec fn serialized(&self, ctx: Seq<ElementView>, level: nat) -> Seq<char> {
        expression_text(ctx, self@, level, ctx.len())
    }

    open spec fn refers_within(&self, n: nat) -> bool {
        expression_in(self@, n)
    }

    open spec fn following(&self) -> Option<AstIndex> {
        None
    }

    fn serialize(&self, serde: &mut Serializer, ctx: &Ast) -> (next: Option<AstIndex>) {
        serde.write_expression(ctx, self, ctx.len());
        None
    }
}

impl Serializable for Transform {
    open spec fn serialized(&self, ctx: Seq<ElementView>, level: nat) -> Seq<char> {
        transform_text(ctx, self@, level, ctx.len())
    }

    open spec fn refers_within(&self, n: nat) -> bool {
        all_in(self@.arguments, n)
    }

    open spec fn following(&self) -> Option<AstIndex> {
        None
    }

    fn serialize(&self, serde: &mut Serializer, ctx: &Ast) -> (next: Option<AstIndex>) {
        serde.write_transform(ctx, self, ctx.len());
        None
    }
}

impl Serializable for Pattern {
    open spec fn serialized(&self, ctx: Seq<ElementView>, level: nat) -> Seq<char> {
        pattern_text(self@, level)
    }

    open spec fn refers_within(&self, n: nat) -> bool {
        true
    }

    open spec fn following(&self) -> Option<AstIndex> {
        None
    }

    fn serialize(&self, serde: &mut Serializer, ctx: &Ast) -> (next: Option<AstIndex>) {
        serde.write_pattern(self);
        None
    }
}

impl Serializable for Ast {
    /// The blocks of the tree from its head on, inside an `Ast` tag.
    open spec fn serialized(&self, ctx: Seq<ElementView>, level: nat) -> Seq<char> {
        tagged(level, "Ast"@, chain_text(self@.elements, ctx, self@.head, level + 1, self@.elements.len()))
    }

    open spec fn refers_within(&self, n: nat) -> bool {
        refs_in_range(self@) && self@.elements.len() <= n
    }

    open spec fn following(&self) -> Option<AstIndex> {
        None
    }

    fn serialize(&self, serde: &mut Serializer, ctx: &Ast) -> (next: Option<AstIndex>) {
        let ghost e = self@.elements;
        let ghost c = ctx@.elements;
        let ghost level = serde.level();
        let ghost w0 = serde.written();
        let tag = serde.open_tag("Ast");
        let ghost w1 = serde.written();
        let n = self.len();
        let fuel = ctx.len();
        let mut current = self.head();
        let mut steps = n;
        // Each block says which block comes next
        while steps > 0 && current.is_some() && current.unwrap().0 < n
            invariant
                n == e.len(),
                fuel == c.len(),
                e == self@.elements,
                c == ctx@.elements,
                serde.level() == level + 1,
                level + 2 * fuel + 9 <= usize::MAX,
                w1 + chain_text(e, c, self@.head, level + 1, n as nat) == serde.written() + chain_text(
                    e,
                    c,
                    current,
                    level + 1,
                    steps as nat,
                ),
            decreases steps,
        {
            let i = current.unwrap();
            let element = Ast::get(self, i);
            let ghost before = serde.written();
            serde.write_element(ctx, element, fuel);
            current = match element {
                AstElement::Block(_, b) => *b.next(),
                _ => None,
            };
            assert(before + chain_text(e, c, Some(i), level + 1, steps as nat) =~= serde.written()
                + chain_text(e, c, current, level + 1, (steps - 1) as nat));
            steps = steps - 1;
        }
        let ghost w2 = serde.written();
        assert(w2 =~= w1 + chain_text(e, c, self@.head, level + 1, n as nat));
        serde.close_tag(tag);
        proof {
            lemma_tag(w0, w1, w2, serde.written(), level, "Ast"@, chain_text(e, c, self@.head, level + 1, n as nat));
        }
        None
    }
}

impl IndexSerializable for Ast {

}

impl Serializer {
    /// Writes the tag `name` around `item`, which is written one level deeper.
    pub fn tag<T: Serializable>(serde: &mut Serializer, name: &str, item: &T, ctx: &Ast)
        requires
            old(serde).level() + 2 * ctx@.elements.len() + 10 <= usize::MAX,
            elements_in_range(ctx@.elements),
            item.refers_within(ctx@.elements.len()),
        ensures
            final(serde).level() == old(serde).level(),
            final(serde).written() == old(serde).written() + tagged(
                old(serde).level(),
                name@,
                item.serialized(ctx@.elements, old(serde).level() + 1),
            ),
    {
        let ghost w0 = serde.written();
        let ghost level = serde.level();
        let tag = serde.open_tag(name);
        let ghost w1 = serde.written();
        item.serialize(serde, ctx);
        let ghost w2 = serde.written();
        serde.close_tag(tag);
        proof {
            lemma_tag(w0, w1, w2, serde.written(), level, name@, item.serialized(ctx@.elements, level + 1));
        }
    }

    /// Prints a whole syntax tree.
    pub fn serialize(ast: &Ast) -> (s: String)
        requires
            refs_in_range(ast@),
            ast@.elements.len() <= usize::MAX / 4,
        ensures
            s@ == ast_text(ast@),
    {
        let mut serde = Serializer::new();
        ast.serialize(&mut serde, ast);
        assert(serde.written() =~= ast_text(ast@));
        serde.buffer
    }
}

} // verus!
