//! What the parser computes, one grammar rule at a time. Each rule reads from
//! the front of the remaining tokens, appends the nodes it builds to the arena
//! (children before parents) and gives the index of the node it built.
use vstd::prelude::*;

use crate::ast::{AstIndex, AstView, BlockView, ElementView, ExpressionView, PatternView, StatementView, TransformView};
use crate::ast::ast::next_index;
use crate::tokens::{Action, Op, TokenView};
use super::error::{ErrorKind, ParseFailure};

verus! {

/// `rest` is what is left of `tokens` after some tokens are read from its
/// front.
pub open spec fn rest_of(tokens: Seq<TokenView>, rest: Seq<TokenView>) -> bool {
    rest.len() <= tokens.len() && rest == tokens.skip(tokens.len() - rest.len())
}

pub broadcast proof fn lemma_rest_refl(t: Seq<TokenView>)
    ensures
        #[trigger] rest_of(t, t),
{
    assert(t.skip(0) =~= t);
}

pub broadcast proof fn lemma_rest_trans(a: Seq<TokenView>, b: Seq<TokenView>, c: Seq<TokenView>)
    requires
        rest_of(a, b),
        rest_of(b, c),
    ensures
        #![trigger rest_of(a, b), rest_of(b, c)]
        rest_of(a, c),
{
    assert(c =~= a.skip(a.len() - c.len()));
}


/// The tokens left, the arena, and the node just built.
pub struct Parsed {
    pub rest: Seq<TokenView>,
    pub elements: Seq<ElementView>,
    pub index: AstIndex,
}

pub type ParseResult = Result<Parsed, ParseFailure>;

pub open spec fn end_of_stream() -> ParseFailure {
    ParseFailure::Kind(ErrorKind::UnexpectedEndOfTokenStream.text())
}

pub open spec fn fail(msg: Seq<char>) -> ParseFailure {
    ParseFailure::Custom(msg)
}

pub open spec fn no_progress() -> ParseFailure {
    fail("Parser: a rule read no token."@)
}

pub open spec fn is_op(t: TokenView, op: Op) -> bool {
    t matches TokenView::Operator(o, _) && o == op
}

pub open spec fn is_operator(t: TokenView) -> bool {
    t is Operator
}

pub open spec fn built(rest: Seq<TokenView>, elements: Seq<ElementView>, element: ElementView) -> Parsed {
    Parsed { rest, elements: elements.push(element), index: next_index(elements) }
}

/// The labels after the first label of a reference, each after a dot.
pub open spec fn p_refs(t: Seq<TokenView>, refs: Seq<TokenView>) -> Result<(Seq<TokenView>, Seq<TokenView>), ParseFailure>
    decreases t.len(),
{
    if t.len() == 0 {
        Err(end_of_stream())
    } else if is_op(t[0], Op::Dot) {
        let t1 = t.drop_first();
        if t1.len() == 0 {
            Err(end_of_stream())
        } else if t1[0] is Label {
            p_refs(t1.drop_first(), refs.push(t1[0]))
        } else {
            Err(fail("Expected a label after dot operator"@))
        }
    } else {
        Ok((t, refs))
    }
}

/// An expression: a string or number literal, or dot separated labels,
/// followed by its transformations.
pub open spec fn p_expression(t: Seq<TokenView>, e: Seq<ElementView>) -> ParseResult
    decreases t.len(), 1int,
{
    if t.len() == 0 {
        Err(end_of_stream())
    } else if t[0] is StringLiteral || t[0] is NumberLiteral {
        match p_transforms(t.drop_first(), e, Seq::empty()) {
            Ok((t1, e1, trs)) => Ok(
                built(t1, e1, ElementView::Expression(next_index(e1), ExpressionView::Literal(t[0], trs))),
            ),
            Err(err) => Err(err),
        }
    } else if t[0] is Label {
        match p_refs(t.drop_first(), seq![t[0]]) {
            Ok((t1, refs)) => if t1.len() < t.len() {
                match p_transforms(t1, e, Seq::empty()) {
                    Ok((t2, e2, trs)) => Ok(
                        built(
                            t2,
                            e2,
                            ElementView::Expression(next_index(e2), ExpressionView::Reference(refs, trs)),
                        ),
                    ),
                    Err(err) => Err(err),
                }
            } else {
                Err(no_progress())
            },
            Err(err) => Err(err),
        }
    } else {
        Err(fail("Expected expressions: Reference, StringLiteral, NumberLiteral"@))
    }
}

/// As many transformations `| label` or `| label(arg, ..)` as follow.
pub open spec fn p_transforms(t: Seq<TokenView>, e: Seq<ElementView>, trs: Seq<AstIndex>) -> Result<
    (Seq<TokenView>, Seq<ElementView>, Seq<AstIndex>),
    ParseFailure,
>
    decreases t.len(), 0int,
{
    if t.len() == 0 {
        Err(end_of_stream())
    } else if !is_op(t[0], Op::Pipe) {
        Ok((t, e, trs))
    } else {
        let t1 = t.drop_first();
        if t1.len() == 0 {
            Err(end_of_stream())
        } else if !(t1[0] is Label) {
            Err(fail("Expected transform label after Pipe Operator."@))
        } else {
            let label = t1[0];
            let t2 = t1.drop_first();
            if t2.len() == 0 {
                Err(end_of_stream())
            } else if is_op(t2[0], Op::ParenOpen) {
                match p_args(t2.drop_first(), e, Seq::empty()) {
                    Ok((t3, e3, args)) => if t3.len() < t.len() {
                        p_transforms(
                            t3,
                            e3.push(
                                ElementView::Transform(
                                    next_index(e3),
                                    TransformView { name: label, arguments: args },
                                ),
                            ),
                            trs.push(next_index(e3)),
                        )
                    } else {
                        Err(no_progress())
                    },
                    Err(err) => Err(err),
                }
            } else {
                p_transforms(
                    t2,
                    e.push(
                        ElementView::Transform(
                            next_index(e),
                            TransformView { name: label, arguments: Seq::empty() },
                        ),
                    ),
                    trs.push(next_index(e)),
                )
            }
        }
    }
}

/// The arguments of a transformation after its `(`: expressions separated by
/// commas, up to the closing `)`.
pub open spec fn p_args(t: Seq<TokenView>, e: Seq<ElementView>, args: Seq<AstIndex>) -> Result<
    (Seq<TokenView>, Seq<ElementView>, Seq<AstIndex>),
    ParseFailure,
>
    decreases t.len(), 2int,
{
    match p_expression(t, e) {
        Err(err) => Err(err),
        Ok(p) => {
            let args2 = args.push(p.index);
            let t1 = p.rest;
            if t1.len() == 0 {
                Err(end_of_stream())
            } else if is_op(t1[0], Op::Comma) {
                if t1.len() <= t.len() {
                    p_args(t1.drop_first(), p.elements, args2)
                } else {
                    Err(no_progress())
                }
            } else if is_op(t1[0], Op::ParenClose) {
                Ok((t1.drop_first(), p.elements, args2))
            } else {
                Err(fail("Expected a comma or close parenthesis to complete an argument list."@))
            }
        },
    }
}

pub open spec fn pattern_end_msg() -> Seq<char> {
    "Expected either a Close Parenthesis to end the Pattern, or a comma to continue the pattern."@
}

/// The labels of a parenthesised pattern after its `(`, up to the closing `)`.
pub open spec fn p_decls(t: Seq<TokenView>, decls: Seq<TokenView>) -> Result<(Seq<TokenView>, Seq<TokenView>), ParseFailure>
    decreases t.len(),
{
    if t.len() == 0 {
        Err(end_of_stream())
    } else if !(t[0] is Label) {
        Err(fail("Expected label for decleration in Pattern"@))
    } else {
        let decls2 = decls.push(t[0]);
        let t1 = t.drop_first();
        if t1.len() == 0 {
            Err(end_of_stream())
        } else if is_op(t1[0], Op::Comma) {
            p_decls(t1.drop_first(), decls2)
        } else if is_op(t1[0], Op::ParenClose) {
            Ok((t1.drop_first(), decls2))
        } else {
            Err(fail(pattern_end_msg()))
        }
    }
}

/// A pattern: one label, or labels in parentheses separated by commas.
pub open spec fn p_pattern(t: Seq<TokenView>, e: Seq<ElementView>) -> ParseResult {
    if t.len() == 0 {
        Err(end_of_stream())
    } else if t[0] is Label {
        Ok(
            built(
                t.drop_first(),
                e,
                ElementView::Pattern(next_index(e), PatternView::Decleration(seq![t[0]])),
            ),
        )
    } else if is_op(t[0], Op::ParenOpen) {
        match p_decls(t.drop_first(), Seq::empty()) {
            Ok((t1, decls)) => Ok(
                built(t1, e, ElementView::Pattern(next_index(e), PatternView::Decleration(decls))),
            ),
            Err(err) => Err(err),
        }
    } else if is_operator(t[0]) {
        Err(fail(pattern_end_msg()))
    } else {
        Err(fail("Expected a Decleration Pattern to assign an expression to in a let! statement."@))
    }
}

/// `pattern <op> expression`, as let! and render! have it.
pub open spec fn p_binding(
    t: Seq<TokenView>,
    e: Seq<ElementView>,
    op: Op,
    wrong_op: Seq<char>,
    not_op: Seq<char>,
) -> Result<(Seq<TokenView>, Seq<ElementView>, AstIndex, AstIndex), ParseFailure> {
    match p_pattern(t, e) {
        Err(err) => Err(err),
        Ok(pattern) => {
            let t1 = pattern.rest;
            if t1.len() == 0 {
                Err(end_of_stream())
            } else if is_op(t1[0], op) {
                match p_expression(t1.drop_first(), pattern.elements) {
                    Ok(expr) => Ok((expr.rest, expr.elements, pattern.index, expr.index)),
                    Err(err) => Err(err),
                }
            } else if is_operator(t1[0]) {
                Err(fail(wrong_op))
            } else {
                Err(fail(not_op))
            }
        },
    }
}

/// A statement: an action and what the action needs.
pub open spec fn p_statement(t: Seq<TokenView>, e: Seq<ElementView>) -> ParseResult {
    if t.len() == 0 {
        Err(end_of_stream())
    } else {
        match t[0] {
            TokenView::Action(Action::End, _) => Ok(
                built(t.drop_first(), e, ElementView::Statement(next_index(e), StatementView::End(t[0]))),
            ),
            TokenView::Action(Action::Let, _) => match p_binding(
                t.drop_first(),
                e,
                Op::Assign,
                "Expected assign operator."@,
                "Expected Operator(Assign)."@,
            ) {
                Ok((t1, e1, pattern, expr)) => Ok(
                    built(t1, e1, ElementView::Statement(next_index(e1), StatementView::Let(t[0], pattern, expr))),
                ),
                Err(err) => Err(err),
            },
            TokenView::Action(Action::Render, _) => match p_binding(
                t.drop_first(),
                e,
                Op::Each,
                "Expected each operator."@,
                "Expected Operator(Each)"@,
            ) {
                Ok((t1, e1, pattern, expr)) => Ok(
                    built(t1, e1, ElementView::Statement(next_index(e1), StatementView::Render(t[0], pattern, expr))),
                ),
                Err(err) => Err(err),
            },
            TokenView::Action(Action::Write, _) => match p_expression(t.drop_first(), e) {
                Ok(expr) => Ok(
                    built(
                        expr.rest,
                        expr.elements,
                        ElementView::Statement(next_index(expr.elements), StatementView::Write(t[0], expr.index)),
                    ),
                ),
                Err(err) => Err(err),
            },
            _ => Err(fail("Expected Action to start in Block"@)),
        }
    }
}

/// The kind of block that a statement makes.
pub open spec fn block_for(statement: StatementView, index: AstIndex) -> BlockView {
    match statement {
        StatementView::End(_) => BlockView::CodeClosing(index, None),
        StatementView::Let(_, _, _) => BlockView::CodeEnclosed(index, None),
        StatementView::Render(_, _, _) => BlockView::CodeUnclosed(index, Seq::empty(), None),
        StatementView::Write(_, _) => BlockView::CodeEnclosed(index, None),
    }
}

/// A code block: `{{`, a statement and `}}`.
pub open spec fn p_block_code(t: Seq<TokenView>, e: Seq<ElementView>) -> ParseResult {
    if t.len() == 0 {
        Err(end_of_stream())
    } else if !is_op(t[0], Op::BlockOpen) {
        Err(fail("Expected Operator(BlockOpen)"@))
    } else {
        match p_statement(t.drop_first(), e) {
            Err(err) => Err(err),
            Ok(stmt) => {
                let t1 = stmt.rest;
                if t1.len() == 0 {
                    Err(end_of_stream())
                } else if !is_op(t1[0], Op::BlockClose) {
                    Err(fail("Expected Operator(BlockClose)"@))
                } else if stmt.elements[stmt.index.0 as int] is Statement {
                    let statement = stmt.elements[stmt.index.0 as int]->Statement_1;
                    Ok(
                        built(
                            t1.drop_first(),
                            stmt.elements,
                            ElementView::Block(next_index(stmt.elements), block_for(statement, stmt.index)),
                        ),
                    )
                } else {
                    Err(fail("Expected to fetch a statement to derive the block type."@))
                }
            },
        }
    }
}

/// A block: a text block for a string literal, a code block otherwise.
pub open spec fn p_block(t: Seq<TokenView>, e: Seq<ElementView>) -> ParseResult {
    if t.len() == 0 {
        Err(end_of_stream())
    } else if t[0] is StringLiteral {
        Ok(
            built(
                t.drop_first(),
                e,
                ElementView::Block(next_index(e), BlockView::Text(t[0], None)),
            ),
        )
    } else {
        p_block_code(t, e)
    }
}

/// Links the block at `last` to the block at `next`.
pub open spec fn link(e: Seq<ElementView>, last: AstIndex, next: AstIndex) -> Result<Seq<ElementView>, ParseFailure> {
    if 0 <= last.0 < e.len() && e[last.0 as int] is Block {
        Ok(
            e.update(
                last.0 as int,
                ElementView::Block(e[last.0 as int]->Block_0, e[last.0 as int]->Block_1.with_next(Some(next))),
            ),
        )
    } else {
        Err(fail("Parser<parse>: last_idx does not point to a Block element."@))
    }
}

/// The blocks of the remaining tokens, each linked to the one before it; the
/// first block becomes the head.
pub open spec fn p_blocks(t: Seq<TokenView>, ast: AstView, last: Option<AstIndex>) -> Result<AstView, ParseFailure>
    decreases t.len(),
{
    if t.len() == 0 {
        Ok(ast)
    } else {
        match p_block(t, ast.elements) {
            Err(err) => Err(err),
            Ok(p) => if p.rest.len() < t.len() {
                match last {
                    Some(l) => match link(p.elements, l, p.index) {
                        Ok(e2) => p_blocks(p.rest, AstView { elements: e2, head: ast.head }, Some(p.index)),
                        Err(err) => Err(err),
                    },
                    None => p_blocks(p.rest, AstView { elements: p.elements, head: Some(p.index) }, Some(p.index)),
                }
            } else {
                Err(no_progress())
            },
        }
    }
}

/// The syntax tree of a sequence of tokens.
pub open spec fn spec_parse(t: Seq<TokenView>) -> Result<AstView, ParseFailure> {
    p_blocks(t, AstView { elements: Seq::empty(), head: None }, None)
}

} // verus!
