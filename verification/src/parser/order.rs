//! How the parser links the blocks it reads: in the order it reads them.
use vstd::prelude::*;

use crate::ast::{AstIndex, AstView, ElementView};
use crate::tokens::{Action, TokenView};
use crate::ast::shape::{arena_ok, labels_only};
use super::properties::{lemma_block, lemma_link, room};
use super::spec::{
    block_for, link, p_args, p_binding, p_block, p_block_code, p_blocks, p_expression, p_pattern, p_refs,
    p_statement, p_transforms, spec_parse,
};

verus! {

/// `e2` keeps the nodes of `e` in place and adds only nodes that are not
/// blocks.
pub open spec fn adds_no_block(e: Seq<ElementView>, e2: Seq<ElementView>) -> bool {
    &&& e.len() <= e2.len()
    &&& e2.take(e.len() as int) == e
    &&& forall|i: int| e.len() <= i < e2.len() ==> !(#[trigger] e2[i] is Block)
}

/// No block stands strictly between positions `i` and `j`.
pub open spec fn no_block_between(e: Seq<ElementView>, i: int, j: int) -> bool {
    forall|k: int| i < k < j && 0 <= k < e.len() ==> !(#[trigger] e[k] is Block)
}

/// The blocks of a tree are linked in the order of its arena: the head is
/// the first block, each block is followed by the next block of the arena,
/// and the last block by none; a tree without blocks has no head.
pub open spec fn linked_in_order(ast: AstView) -> bool {
    let e = ast.elements;
    &&& match ast.head {
        None => no_block_between(e, -1, e.len() as int),
        Some(h) => h.0 < e.len() && e[h.0 as int] is Block && no_block_between(e, -1, h.0 as int),
    }
    &&& forall|i: int|
        0 <= i < e.len() && #[trigger] e[i] is Block ==> match e[i]->Block_1.next() {
            None => no_block_between(e, i, e.len() as int),
            Some(j) => i < j.0 < e.len() && e[j.0 as int] is Block && no_block_between(e, i, j.0 as int),
        }
}

proof fn lemma_anb_refl(e: Seq<ElementView>)
    ensures
        adds_no_block(e, e),
{
    assert(e.take(e.len() as int) =~= e);
}

proof fn lemma_anb_push(e: Seq<ElementView>, el: ElementView)
    requires
        !(el is Block),
    ensures
        adds_no_block(e, e.push(el)),
{
    assert(e.push(el).take(e.len() as int) =~= e);
}

proof fn lemma_anb_trans(a: Seq<ElementView>, b: Seq<ElementView>, c: Seq<ElementView>)
    requires
        adds_no_block(a, b),
        adds_no_block(b, c),
    ensures
        adds_no_block(a, c),
{
    assert(c.take(a.len() as int) =~= b.take(a.len() as int));
    assert forall|i: int| a.len() <= i < c.len() implies !(#[trigger] c[i] is Block) by {
        if i < b.len() {
            assert(c[i] == c.take(b.len() as int)[i]);
            assert(!(b[i] is Block));
        }
    }
}

proof fn lemma_push_after(e: Seq<ElementView>, e1: Seq<ElementView>, el: ElementView)
    requires
        adds_no_block(e, e1),
        !(el is Block),
    ensures
        adds_no_block(e, e1.push(el)),
{
    lemma_anb_push(e1, el);
    lemma_anb_trans(e, e1, e1.push(el));
}

proof fn lemma_expression_nb(t: Seq<TokenView>, e: Seq<ElementView>)
    ensures
        p_expression(t, e) matches Ok(p) ==> adds_no_block(e, p.elements),
    decreases t.len(), 1int,
{
    if t.len() > 0 {
        if t[0] is StringLiteral || t[0] is NumberLiteral {
            lemma_transforms_nb(t.drop_first(), e, Seq::empty());
            if p_transforms(t.drop_first(), e, Seq::empty()) is Ok {
                let (t1, e1, trs) = p_transforms(t.drop_first(), e, Seq::empty())->Ok_0;
                lemma_push_after(
                    e,
                    e1,
                    ElementView::Expression(crate::ast::ast::next_index(e1), crate::ast::ExpressionView::Literal(t[0], trs)),
                );
            }
        } else if t[0] is Label {
            if p_refs(t.drop_first(), seq![t[0]]) is Ok {
                let (t1, refs) = p_refs(t.drop_first(), seq![t[0]])->Ok_0;
                if t1.len() < t.len() {
                    lemma_transforms_nb(t1, e, Seq::empty());
                    if p_transforms(t1, e, Seq::empty()) is Ok {
                        let (t2, e2, trs) = p_transforms(t1, e, Seq::empty())->Ok_0;
                        lemma_push_after(
                            e,
                            e2,
                            ElementView::Expression(
                                crate::ast::ast::next_index(e2),
                                crate::ast::ExpressionView::Reference(refs, trs),
                            ),
                        );
                    }
                }
            }
        }
    }
}

proof fn lemma_transforms_nb(t: Seq<TokenView>, e: Seq<ElementView>, trs: Seq<AstIndex>)
    ensures
        p_transforms(t, e, trs) matches Ok((_, e2, _)) ==> adds_no_block(e, e2),
    decreases t.len(), 0int,
{
    lemma_anb_refl(e);
    if t.len() > 2 && super::spec::is_op(t[0], crate::tokens::Op::Pipe) && t[1] is Label {
        let label = t[1];
        let t2 = t.drop_first().drop_first();
        if super::spec::is_op(t2[0], crate::tokens::Op::ParenOpen) {
            lemma_args_nb(t2.drop_first(), e, Seq::empty());
            if p_args(t2.drop_first(), e, Seq::empty()) is Ok {
                let (t3, e3, args) = p_args(t2.drop_first(), e, Seq::empty())->Ok_0;
                if t3.len() < t.len() {
                    let el = ElementView::Transform(
                        crate::ast::ast::next_index(e3),
                        crate::ast::TransformView { name: label, arguments: args },
                    );
                    lemma_push_after(e, e3, el);
                    lemma_transforms_nb(t3, e3.push(el), trs.push(crate::ast::ast::next_index(e3)));
                    if p_transforms(t3, e3.push(el), trs.push(crate::ast::ast::next_index(e3))) is Ok {
                        let e4 = p_transforms(t3, e3.push(el), trs.push(crate::ast::ast::next_index(e3)))->Ok_0.1;
                        lemma_anb_trans(e, e3.push(el), e4);
                    }
                }
            }
        } else {
            let el = ElementView::Transform(
                crate::ast::ast::next_index(e),
                crate::ast::TransformView { name: label, arguments: Seq::empty() },
            );
            lemma_anb_push(e, el);
            lemma_transforms_nb(t2, e.push(el), trs.push(crate::ast::ast::next_index(e)));
            if p_transforms(t2, e.push(el), trs.push(crate::ast::ast::next_index(e))) is Ok {
                let e4 = p_transforms(t2, e.push(el), trs.push(crate::ast::ast::next_index(e)))->Ok_0.1;
                lemma_anb_trans(e, e.push(el), e4);
            }
        }
    }
}

proof fn lemma_args_nb(t: Seq<TokenView>, e: Seq<ElementView>, args: Seq<AstIndex>)
    ensures
        p_args(t, e, args) matches Ok((_, e2, _)) ==> adds_no_block(e, e2),
    decreases t.len(), 2int,
{
    lemma_expression_nb(t, e);
    if p_expression(t, e) is Ok {
        let p = p_expression(t, e)->Ok_0;
        let args2 = args.push(p.index);
        let t1 = p.rest;
        if t1.len() > 0 && super::spec::is_op(t1[0], crate::tokens::Op::Comma) && t1.len() <= t.len() {
            lemma_args_nb(t1.drop_first(), p.elements, args2);
            if p_args(t1.drop_first(), p.elements, args2) is Ok {
                lemma_anb_trans(e, p.elements, p_args(t1.drop_first(), p.elements, args2)->Ok_0.1);
            }
        }
    }
}

proof fn lemma_pattern_nb(t: Seq<TokenView>, e: Seq<ElementView>)
    ensures
        p_pattern(t, e) matches Ok(p) ==> adds_no_block(e, p.elements),
{
    if p_pattern(t, e) is Ok {
        let p = p_pattern(t, e)->Ok_0;
        lemma_anb_push(e, p.elements.last());
        assert(p.elements == e.push(p.elements.last()));
    }
}

proof fn lemma_binding_nb(
    t: Seq<TokenView>,
    e: Seq<ElementView>,
    op: crate::tokens::Op,
    wrong_op: Seq<char>,
    not_op: Seq<char>,
)
    ensures
        p_binding(t, e, op, wrong_op, not_op) matches Ok((_, e2, _, _)) ==> adds_no_block(e, e2),
{
    lemma_pattern_nb(t, e);
    if p_pattern(t, e) is Ok {
        let pattern = p_pattern(t, e)->Ok_0;
        let t1 = pattern.rest;
        if t1.len() > 0 && super::spec::is_op(t1[0], op) {
            lemma_expression_nb(t1.drop_first(), pattern.elements);
            if p_expression(t1.drop_first(), pattern.elements) is Ok {
                lemma_anb_trans(e, pattern.elements, p_expression(t1.drop_first(), pattern.elements)->Ok_0.elements);
            }
        }
    }
}

proof fn lemma_statement_nb(t: Seq<TokenView>, e: Seq<ElementView>)
    ensures
        p_statement(t, e) matches Ok(p) ==> adds_no_block(e, p.elements),
{
    if t.len() > 0 && p_statement(t, e) is Ok {
        let p = p_statement(t, e)->Ok_0;
        let t1 = t.drop_first();
        match t[0] {
            TokenView::Action(Action::End, _) => {
                lemma_anb_push(e, p.elements.last());
                assert(p.elements == e.push(p.elements.last()));
            },
            TokenView::Action(Action::Let, _) => {
                lemma_binding_nb(t1, e, crate::tokens::Op::Assign, "Expected assign operator."@, "Expected Operator(Assign)."@);
                let e1 = p_binding(t1, e, crate::tokens::Op::Assign, "Expected assign operator."@, "Expected Operator(Assign)."@)->Ok_0.1;
                lemma_push_after(e, e1, p.elements.last());
                assert(p.elements == e1.push(p.elements.last()));
            },
            TokenView::Action(Action::Render, _) => {
                lemma_binding_nb(t1, e, crate::tokens::Op::Each, "Expected each operator."@, "Expected Operator(Each)"@);
                let e1 = p_binding(t1, e, crate::tokens::Op::Each, "Expected each operator."@, "Expected Operator(Each)"@)->Ok_0.1;
                lemma_push_after(e, e1, p.elements.last());
                assert(p.elements == e1.push(p.elements.last()));
            },
            TokenView::Action(Action::Write, _) => {
                lemma_expression_nb(t1, e);
                let e1 = p_expression(t1, e)->Ok_0.elements;
                lemma_push_after(e, e1, p.elements.last());
                assert(p.elements == e1.push(p.elements.last()));
            },
            _ => {},
        }
    }
}

/// A block read from `t` is one block, put last, with no block after it,
/// after nodes that are not blocks.
proof fn lemma_block_shape(t: Seq<TokenView>, e: Seq<ElementView>)
    requires
        p_block(t, e) matches Ok(p) ==> p.elements.len() <= usize::MAX,
    ensures
        p_block(t, e) matches Ok(p) ==> {
            &&& p.elements.len() > 0
            &&& p.index.0 == p.elements.len() - 1
            &&& p.elements.last() is Block
            &&& p.elements.last()->Block_1.next() is None
            &&& adds_no_block(e, p.elements.drop_last())
        },
{
    if t.len() > 0 && p_block(t, e) is Ok {
        let p = p_block(t, e)->Ok_0;
        if t[0] is StringLiteral {
            assert(p.elements.drop_last() == e);
            lemma_anb_refl(e);
        } else {
            lemma_statement_nb(t.drop_first(), e);
            let stmt = p_statement(t.drop_first(), e)->Ok_0;
            assert(p.elements.drop_last() == stmt.elements);
            let statement = stmt.elements[stmt.index.0 as int]->Statement_1;
            assert(block_for(statement, stmt.index).next() is None);
        }
    }
}

/// What holds of the tree between the blocks the parser reads: the blocks
/// so far are linked in order, the last one read is the last block of the
/// arena, and the head is set once a block has been read.
pub open spec fn chain_so_far(ast: AstView, last: Option<AstIndex>) -> bool {
    &&& linked_in_order(ast)
    &&& match last {
        None => ast.head is None,
        Some(l) => l.0 < ast.elements.len() && ast.elements[l.0 as int] is Block && no_block_between(
            ast.elements,
            l.0 as int,
            ast.elements.len() as int,
        ),
    }
}

proof fn lemma_blocks_order(t: Seq<TokenView>, ast: AstView, last: Option<AstIndex>)
    requires
        chain_so_far(ast, last),
        arena_ok(ast.elements),
        labels_only(ast.elements),
        room(ast.elements, t),
    ensures
        p_blocks(t, ast, last) matches Ok(tree) ==> linked_in_order(tree) && (tree.head is None <==> (
        ast.head is None && t.len() == 0)),
    decreases t.len(),
{
    if t.len() > 0 && p_block(t, ast.elements) is Ok {
        let e = ast.elements;
        let p = p_block(t, e)->Ok_0;
        lemma_block(t, e);
        lemma_block_shape(t, e);
        let e1 = p.elements;
        let idx = p.index;
        let n1 = e1.len();
        assert forall|k: int| 0 <= k < e.len() implies e1[k] == e[k] by {
            assert(e1[k] == e1.drop_last()[k]);
            assert(e1.drop_last()[k] == e1.drop_last().take(e.len() as int)[k]);
        }
        assert forall|k: int| e.len() <= k < idx.0 implies !(#[trigger] e1[k] is Block) by {
            assert(e1[k] == e1.drop_last()[k]);
        }
        if p.rest.len() < t.len() {
            match last {
                Some(l) => {
                    lemma_link(e1, l, idx);
                    if link(e1, l, idx) is Ok {
                        let e2 = link(e1, l, idx)->Ok_0;
                        let tree2 = AstView { elements: e2, head: ast.head };
                        assert(e2.len() == n1);
                        assert forall|k: int| 0 <= k < n1 && k != l.0 implies e2[k] == e1[k] by {}
                        assert(chain_so_far(tree2, Some(idx))) by {
                            assert forall|i: int| 0 <= i < n1 && #[trigger] e2[i] is Block implies match e2[i]->Block_1.next() {
                                None => no_block_between(e2, i, n1 as int),
                                Some(j) => i < j.0 < n1 && e2[j.0 as int] is Block && no_block_between(e2, i, j.0 as int),
                            } by {
                                if i == l.0 {
                                } else if i == idx.0 {
                                } else {
                                    assert(i < e.len());
                                    assert(e[i] is Block);
                                    assert(i < l.0);
                                    match e[i]->Block_1.next() {
                                        None => {
                                            assert(!(e[l.0 as int] is Block));
                                        },
                                        Some(j) => {
                                            assert(j.0 <= l.0);
                                        },
                                    }
                                }
                            }
                        }
                        lemma_blocks_order(p.rest, tree2, Some(idx));
                    }
                },
                None => {
                    let tree2 = AstView { elements: e1, head: Some(idx) };
                    assert(chain_so_far(tree2, Some(idx))) by {
                        assert forall|i: int| 0 <= i < n1 && #[trigger] e1[i] is Block implies i == idx.0 by {
                            if i < e.len() {
                                assert(!(e[i] is Block));
                            }
                        }
                    }
                    lemma_blocks_order(p.rest, tree2, Some(idx));
                },
            }
        }
    }
}

/// The parser links the blocks of a tree in the order it reads them: the
/// head is the first block read, each block is followed by the block read
/// after it, and the last block by none. A tree has a head exactly when
/// there were tokens to read.
pub proof fn lemma_parsed_blocks_in_order(tokens: Seq<TokenView>)
    requires
        tokens.len() <= usize::MAX,
    ensures
        spec_parse(tokens) matches Ok(ast) ==> linked_in_order(ast) && (ast.head is None <==> tokens.len() == 0),
{
    let empty = AstView { elements: Seq::empty(), head: None };
    lemma_blocks_order(tokens, empty, None);
}

} // verus!
