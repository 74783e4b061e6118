//! What the parser promises of every tree it builds.
use vstd::prelude::*;

use crate::ast::{AstIndex, AstView, BlockView, ElementView};
use crate::ast::ast::next_index;
use crate::ast::shape::{
    all_in, all_labels, arena_ok, block_in, element_in, option_in, names_are_labels, labels_only, well_formed,
};
use crate::tokens::TokenView;
use super::spec::{
    block_for, link, p_args, p_binding, p_block, p_blocks, p_decls, p_expression,
    p_pattern, p_refs, p_statement, p_transforms, spec_parse,
};

verus! {

/// Room for `t.len()` more nodes in the arena.
pub open spec fn room(e: Seq<ElementView>, t: Seq<TokenView>) -> bool {
    e.len() + t.len() <= usize::MAX
}

/// A rule that read from `t` into `e` and left `t2` and `e2` added at most
/// one node per token it read.
pub open spec fn grew(e: Seq<ElementView>, t: Seq<TokenView>, e2: Seq<ElementView>, t2: Seq<TokenView>) -> bool {
    e.len() <= e2.len() && e2.len() + t2.len() <= e.len() + t.len()
}

proof fn lemma_element_in_grows(el: ElementView, n: nat, m: nat)
    requires
        element_in(el, n),
        n <= m,
    ensures
        element_in(el, m),
{
}

/// Appending a node that knows its position and refers into the arena keeps
/// the arena well formed.
proof fn lemma_push(e: Seq<ElementView>, el: ElementView)
    requires
        arena_ok(e),
        e.len() < usize::MAX,
        el.index() == next_index(e),
        element_in(el, e.len()),
    ensures
        arena_ok(e.push(el)),
        labels_only(e) && names_are_labels(el) ==> labels_only(e.push(el)),
{
    let e2 = e.push(el);
    if labels_only(e) && names_are_labels(el) {
        assert forall|i: int| 0 <= i < e2.len() implies #[trigger] names_are_labels(e2[i]) by {
            if i < e.len() {
                assert(e2[i] == e[i]);
            }
        }
    }
    assert forall|i: int| 0 <= i < e2.len() implies #[trigger] element_in(e2[i], e2.len()) by {
        if i < e.len() {
            assert(e2[i] == e[i]);
            assert(element_in(e[i], e.len()));
            lemma_element_in_grows(e[i], e.len(), e2.len());
        } else {
            lemma_element_in_grows(el, e.len(), e2.len());
        }
    }
    assert forall|i: int| 0 <= i < e2.len() implies (#[trigger] e2[i]).index().0 == i by {
        if i < e.len() {
            assert(e2[i] == e[i]);
        }
    }
}

proof fn lemma_all_in_grows(idxs: Seq<AstIndex>, n: nat, m: nat)
    requires
        all_in(idxs, n),
        n <= m,
    ensures
        all_in(idxs, m),
{
}

proof fn lemma_refs_shrink(t: Seq<TokenView>, refs: Seq<TokenView>)
    ensures
        p_refs(t, refs) matches Ok((t2, _)) ==> t2.len() <= t.len(),
    decreases t.len(),
{
    if t.len() > 1 {
        lemma_refs_shrink(t.drop_first().drop_first(), refs.push(t.drop_first()[0]));
    }
}

proof fn lemma_decls_shrink(t: Seq<TokenView>, decls: Seq<TokenView>)
    ensures
        p_decls(t, decls) matches Ok((t2, _)) ==> t2.len() < t.len(),
    decreases t.len(),
{
    if t.len() > 1 {
        lemma_decls_shrink(t.drop_first().drop_first(), decls.push(t[0]));
    }
}

proof fn lemma_refs_named(t: Seq<TokenView>, refs: Seq<TokenView>)
    requires
        all_labels(refs),
    ensures
        p_refs(t, refs) matches Ok((_, r)) ==> all_labels(r) && r.len() >= refs.len(),
    decreases t.len(),
{
    if t.len() > 1 && t.drop_first()[0] is Label {
        let refs2 = refs.push(t.drop_first()[0]);
        assert(all_labels(refs2)) by {
            assert forall|i: int| 0 <= i < refs2.len() implies #[trigger] refs2[i] is Label by {
                if i < refs.len() {
                    assert(refs2[i] == refs[i]);
                }
            }
        }
        lemma_refs_named(t.drop_first().drop_first(), refs2);
    }
}

proof fn lemma_decls_named(t: Seq<TokenView>, decls: Seq<TokenView>)
    requires
        all_labels(decls),
    ensures
        p_decls(t, decls) matches Ok((_, d)) ==> all_labels(d),
    decreases t.len(),
{
    if t.len() > 0 && t[0] is Label {
        let decls2 = decls.push(t[0]);
        assert(all_labels(decls2)) by {
            assert forall|i: int| 0 <= i < decls2.len() implies #[trigger] decls2[i] is Label by {
                if i < decls.len() {
                    assert(decls2[i] == decls[i]);
                }
            }
        }
        if t.len() > 1 {
            lemma_decls_named(t.drop_first().drop_first(), decls2);
        }
    }
}

proof fn lemma_expression(t: Seq<TokenView>, e: Seq<ElementView>)
    requires
        arena_ok(e),
        labels_only(e),
        room(e, t),
    ensures
        p_expression(t, e) matches Ok(p) ==> arena_ok(p.elements) && labels_only(p.elements) && p.index.0
            < p.elements.len() && grew(
            e,
            t,
            p.elements,
            p.rest,
        ),
    decreases t.len(), 1int,
{
    if t.len() > 0 {
        if t[0] is StringLiteral || t[0] is NumberLiteral {
            lemma_transforms(t.drop_first(), e, Seq::empty());
            if p_transforms(t.drop_first(), e, Seq::empty()) is Ok {
                let (t1, e1, trs) = p_transforms(t.drop_first(), e, Seq::empty())->Ok_0;
                lemma_push(e1, ElementView::Expression(next_index(e1), crate::ast::ExpressionView::Literal(t[0], trs)));
            }
        } else if t[0] is Label {
            lemma_refs_shrink(t.drop_first(), seq![t[0]]);
            assert(all_labels(seq![t[0]]));
            lemma_refs_named(t.drop_first(), seq![t[0]]);
            if p_refs(t.drop_first(), seq![t[0]]) is Ok {
                let (t1, refs) = p_refs(t.drop_first(), seq![t[0]])->Ok_0;
                if t1.len() < t.len() {
                    lemma_transforms(t1, e, Seq::empty());
                    if p_transforms(t1, e, Seq::empty()) is Ok {
                        let (t2, e2, trs) = p_transforms(t1, e, Seq::empty())->Ok_0;
                        lemma_push(
                            e2,
                            ElementView::Expression(next_index(e2), crate::ast::ExpressionView::Reference(refs, trs)),
                        );
                    }
                }
            }
        }
    }
}

proof fn lemma_transforms(t: Seq<TokenView>, e: Seq<ElementView>, trs: Seq<AstIndex>)
    requires
        arena_ok(e),
        labels_only(e),
        room(e, t),
        all_in(trs, e.len()),
    ensures
        p_transforms(t, e, trs) matches Ok((t2, e2, trs2)) ==> arena_ok(e2) && labels_only(e2) && all_in(
            trs2,
            e2.len(),
        ) && grew(
            e,
            t,
            e2,
            t2,
        ),
    decreases t.len(), 0int,
{
    if t.len() > 2 && super::spec::is_op(t[0], crate::tokens::Op::Pipe) && t[1] is Label {
        let label = t[1];
        let t2 = t.drop_first().drop_first();
        if super::spec::is_op(t2[0], crate::tokens::Op::ParenOpen) {
            lemma_args(t2.drop_first(), e, Seq::empty());
            if p_args(t2.drop_first(), e, Seq::empty()) is Ok {
                let (t3, e3, args) = p_args(t2.drop_first(), e, Seq::empty())->Ok_0;
                if t3.len() < t.len() {
                    let el = ElementView::Transform(
                        next_index(e3),
                        crate::ast::TransformView { name: label, arguments: args },
                    );
                    lemma_push(e3, el);
                    lemma_all_in_grows(trs, e.len(), e3.len() + 1);
                    assert(all_in(trs.push(next_index(e3)), e3.len() + 1));
                    lemma_transforms(t3, e3.push(el), trs.push(next_index(e3)));
                }
            }
        } else {
            let el = ElementView::Transform(
                next_index(e),
                crate::ast::TransformView { name: label, arguments: Seq::empty() },
            );
            lemma_push(e, el);
            lemma_all_in_grows(trs, e.len(), e.len() + 1);
            assert(all_in(trs.push(next_index(e)), e.len() + 1));
            lemma_transforms(t2, e.push(el), trs.push(next_index(e)));
        }
    }
}

proof fn lemma_args(t: Seq<TokenView>, e: Seq<ElementView>, args: Seq<AstIndex>)
    requires
        arena_ok(e),
        labels_only(e),
        room(e, t),
        all_in(args, e.len()),
    ensures
        p_args(t, e, args) matches Ok((t2, e2, args2)) ==> arena_ok(e2) && labels_only(e2) && all_in(
            args2,
            e2.len(),
        ) && grew(
            e,
            t,
            e2,
            t2,
        ),
    decreases t.len(), 2int,
{
    lemma_expression(t, e);
    if p_expression(t, e) is Ok {
        let p = p_expression(t, e)->Ok_0;
        let args2 = args.push(p.index);
        lemma_all_in_grows(args, e.len(), p.elements.len());
        assert(all_in(args2, p.elements.len()));
        let t1 = p.rest;
        if t1.len() > 0 && super::spec::is_op(t1[0], crate::tokens::Op::Comma) && t1.len() <= t.len() {
            lemma_args(t1.drop_first(), p.elements, args2);
        }
    }
}

} // verus!

verus! {

proof fn lemma_pattern(t: Seq<TokenView>, e: Seq<ElementView>)
    requires
        arena_ok(e),
        labels_only(e),
        room(e, t),
    ensures
        p_pattern(t, e) matches Ok(p) ==> arena_ok(p.elements) && labels_only(p.elements) && p.index.0
            < p.elements.len() && grew(
            e,
            t,
            p.elements,
            p.rest,
        ),
{
    if t.len() > 0 {
        if t[0] is Label {
            assert(all_labels(seq![t[0]]));
            lemma_push(e, ElementView::Pattern(next_index(e), crate::ast::PatternView::Decleration(seq![t[0]])));
        } else if super::spec::is_op(t[0], crate::tokens::Op::ParenOpen) {
            lemma_decls_shrink(t.drop_first(), Seq::empty());
            lemma_decls_named(t.drop_first(), Seq::empty());
            if p_decls(t.drop_first(), Seq::empty()) is Ok {
                let (t1, decls) = p_decls(t.drop_first(), Seq::empty())->Ok_0;
                lemma_push(e, ElementView::Pattern(next_index(e), crate::ast::PatternView::Decleration(decls)));
            }
        }
    }
}

proof fn lemma_binding(
    t: Seq<TokenView>,
    e: Seq<ElementView>,
    op: crate::tokens::Op,
    wrong_op: Seq<char>,
    not_op: Seq<char>,
)
    requires
        arena_ok(e),
        labels_only(e),
        room(e, t),
    ensures
        p_binding(t, e, op, wrong_op, not_op) matches Ok((t2, e2, pattern, expr)) ==> arena_ok(e2)
            && labels_only(e2) && pattern.0 < e2.len() && expr.0 < e2.len() && grew(e, t, e2, t2),
{
    lemma_pattern(t, e);
    if p_pattern(t, e) is Ok {
        let pattern = p_pattern(t, e)->Ok_0;
        let t1 = pattern.rest;
        if t1.len() > 0 && super::spec::is_op(t1[0], op) {
            lemma_expression(t1.drop_first(), pattern.elements);
        }
    }
}

proof fn lemma_statement(t: Seq<TokenView>, e: Seq<ElementView>)
    requires
        arena_ok(e),
        labels_only(e),
        room(e, t),
    ensures
        p_statement(t, e) matches Ok(p) ==> arena_ok(p.elements) && labels_only(p.elements) && p.index.0
            < p.elements.len()
            && p.elements[p.index.0 as int] is Statement && grew(e, t, p.elements, p.rest),
{
    if t.len() > 0 {
        let t1 = t.drop_first();
        match t[0] {
            TokenView::Action(crate::tokens::Action::End, _) => {
                lemma_push(e, ElementView::Statement(next_index(e), crate::ast::StatementView::End(t[0])));
            },
            TokenView::Action(crate::tokens::Action::Let, _) => {
                let r = p_binding(t1, e, crate::tokens::Op::Assign, "Expected assign operator."@, "Expected Operator(Assign)."@);
                lemma_binding(t1, e, crate::tokens::Op::Assign, "Expected assign operator."@, "Expected Operator(Assign)."@);
                if r is Ok {
                    let (t2, e2, pattern, expr) = r->Ok_0;
                    lemma_push(e2, ElementView::Statement(next_index(e2), crate::ast::StatementView::Let(t[0], pattern, expr)));
                }
            },
            TokenView::Action(crate::tokens::Action::Render, _) => {
                let r = p_binding(t1, e, crate::tokens::Op::Each, "Expected each operator."@, "Expected Operator(Each)"@);
                lemma_binding(t1, e, crate::tokens::Op::Each, "Expected each operator."@, "Expected Operator(Each)"@);
                if r is Ok {
                    let (t2, e2, pattern, expr) = r->Ok_0;
                    lemma_push(
                        e2,
                        ElementView::Statement(next_index(e2), crate::ast::StatementView::Render(t[0], pattern, expr)),
                    );
                }
            },
            TokenView::Action(crate::tokens::Action::Write, _) => {
                lemma_expression(t1, e);
                if p_expression(t1, e) is Ok {
                    let x = p_expression(t1, e)->Ok_0;
                    lemma_push(
                        x.elements,
                        ElementView::Statement(next_index(x.elements), crate::ast::StatementView::Write(t[0], x.index)),
                    );
                }
            },
            _ => {},
        }
    }
}

pub(crate) proof fn lemma_block(t: Seq<TokenView>, e: Seq<ElementView>)
    requires
        arena_ok(e),
        labels_only(e),
        room(e, t),
    ensures
        p_block(t, e) matches Ok(p) ==> arena_ok(p.elements) && labels_only(p.elements) && p.index.0
            < p.elements.len()
            && p.elements[p.index.0 as int] is Block && grew(e, t, p.elements, p.rest),
{
    if t.len() > 0 {
        if t[0] is StringLiteral {
            lemma_push(e, ElementView::Block(next_index(e), BlockView::Text(t[0], None)));
        } else if super::spec::is_op(t[0], crate::tokens::Op::BlockOpen) {
            lemma_statement(t.drop_first(), e);
            if p_statement(t.drop_first(), e) is Ok {
                let stmt = p_statement(t.drop_first(), e)->Ok_0;
                let statement = stmt.elements[stmt.index.0 as int]->Statement_1;
                lemma_push(
                    stmt.elements,
                    ElementView::Block(next_index(stmt.elements), block_for(statement, stmt.index)),
                );
            }
        }
    }
}

pub(crate) proof fn lemma_link(e: Seq<ElementView>, last: AstIndex, next: AstIndex)
    requires
        arena_ok(e),
        next.0 < e.len(),
    ensures
        link(e, last, next) matches Ok(e2) ==> arena_ok(e2) && e2.len() == e.len() && (labels_only(e)
            ==> labels_only(e2)),
{
    if 0 <= last.0 < e.len() && e[last.0 as int] is Block {
        let e2 = link(e, last, next)->Ok_0;
        let b = e[last.0 as int]->Block_1;
        assert(element_in(e[last.0 as int], e.len()));
        assert(block_in(b.with_next(Some(next)), e.len()));
        assert forall|i: int| 0 <= i < e2.len() implies #[trigger] element_in(e2[i], e2.len()) by {
            if i != last.0 {
                assert(e2[i] == e[i]);
            }
        }
        assert forall|i: int| 0 <= i < e2.len() implies (#[trigger] e2[i]).index().0 == i by {
            if i != last.0 {
                assert(e2[i] == e[i]);
            }
        }
        if labels_only(e) {
            assert forall|i: int| 0 <= i < e2.len() implies #[trigger] names_are_labels(e2[i]) by {
                if i != last.0 {
                    assert(e2[i] == e[i]);
                }
            }
        }
    }
}

proof fn lemma_blocks(t: Seq<TokenView>, ast: AstView, last: Option<AstIndex>)
    requires
        arena_ok(ast.elements),
        labels_only(ast.elements),
        room(ast.elements, t),
        option_in(ast.head, ast.elements.len()),
        option_in(last, ast.elements.len()),
    ensures
        p_blocks(t, ast, last) matches Ok(tree) ==> well_formed(tree) && labels_only(tree.elements),
    decreases t.len(),
{
    if t.len() > 0 {
        lemma_block(t, ast.elements);
        if p_block(t, ast.elements) is Ok {
            let p = p_block(t, ast.elements)->Ok_0;
            if p.rest.len() < t.len() {
                match last {
                    Some(l) => {
                        lemma_link(p.elements, l, p.index);
                        if link(p.elements, l, p.index) is Ok {
                            let e2 = link(p.elements, l, p.index)->Ok_0;
                            lemma_blocks(p.rest, AstView { elements: e2, head: ast.head }, Some(p.index));
                        }
                    },
                    None => {
                        lemma_blocks(p.rest, AstView { elements: p.elements, head: Some(p.index) }, Some(p.index));
                    },
                }
            }
        }
    }
}

/// Every tree the parser builds is well formed: each node sits at the
/// position it names as its own, and every index in the tree, the head's
/// included, points to a node of the tree. So every such tree can be printed.
pub proof fn lemma_parse_well_formed(tokens: Seq<TokenView>)
    requires
        tokens.len() <= usize::MAX,
    ensures
        spec_parse(tokens) matches Ok(ast) ==> well_formed(ast),
{
    lemma_blocks(tokens, AstView { elements: Seq::empty(), head: None }, None);
}

/// Every name the parser puts in a tree is a label: the names a pattern
/// declares, and the names a reference follows, of which it has at least one.
pub proof fn lemma_parsed_names_are_labels(tokens: Seq<TokenView>)
    requires
        tokens.len() <= usize::MAX,
    ensures
        spec_parse(tokens) matches Ok(ast) ==> labels_only(ast.elements),
{
    lemma_blocks(tokens, AstView { elements: Seq::empty(), head: None }, None);
}

} // verus!

verus! {

/// A pipe chain is read to its end: when the transformations after an
/// expression are read, what is left never starts with another `|`, and every
/// transformation read before stays in the list, in its place.
pub proof fn lemma_transform_chain_is_read_to_its_end(t: Seq<TokenView>, e: Seq<ElementView>, trs: Seq<AstIndex>)
    ensures
        p_transforms(t, e, trs) matches Ok((rest, _, all)) ==> {
            &&& rest.len() > 0
            &&& !super::spec::is_op(rest[0], crate::tokens::Op::Pipe)
            &&& all.len() >= trs.len()
            &&& all.take(trs.len() as int) == trs
        },
    decreases t.len(),
{
    if t.len() > 0 && super::spec::is_op(t[0], crate::tokens::Op::Pipe) {
        let t1 = t.drop_first();
        if t1.len() > 0 && t1[0] is Label {
            let t2 = t1.drop_first();
            if t2.len() > 0 {
                if super::spec::is_op(t2[0], crate::tokens::Op::ParenOpen) {
                    match p_args(t2.drop_first(), e, Seq::empty()) {
                        Ok((t3, e3, args)) => if t3.len() < t.len() {
                            let trs3 = trs.push(next_index(e3));
                            lemma_transform_chain_is_read_to_its_end(
                                t3,
                                e3.push(
                                    ElementView::Transform(
                                        next_index(e3),
                                        crate::ast::TransformView { name: t1[0], arguments: args },
                                    ),
                                ),
                                trs3,
                            );
                            if p_transforms(t, e, trs) is Ok {
                                let all = p_transforms(t, e, trs)->Ok_0.2;
                                assert(all.take(trs.len() as int) =~= all.take(trs3.len() as int).take(trs.len() as int));
                                assert(trs3.take(trs.len() as int) =~= trs);
                            }
                        },
                        Err(_) => {},
                    }
                } else {
                    let trs3 = trs.push(next_index(e));
                    lemma_transform_chain_is_read_to_its_end(
                        t2,
                        e.push(
                            ElementView::Transform(
                                next_index(e),
                                crate::ast::TransformView { name: t1[0], arguments: Seq::empty() },
                            ),
                        ),
                        trs3,
                    );
                    if p_transforms(t, e, trs) is Ok {
                        let all = p_transforms(t, e, trs)->Ok_0.2;
                        assert(all.take(trs.len() as int) =~= all.take(trs3.len() as int).take(trs.len() as int));
                        assert(trs3.take(trs.len() as int) =~= trs);
                    }
                }
            }
        }
    } else if t.len() > 0 {
        assert(trs.take(trs.len() as int) =~= trs);
    }
}

} // verus!

verus! {

/// The depth of parentheses after `tk`, from depth `d`.
pub open spec fn paren_step(tk: TokenView, d: int) -> int {
    if super::spec::is_op(tk, crate::tokens::Op::ParenOpen) {
        d + 1
    } else if super::spec::is_op(tk, crate::tokens::Op::ParenClose) {
        d - 1
    } else {
        d
    }
}

/// The depth of parentheses after the tokens `u`, from depth `d`.
pub open spec fn paren_depth(u: Seq<TokenView>, d: int) -> int
    decreases u.len(),
{
    if u.len() == 0 {
        d
    } else {
        paren_depth(u.drop_first(), paren_step(u[0], d))
    }
}

/// How many `|` of the tokens `u`, read from depth `d`, stand outside every
/// parenthesis.
pub open spec fn top_pipes(u: Seq<TokenView>, d: int) -> nat
    decreases u.len(),
{
    if u.len() == 0 {
        0
    } else {
        (if d == 0 && super::spec::is_op(u[0], crate::tokens::Op::Pipe) {
            1nat
        } else {
            0nat
        }) + top_pipes(u.drop_first(), paren_step(u[0], d))
    }
}

/// The tokens read from `t` when `rest` is left.
pub open spec fn consumed(t: Seq<TokenView>, rest: Seq<TokenView>) -> Seq<TokenView> {
    t.take(t.len() - rest.len())
}

proof fn lemma_tops_concat(a: Seq<TokenView>, b: Seq<TokenView>, d: int)
    ensures
        top_pipes(a + b, d) == top_pipes(a, d) + top_pipes(b, paren_depth(a, d)),
        paren_depth(a + b, d) == paren_depth(b, paren_depth(a, d)),
    decreases a.len(),
{
    if a.len() == 0 {
        assert(a + b =~= b);
    } else {
        assert((a + b).drop_first() =~= a.drop_first() + b);
        lemma_tops_concat(a.drop_first(), b, paren_step(a[0], d));
    }
}

proof fn lemma_tops_one(x: TokenView, d: int)
    ensures
        top_pipes(seq![x], d) == (if d == 0 && super::spec::is_op(x, crate::tokens::Op::Pipe) {
            1nat
        } else {
            0nat
        }),
        paren_depth(seq![x], d) == paren_step(x, d),
{
    let u = seq![x];
    assert(u.len() == 1 && u[0] == x);
    assert(u.drop_first() =~= Seq::<TokenView>::empty());
    assert(top_pipes(u.drop_first(), paren_step(x, d)) == 0);
    assert(paren_depth(u.drop_first(), paren_step(x, d)) == paren_step(x, d));
}

proof fn lemma_consumed_split(t: Seq<TokenView>, mid: Seq<TokenView>, rest: Seq<TokenView>)
    requires
        super::spec::rest_of(t, mid),
        super::spec::rest_of(mid, rest),
    ensures
        super::spec::rest_of(t, rest),
        consumed(t, rest) == consumed(t, mid) + consumed(mid, rest),
{
    assert(rest =~= t.skip(t.len() - rest.len()));
    assert(consumed(t, rest) =~= consumed(t, mid) + consumed(mid, rest));
}

proof fn lemma_consumed_first(t: Seq<TokenView>)
    requires
        t.len() > 0,
    ensures
        super::spec::rest_of(t, t.drop_first()),
        consumed(t, t.drop_first()) == seq![t[0]],
{
    assert(t.drop_first() =~= t.skip(1));
    assert(consumed(t, t.drop_first()) =~= seq![t[0]]);
}

proof fn lemma_consumed_none(t: Seq<TokenView>)
    ensures
        super::spec::rest_of(t, t),
        consumed(t, t) == Seq::<TokenView>::empty(),
{
    assert(t.skip(0) =~= t);
    assert(consumed(t, t) =~= Seq::<TokenView>::empty());
}

proof fn lemma_refs_tops(t: Seq<TokenView>, refs: Seq<TokenView>, d: int)
    ensures
        p_refs(t, refs) matches Ok((rest, _)) ==> {
            &&& super::spec::rest_of(t, rest)
            &&& top_pipes(consumed(t, rest), d) == 0 && paren_depth(consumed(t, rest), d) == d
        },
    decreases t.len(),
{
    lemma_consumed_none(t);
    if t.len() > 1 && super::spec::is_op(t[0], crate::tokens::Op::Dot) && t.drop_first()[0] is Label {
        let t1 = t.drop_first();
        let t2 = t1.drop_first();
        lemma_refs_tops(t2, refs.push(t1[0]), d);
        if p_refs(t, refs) is Ok {
            let rest = p_refs(t, refs)->Ok_0.0;
            lemma_consumed_first(t);
            lemma_consumed_first(t1);
            lemma_consumed_split(t1, t2, rest);
            lemma_consumed_split(t, t1, rest);
            lemma_tops_one(t[0], d);
            lemma_tops_one(t1[0], d);
            lemma_tops_concat(seq![t1[0]], consumed(t2, rest), d);
            lemma_tops_concat(seq![t[0]], consumed(t1, rest), d);
        }
    }
}

proof fn lemma_expression_tops(t: Seq<TokenView>, e: Seq<ElementView>, d: int)
    requires
        d >= 1,
    ensures
        p_expression(t, e) matches Ok(p) ==> {
            &&& super::spec::rest_of(t, p.rest)
            &&& top_pipes(consumed(t, p.rest), d) == 0 && paren_depth(consumed(t, p.rest), d) == d
        },
    decreases t.len(), 1int,
{
    if t.len() > 0 && p_expression(t, e) is Ok {
        let p = p_expression(t, e)->Ok_0;
        let t1 = t.drop_first();
        lemma_consumed_first(t);
        lemma_tops_one(t[0], d);
        if t[0] is StringLiteral || t[0] is NumberLiteral {
            lemma_transforms_tops(t1, e, Seq::empty(), d);
            lemma_consumed_split(t, t1, p.rest);
            lemma_tops_concat(seq![t[0]], consumed(t1, p.rest), d);
        } else {
            let (r1, refs) = p_refs(t1, seq![t[0]])->Ok_0;
            lemma_refs_tops(t1, seq![t[0]], d);
            lemma_transforms_tops(r1, e, Seq::empty(), d);
            lemma_consumed_split(t1, r1, p.rest);
            lemma_consumed_split(t, t1, p.rest);
            lemma_tops_concat(consumed(t1, r1), consumed(r1, p.rest), d);
            lemma_tops_concat(seq![t[0]], consumed(t1, p.rest), d);
        }
    }
}

proof fn lemma_transforms_tops(t: Seq<TokenView>, e: Seq<ElementView>, trs: Seq<AstIndex>, d: int)
    requires
        d >= 0,
    ensures
        p_transforms(t, e, trs) matches Ok((rest, _, all)) ==> {
            &&& super::spec::rest_of(t, rest)
            &&& paren_depth(consumed(t, rest), d) == d
            &&& all.len() >= trs.len()
            &&& top_pipes(consumed(t, rest), d) == (if d == 0 {
                (all.len() - trs.len()) as nat
            } else {
                0nat
            })
        },
    decreases t.len(), 0int,
{
    lemma_consumed_none(t);
    if t.len() > 2 && super::spec::is_op(t[0], crate::tokens::Op::Pipe) && t.drop_first()[0] is Label && p_transforms(
        t,
        e,
        trs,
    ) is Ok {
        let (rest, _, all) = p_transforms(t, e, trs)->Ok_0;
        let t1 = t.drop_first();
        let t2 = t1.drop_first();
        let label = t1[0];
        lemma_consumed_first(t);
        lemma_consumed_first(t1);
        lemma_tops_one(t[0], d);
        lemma_tops_one(t1[0], d);
        if super::spec::is_op(t2[0], crate::tokens::Op::ParenOpen) {
            let t2a = t2.drop_first();
            let (t3, e3, args) = p_args(t2a, e, Seq::empty())->Ok_0;
            let el = ElementView::Transform(next_index(e3), crate::ast::TransformView { name: label, arguments: args });
            lemma_args_tops(t2a, e, Seq::empty(), d + 1);
            lemma_transforms_tops(t3, e3.push(el), trs.push(next_index(e3)), d);
            lemma_consumed_first(t2);
            lemma_tops_one(t2[0], d);
            lemma_consumed_split(t2a, t3, rest);
            lemma_consumed_split(t2, t2a, rest);
            lemma_consumed_split(t1, t2, rest);
            lemma_consumed_split(t, t1, rest);
            lemma_tops_concat(consumed(t2a, t3), consumed(t3, rest), d + 1);
            lemma_tops_concat(seq![t2[0]], consumed(t2a, rest), d);
            lemma_tops_concat(seq![t1[0]], consumed(t2, rest), d);
            lemma_tops_concat(seq![t[0]], consumed(t1, rest), d);
        } else {
            let el = ElementView::Transform(
                next_index(e),
                crate::ast::TransformView { name: label, arguments: Seq::empty() },
            );
            lemma_transforms_tops(t2, e.push(el), trs.push(next_index(e)), d);
            lemma_consumed_split(t1, t2, rest);
            lemma_consumed_split(t, t1, rest);
            lemma_tops_concat(seq![t1[0]], consumed(t2, rest), d);
            lemma_tops_concat(seq![t[0]], consumed(t1, rest), d);
        }
    }
}

proof fn lemma_args_tops(t: Seq<TokenView>, e: Seq<ElementView>, args: Seq<AstIndex>, d: int)
    requires
        d >= 1,
    ensures
        p_args(t, e, args) matches Ok((rest, _, _)) ==> {
            &&& super::spec::rest_of(t, rest)
            &&& top_pipes(consumed(t, rest), d) == 0 && paren_depth(consumed(t, rest), d) == d - 1
        },
    decreases t.len(), 2int,
{
    lemma_expression_tops(t, e, d);
    if p_args(t, e, args) is Ok {
        let rest = p_args(t, e, args)->Ok_0.0;
        let p = p_expression(t, e)->Ok_0;
        let t1 = p.rest;
        lemma_consumed_first(t1);
        lemma_tops_one(t1[0], d);
        if super::spec::is_op(t1[0], crate::tokens::Op::Comma) {
            let t2 = t1.drop_first();
            lemma_args_tops(t2, p.elements, args.push(p.index), d);
            lemma_consumed_split(t1, t2, rest);
            lemma_consumed_split(t, t1, rest);
            lemma_tops_concat(seq![t1[0]], consumed(t2, rest), d);
            lemma_tops_concat(consumed(t, t1), consumed(t1, rest), d);
        } else {
            lemma_consumed_split(t, t1, rest);
            lemma_tops_concat(consumed(t, t1), consumed(t1, rest), d);
        }
    }
}

/// Every `|` of a pipe chain gives a transformation: when the
/// transformations after an expression are read, one is added for each `|`
/// read outside the parentheses of the arguments, so `| f(x) | g` gives two.
pub proof fn lemma_one_transform_per_pipe(t: Seq<TokenView>, e: Seq<ElementView>, trs: Seq<AstIndex>)
    ensures
        p_transforms(t, e, trs) matches Ok((rest, _, all)) ==> {
            &&& super::spec::rest_of(t, rest)
            &&& all.len() == trs.len() + top_pipes(consumed(t, rest), 0)
        },
{
    lemma_transforms_tops(t, e, trs, 0);
}

} // verus!
