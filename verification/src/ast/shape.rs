//! Which arenas are well formed: every index a node holds points into the
//! arena, and every node knows its own position.
use vstd::prelude::*;

use super::AstIndex;
use super::ast::{AstView, ElementView};
use super::blocks::BlockView;
use super::expressions::ExpressionView;
use super::patterns::PatternView;
use super::statements::StatementView;
use crate::tokens::TokenView;

verus! {

pub open spec fn index_in(i: AstIndex, n: nat) -> bool {
    i.0 < n
}

pub open spec fn option_in(i: Option<AstIndex>, n: nat) -> bool {
    i matches Some(j) ==> j.0 < n
}

pub open spec fn all_in(idxs: Seq<AstIndex>, n: nat) -> bool {
    forall|k: int| 0 <= k < idxs.len() ==> #[trigger] idxs[k].0 < n
}

pub open spec fn block_in(b: BlockView, n: nat) -> bool {
    match b {
        BlockView::Text(_, next) => option_in(next, n),
        BlockView::CodeEnclosed(s, next) => index_in(s, n) && option_in(next, n),
        BlockView::CodeUnclosed(s, scope, next) => index_in(s, n) && all_in(scope, n) && option_in(next, n),
        BlockView::CodeClosing(s, next) => index_in(s, n) && option_in(next, n),
    }
}

pub open spec fn statement_in(s: StatementView, n: nat) -> bool {
    match s {
        StatementView::End(_) => true,
        StatementView::Let(_, p, x) => index_in(p, n) && index_in(x, n),
        StatementView::Render(_, p, x) => index_in(p, n) && index_in(x, n),
        StatementView::Write(_, x) => index_in(x, n),
    }
}

pub open spec fn expression_in(x: ExpressionView, n: nat) -> bool {
    match x {
        ExpressionView::Literal(_, trs) => all_in(trs, n),
        ExpressionView::Reference(_, trs) => all_in(trs, n),
    }
}

/// Every index that the element holds lies below `n`.
pub open spec fn element_in(el: ElementView, n: nat) -> bool {
    match el {
        ElementView::Block(_, b) => block_in(b, n),
        ElementView::Statement(_, s) => statement_in(s, n),
        ElementView::Expression(_, x) => expression_in(x, n),
        ElementView::Transform(_, t) => all_in(t.arguments, n),
        ElementView::Pattern(_, _) => true,
    }
}

/// Every index held in the arena points into the arena.
pub open spec fn elements_in_range(e: Seq<ElementView>) -> bool {
    forall|i: int| 0 <= i < e.len() ==> #[trigger] element_in(e[i], e.len())
}

/// Every index held in the tree, its head included, points into its arena.
pub open spec fn refs_in_range(ast: AstView) -> bool {
    &&& elements_in_range(ast.elements)
    &&& option_in(ast.head, ast.elements.len())
}

/// A well formed arena: its length fits in a `usize`, every node sits at the
/// position it names as its own, and every index it holds points into it.
pub open spec fn arena_ok(e: Seq<ElementView>) -> bool {
    &&& e.len() <= usize::MAX
    &&& forall|i: int| 0 <= i < e.len() ==> (#[trigger] e[i]).index().0 == i
    &&& elements_in_range(e)
}

/// A well formed tree: a well formed arena whose head points into it.
pub open spec fn well_formed(ast: AstView) -> bool {
    arena_ok(ast.elements) && option_in(ast.head, ast.elements.len())
}

/// Every token is a label.
pub open spec fn all_labels(ts: Seq<TokenView>) -> bool {
    forall|i: int| 0 <= i < ts.len() ==> #[trigger] ts[i] is Label
}

/// The names the element declares or refers to are labels: those of a
/// pattern, and those of a reference, which has at least one.
pub open spec fn names_are_labels(el: ElementView) -> bool {
    &&& el matches ElementView::Pattern(_, PatternView::Decleration(ds)) ==> all_labels(ds)
    &&& el matches ElementView::Expression(_, ExpressionView::Reference(refs, _)) ==> refs.len() > 0 && all_labels(
        refs,
    )
}

/// Every name that the arena declares or refers to is a label.
pub open spec fn labels_only(e: Seq<ElementView>) -> bool {
    forall|i: int| 0 <= i < e.len() ==> #[trigger] names_are_labels(e[i])
}

} // verus!
