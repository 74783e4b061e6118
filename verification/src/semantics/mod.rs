//! Semantic analysis: pairs every render! block with the blocks of its scope,
//! up to the closing block `{{!}}` that ends it.
use vstd::prelude::*;

pub mod scope;
pub mod properties;

use crate::ast::{Ast, AstElement, AstIndex, AstView, Block, BlockView, ElementView};
use scope::{Scope, FILE_SCOPE};

verus! {

/// The arena as the analysis leaves it, how many scopes are open, and whether a
/// scope was just closed.
pub struct Analysis {
    pub elements: Seq<ElementView>,
    pub level: nat,
    pub closed: bool,
}

pub open spec fn expected_block_msg() -> Seq<char> {
    "Expected a Block!"@
}

pub open spec fn unclosed_scope_msg() -> Seq<char> {
    "Expected the scope to be closed with {{!}}"@
}

pub open spec fn lone_closing_msg() -> Seq<char> {
    "Invalid lone closing block in file scope. Closing blocks must only be used to close an opened scope."@
}

pub open spec fn outside_tree_msg() -> Seq<char> {
    "Semantic analysis: a block refers to a position outside the tree."@
}

pub open spec fn too_deep_msg() -> Seq<char> {
    "Semantic analysis: the scopes are nested too deeply."@
}

/// How far the analysis may still go from `i` in an arena of `n` elements.
pub open spec fn dist(n: nat, i: Option<AstIndex>) -> nat {
    match i {
        Some(c) => if c.0 < n { (n - c.0) as nat } else { 0 },
        None => 0,
    }
}

/// Whether `next` comes after the block at `idx` in the arena.
pub open spec fn follows(idx: AstIndex, next: Option<AstIndex>) -> bool {
    match next {
        Some(j) => j.0 > idx.0,
        None => true,
    }
}

/// What a step of the analysis gives: `None` where the walk goes on beyond
/// `fuel` steps, or re-enters a render! block whose scope it is still
/// collecting (the set `active`).
pub type Outcome<T> = Option<Result<T, Seq<char>>>;

/// Analyses the block at `idx`; gives the block that follows it, which for a
/// render! block is the block after its closing block.
pub open spec fn a_block(fuel: nat, active: Set<nat>, n: nat, s: Analysis, idx: AstIndex) -> Outcome<
    (Analysis, Option<AstIndex>),
>
    decreases fuel, 2int,
{
    if !(idx.0 < n && idx.0 < s.elements.len()) {
        Some(Err(outside_tree_msg()))
    } else {
        match s.elements[idx.0 as int] {
            ElementView::Block(i, b) => match b {
                BlockView::Text(_, next) => Some(Ok((s, next))),
                BlockView::CodeEnclosed(_, next) => Some(Ok((s, next))),
                BlockView::CodeClosing(_, next) => if s.level == 0 {
                    Some(Err(lone_closing_msg()))
                } else {
                    Some(Ok((Analysis { level: (s.level - 1) as nat, closed: true, ..s }, next)))
                },
                BlockView::CodeUnclosed(st, scope, next) => if active.contains(idx.0 as nat) {
                    None
                } else if s.level >= usize::MAX {
                    Some(Err(too_deep_msg()))
                } else {
                    match scope_loop(
                        fuel,
                        active.insert(idx.0 as nat),
                        n,
                        Analysis { level: s.level + 1, ..s },
                        next,
                        Seq::empty(),
                    ) {
                        None => None,
                        Some(Err(e)) => Some(Err(e)),
                        Some(Ok((s2, collected, after))) => Some(
                            Ok(
                                (
                                    Analysis {
                                        elements: s2.elements.update(
                                            idx.0 as int,
                                            ElementView::Block(
                                                i,
                                                BlockView::CodeUnclosed(st, scope + collected, after),
                                            ),
                                        ),
                                        ..s2
                                    },
                                    after,
                                ),
                            ),
                        ),
                    }
                },
            },
            _ => Some(Err(expected_block_msg())),
        }
    }
}

/// The blocks of a scope from `current` on, up to and with the block that
/// closes it; gives the block after that one.
pub open spec fn scope_loop(
    fuel: nat,
    active: Set<nat>,
    n: nat,
    s: Analysis,
    current: Option<AstIndex>,
    collected: Seq<AstIndex>,
) -> Outcome<(Analysis, Seq<AstIndex>, Option<AstIndex>)>
    decreases fuel, 1int,
{
    if s.closed {
        Some(Ok((Analysis { closed: false, ..s }, collected, current)))
    } else {
        match current {
            None => Some(Err(unclosed_scope_msg())),
            Some(c) => if c.0 >= n {
                Some(Err(unclosed_scope_msg()))
            } else if fuel == 0 {
                None
            } else {
                match a_block((fuel - 1) as nat, active, n, s, c) {
                    None => None,
                    Some(Err(_)) => Some(Err(unclosed_scope_msg())),
                    Some(Ok((s2, next))) => scope_loop((fuel - 1) as nat, active, n, s2, next, collected.push(c)),
                }
            },
        }
    }
}

/// Analyses the blocks from `current` on, following each block to the next.
pub open spec fn analyze_from(fuel: nat, n: nat, s: Analysis, current: Option<AstIndex>) -> Outcome<Analysis>
    decreases fuel,
{
    match current {
        None => Some(Ok(s)),
        Some(c) => if c.0 >= n {
            Some(Err(outside_tree_msg()))
        } else if fuel == 0 {
            None
        } else {
            match a_block((fuel - 1) as nat, Set::empty(), n, s, c) {
                None => None,
                Some(Err(e)) => Some(Err(e)),
                Some(Ok((s2, next))) => analyze_from((fuel - 1) as nat, n, s2, next),
            }
        },
    }
}

/// The analysis of a tree within `fuel` steps: the tree after it, or the
/// message of the error that stops it.
pub open spec fn spec_analyze_with(ast: AstView, fuel: nat) -> Outcome<AstView> {
    match analyze_from(
        fuel,
        ast.elements.len(),
        Analysis { elements: ast.elements, level: 0, closed: false },
        ast.head,
    ) {
        None => None,
        Some(Ok(s)) => Some(Ok(AstView { elements: s.elements, head: ast.head })),
        Some(Err(e)) => Some(Err(e)),
    }
}

/// The analysis of the tree comes to an end: it neither walks round a cycle
/// of blocks for ever nor re-enters a render! block whose scope it is
/// collecting.
pub open spec fn analysis_ends(ast: AstView) -> bool {
    exists|fuel: nat| #[trigger] spec_analyze_with(ast, fuel) is Some
}

/// A number of steps within which the analysis of a tree that ends does end.
pub open spec fn ending_fuel(ast: AstView) -> nat {
    choose|fuel: nat| #[trigger] spec_analyze_with(ast, fuel) is Some
}

/// The tree after the analysis, or the message of the error that stops it.
pub open spec fn spec_analyze(ast: AstView) -> Result<AstView, Seq<char>> {
    spec_analyze_with(ast, ending_fuel(ast))->Some_0
}

/// What the analysis carries from block to block.
pub struct SemanticContext {
    pub scope: Scope,
}

impl SemanticContext {
    pub fn new() -> (ctx: SemanticContext)
        ensures
            ctx.scope.level == FILE_SCOPE,
            !ctx.scope.was_closed,
    {
        SemanticContext { scope: Scope::new() }
    }

    pub fn scope(&mut self) -> (s: &mut Scope)
        ensures
            *s == old(self).scope,
            final(self).scope == *final(s),
    {
        &mut self.scope
    }
}

/// The analysis state of an `Ast` and a context.
pub open spec fn state_of(ast: AstView, ctx: SemanticContext) -> Analysis {
    Analysis { elements: ast.elements, level: ctx.scope.level as nat, closed: ctx.scope.was_closed }
}

/// Analyses a syntax tree: fills in the scope of every render! block and
/// links it to the block after its closing block.
pub fn analyze(ast: Ast) -> (r: Result<Ast, String>)
    requires
        analysis_ends(ast@),
    ensures
        match spec_analyze(ast@) {
            Ok(analysed) => r is Ok && r->Ok_0@ == analysed,
            Err(e) => r is Err && r->Err_0@ == e,
        },
{
    let mut tree = ast;
    let mut ctx = SemanticContext::new();
    let n = tree.len();
    let ghost init = tree@;
    let ghost start = Analysis { elements: init.elements, level: 0, closed: false };
    let ghost mut fuel: nat = ending_fuel(init);
    assert(spec_analyze_with(init, fuel) is Some);
    let mut current_block = tree.head();
    while current_block.is_some()
        invariant
            n == init.elements.len(),
            init == ast@,
            start == (Analysis { elements: init.elements, level: 0, closed: false }),
            tree@.head == init.head,
            tree@.elements.len() == n,
            analyze_from(fuel, n as nat, state_of(tree@, ctx), current_block) == analyze_from(
                ending_fuel(init),
                n as nat,
                start,
                init.head,
            ),
            analyze_from(fuel, n as nat, state_of(tree@, ctx), current_block) is Some,
        decreases fuel,
    {
        let c = current_block.unwrap();
        if c.0 >= n {
            assert(spec_analyze(ast@) == Err::<AstView, Seq<char>>(outside_tree_msg()));
            return Err("Semantic analysis: a block refers to a position outside the tree.".to_owned());
        }
        assert(fuel > 0);
        let next = match analyze_block(&mut tree, &mut ctx, c, n, Ghost((fuel - 1) as nat), Ghost(Set::empty())) {
            Ok(next) => next,
            Err(e) => {
                assert(spec_analyze(ast@) == Err::<AstView, Seq<char>>(e@));
                return Err(e);
            },
        };
        proof {
            fuel = (fuel - 1) as nat;
        }
        current_block = next;
    }
    Ok(tree)
}

/// Whether every block of the tree is followed by a later block, or by none,
/// as in every tree the parser builds; the analysis of such a tree comes to an
/// end.
pub fn links_forward(ast: &Ast) -> (b: bool)
    ensures
        b == properties::links_forward(ast@.elements),
        b ==> analysis_ends(ast@),
{
    let n = ast.len();
    let mut i: usize = 0;
    while i < n
        invariant
            n == ast@.elements.len(),
            i <= n,
            forall|k: int|
                0 <= k < i && (#[trigger] ast@.elements[k]) is Block ==> match ast@.elements[k]->Block_1.next() {
                    Some(j) => j.0 > k,
                    None => true,
                },
        decreases n - i,
    {
        match ast.get(AstIndex(i)) {
            AstElement::Block(_, block) => match block.next() {
                Some(j) => {
                    if j.0 <= i {
                        return false;
                    }
                },
                None => {},
            },
            _ => {},
        }
        i = i + 1;
    }
    proof {
        properties::lemma_analysis_accepts_balanced(ast@);
    }
    true
}

/// The block at `idx` fails before any scope is opened: it lies outside the
/// tree or is no block, a closing block has no scope to close, or a render!
/// block cannot open its scope.
pub open spec fn fails_before_scope(n: nat, s: Analysis, idx: AstIndex) -> bool {
    !{
        &&& idx.0 < n
        &&& idx.0 < s.elements.len()
        &&& s.elements[idx.0 as int] matches ElementView::Block(_, BlockView::CodeUnclosed(_, _, _))
        &&& s.level < usize::MAX
    }
}

/// The relation between a step of the analysis at `idx` and what `a_block`
/// says: on success, the state it gives; on failure, its message, a tree
/// that keeps its first block, and, where the block fails before opening a
/// scope, a tree and a context left as they were.
pub open spec fn analysed(
    r: Result<Option<AstIndex>, String>,
    fuel: nat,
    active: Set<nat>,
    n: nat,
    idx: AstIndex,
    ast: AstView,
    ctx: SemanticContext,
    old_ast: AstView,
    old_ctx: SemanticContext,
) -> bool {
    match a_block(fuel, active, n, state_of(old_ast, old_ctx), idx) {
        Some(Ok((s, next))) => {
            &&& r == Ok::<Option<AstIndex>, String>(next)
            &&& state_of(ast, ctx) == s
            &&& ast.head == old_ast.head
        },
        Some(Err(e)) => {
            &&& r is Err && r->Err_0@ == e
            &&& ast.head == old_ast.head
            &&& fails_before_scope(n, state_of(old_ast, old_ctx), idx) ==> ast == old_ast && ctx == old_ctx
        },
        None => false,
    }
}

fn copy_indices(v: &Vec<AstIndex>) -> (r: Vec<AstIndex>)
    ensures
        r@ == v@,
{
    let mut r: Vec<AstIndex> = Vec::new();
    let mut i: usize = 0;
    while i < v.len()
        invariant
            i <= v.len(),
            r@ == v@.take(i as int),
        decreases v.len() - i,
    {
        r.push(v[i]);
        i = i + 1;
        assert(r@ =~= v@.take(i as int));
    }
    assert(v@.take(v.len() as int) =~= v@);
    r
}

fn analyze_block(
    ast: &mut Ast,
    ctx: &mut SemanticContext,
    block_idx: AstIndex,
    n: usize,
    Ghost(fuel): Ghost<nat>,
    Ghost(active): Ghost<Set<nat>>,
) -> (r: Result<Option<AstIndex>, String>)
    requires
        n == old(ast)@.elements.len(),
        a_block(fuel, active, n as nat, state_of(old(ast)@, *old(ctx)), block_idx) is Some,
    ensures
        analysed(r, fuel, active, n as nat, block_idx, final(ast)@, *final(ctx), old(ast)@, *old(ctx)),
        final(ast)@.elements.len() == n,
    decreases fuel, 2int,
{
    if block_idx.0 >= n {
        return Err("Semantic analysis: a block refers to a position outside the tree.".to_owned());
    }
    let (i, statement, scope, next) = match ast.get(block_idx) {
        AstElement::Block(i, block) => match block {
            // Text blocks are only text
            Block::Text(_, next) => return Ok(*next),
            Block::CodeEnclosed(_, next) => return Ok(*next),
            Block::CodeClosing(_, next) => {
                if ctx.scope().level() == FILE_SCOPE {
                    // A closing block needs a scope to close
                    return Err(
                        "Invalid lone closing block in file scope. Closing blocks must only be used to close an opened scope.".to_owned(),
                    );
                }
                ctx.scope().close();
                return Ok(*next);
            },
            Block::CodeUnclosed(statement, scope, next) => (*i, *statement, copy_indices(scope), *next),
        },
        _ => return Err("Expected a Block!".to_owned()),
    };
    if ctx.scope().level() == usize::MAX {
        return Err("Semantic analysis: the scopes are nested too deeply.".to_owned());
    }

    // Open a scope and collect its blocks until it is closed
    ctx.scope().open();
    let mut collected: Vec<AstIndex> = Vec::new();
    let after = match build_scope(ast, ctx, next, &mut collected, n, Ghost(fuel), Ghost(active.insert(block_idx.0 as nat))) {
        Ok(after) => after,
        Err(e) => return Err(e),
    };

    let mut new_scope = scope;
    let ghost old_scope = new_scope@;
    let mut k: usize = 0;
    while k < collected.len()
        invariant
            k <= collected.len(),
            new_scope@ == old_scope + collected@.take(k as int),
        decreases collected.len() - k,
    {
        new_scope.push(collected[k]);
        k = k + 1;
        assert(new_scope@ =~= old_scope + collected@.take(k as int));
    }
    assert(collected@.take(collected.len() as int) =~= collected@);
    ast.set(block_idx, AstElement::Block(i, Block::CodeUnclosed(statement, new_scope, after)));
    Ok(after)
}

/// A scope still open fails at its block `current`: there is none, it lies
/// outside the tree, or the block there fails before opening a scope.
pub open spec fn scope_fails_at_once(fuel: nat, active: Set<nat>, n: nat, s: Analysis, current: Option<AstIndex>) -> bool {
    &&& !s.closed
    &&& match current {
        None => true,
        Some(c) => c.0 >= n || (fuel > 0 && (a_block((fuel - 1) as nat, active, n, s, c) matches Some(Err(_)))
            && fails_before_scope(n, s, c)),
    }
}

fn build_scope(
    ast: &mut Ast,
    ctx: &mut SemanticContext,
    current: Option<AstIndex>,
    collected: &mut Vec<AstIndex>,
    n: usize,
    Ghost(fuel): Ghost<nat>,
    Ghost(active): Ghost<Set<nat>>,
) -> (r: Result<Option<AstIndex>, String>)
    requires
        n == old(ast)@.elements.len(),
        scope_loop(fuel, active, n as nat, state_of(old(ast)@, *old(ctx)), current, old(collected)@) is Some,
    ensures
        match scope_loop(fuel, active, n as nat, state_of(old(ast)@, *old(ctx)), current, old(collected)@) {
            Some(Ok((s, all, after))) => {
                &&& r == Ok::<Option<AstIndex>, String>(after)
                &&& state_of(final(ast)@, *final(ctx)) == s
                &&& final(collected)@ == all
                &&& final(ast)@.head == old(ast)@.head
            },
            Some(Err(e)) => {
                &&& r is Err && r->Err_0@ == e
                &&& final(ast)@.head == old(ast)@.head
                &&& scope_fails_at_once(fuel, active, n as nat, state_of(old(ast)@, *old(ctx)), current)
                    ==> final(ast)@ == old(ast)@ && *final(ctx) == *old(ctx)
            },
            None => false,
        },
        final(ast)@.elements.len() == n,
    decreases fuel, 1int,
{
    if ctx.scope().was_closed() {
        return Ok(current);
    }
    let c = match current {
        None => return Err("Expected the scope to be closed with {{!}}".to_owned()),
        Some(c) => c,
    };
    if c.0 >= n {
        return Err("Expected the scope to be closed with {{!}}".to_owned());
    }
    let next = match analyze_block(ast, ctx, c, n, Ghost((fuel - 1) as nat), Ghost(active)) {
        Ok(next) => next,
        Err(_) => return Err("Expected the scope to be closed with {{!}}".to_owned()),
    };
    collected.push(c);
    build_scope(ast, ctx, next, collected, n, Ghost((fuel - 1) as nat), Ghost(active))
}

} // verus!
