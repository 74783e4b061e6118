//! What the semantic analysis promises: it accepts exactly the trees whose
//! render! blocks are each closed by a closing block `{{!}}`, and whose closing
//! blocks each close a render! block.
use vstd::prelude::*;

use crate::ast::{AstIndex, AstView, BlockView, ElementView};
use crate::ast::shape::{all_in, arena_ok, element_in, option_in, well_formed};
use super::{
    a_block, analysis_ends, analyze_from, dist, ending_fuel, follows, scope_loop, spec_analyze, spec_analyze_with,
    Analysis,
};

verus! {

/// The block at `c`, if the arena holds one there.
pub open spec fn block_at(e: Seq<ElementView>, c: AstIndex) -> Option<BlockView> {
    if c.0 < e.len() && e[c.0 as int] is Block {
        Some(e[c.0 as int]->Block_1)
    } else {
        None
    }
}

/// Every block of the arena is followed by a later block, or by none: the
/// order in which the parser links the blocks it builds.
pub open spec fn links_forward(e: Seq<ElementView>) -> bool {
    forall|i: int|
        0 <= i < e.len() && (#[trigger] e[i]) is Block ==> match e[i]->Block_1.next() {
            Some(j) => j.0 > i,
            None => true,
        }
}

/// The number of open scopes after a block: a render! block opens one, a
/// closing block closes one.
pub open spec fn depth_after(b: BlockView, d: nat) -> nat {
    match b {
        BlockView::CodeUnclosed(_, _, _) => d + 1,
        BlockView::CodeClosing(_, _) => (d - 1) as nat,
        _ => d,
    }
}

/// The block at `c` may come with `d` scopes open: it is a block, it is
/// followed by a later block (or by none), a closing block has a scope to
/// close, and a render! block has room for one more.
pub open spec fn step_ok(e: Seq<ElementView>, c: AstIndex, d: nat) -> bool {
    &&& c.0 < e.len()
    &&& block_at(e, c) matches Some(b) && {
        &&& follows(c, b.next())
        &&& b is CodeClosing ==> d > 0
        &&& b is CodeUnclosed ==> d < usize::MAX
    }
}

/// Following the blocks from `cur` on with `d` scopes open, every block may
/// come where it stands and no scope is left open at the end: the render!
/// blocks and the closing blocks pair up like brackets.
pub open spec fn balanced(e: Seq<ElementView>, cur: Option<AstIndex>, d: nat) -> bool
    decreases dist(e.len(), cur),
{
    match cur {
        None => d == 0,
        Some(c) => if step_ok(e, c, d) {
            let b = block_at(e, c)->Some_0;
            balanced(e, b.next(), depth_after(b, d))
        } else {
            false
        },
    }
}

/// Following the blocks from `cur` with `d` scopes open leads to `to` with
/// `d2` scopes open, every block on the way standing where it may.
pub open spec fn reaches(e: Seq<ElementView>, cur: Option<AstIndex>, d: nat, to: Option<AstIndex>, d2: nat) -> bool
    decreases dist(e.len(), cur),
{
    if cur == to && d == d2 {
        true
    } else {
        match cur {
            None => false,
            Some(c) => if step_ok(e, c, d) {
                let b = block_at(e, c)->Some_0;
                reaches(e, b.next(), depth_after(b, d), to, d2)
            } else {
                false
            },
        }
    }
}

/// The analysis has left the arena as it was from position `from` on.
pub open spec fn same_from(a: Seq<ElementView>, e: Seq<ElementView>, from: Option<AstIndex>) -> bool {
    &&& a.len() == e.len()
    &&& from matches Some(f) ==> forall|j: int| f.0 <= j < e.len() ==> #[trigger] a[j] == e[j]
}

proof fn lemma_reaches_balanced(
    e: Seq<ElementView>,
    cur: Option<AstIndex>,
    d: nat,
    to: Option<AstIndex>,
    d2: nat,
)
    requires
        reaches(e, cur, d, to, d2),
        balanced(e, to, d2),
    ensures
        balanced(e, cur, d),
    decreases dist(e.len(), cur),
{
    if !(cur == to && d == d2) {
        let c = cur->Some_0;
        let b = block_at(e, c)->Some_0;
        lemma_reaches_balanced(e, b.next(), depth_after(b, d), to, d2);
    }
}

proof fn lemma_reaches_trans(
    e: Seq<ElementView>,
    a: Option<AstIndex>,
    da: nat,
    b: Option<AstIndex>,
    db: nat,
    c: Option<AstIndex>,
    dc: nat,
)
    requires
        reaches(e, a, da, b, db),
        reaches(e, b, db, c, dc),
    ensures
        reaches(e, a, da, c, dc),
    decreases dist(e.len(), a),
{
    if !(a == b && da == db) {
        let i = a->Some_0;
        let blk = block_at(e, i)->Some_0;
        lemma_reaches_trans(e, blk.next(), depth_after(blk, da), b, db, c, dc);
    }
}

} // verus!

verus! {

proof fn lemma_block_sound(fuel: nat, act: Set<nat>, n: nat, s: Analysis, idx: AstIndex, e: Seq<ElementView>)
    requires
        n == e.len(),
        links_forward(e),
        same_from(s.elements, e, Some(idx)),
        !s.closed,
    ensures
        a_block(fuel, act, n, s, idx) matches Some(Ok((s2, next))) ==> {
            &&& reaches(e, Some(idx), s.level, next, s2.level)
            &&& block_at(e, idx) is Some
            &&& block_at(e, idx)->Some_0 is CodeClosing ==> s2.closed && s2.level + 1 == s.level
            &&& !(block_at(e, idx)->Some_0 is CodeClosing) ==> !s2.closed && s2.level == s.level
            &&& follows(idx, next)
            &&& same_from(s2.elements, e, next)
        },
    decreases fuel, 2int,
{
    if idx.0 < n && idx.0 < s.elements.len() && s.elements[idx.0 as int] is Block {
        assert(s.elements[idx.0 as int] == e[idx.0 as int]);
        let b = e[idx.0 as int]->Block_1;
        let next = b.next();
        assert(follows(idx, next));
        match b {
            BlockView::CodeUnclosed(st, scope, nx) => {
                if !act.contains(idx.0 as nat) && s.level < usize::MAX {
                    let inner = Analysis { level: s.level + 1, ..s };
                    let act2 = act.insert(idx.0 as nat);
                    lemma_scope_sound(fuel, act2, n, inner, nx, Seq::empty(), e);
                    if scope_loop(fuel, act2, n, inner, nx, Seq::empty()) matches Some(Ok(_)) {
                        let (s2, collected, after) = scope_loop(fuel, act2, n, inner, nx, Seq::empty())->Some_0->Ok_0;
                        // The render! block itself, then its scope
                        assert(step_ok(e, idx, s.level));
                        assert(reaches(e, Some(idx), s.level, after, s2.level));
                        let s3 = Analysis {
                            elements: s2.elements.update(
                                idx.0 as int,
                                ElementView::Block(
                                    e[idx.0 as int]->Block_0,
                                    BlockView::CodeUnclosed(st, scope + collected, after),
                                ),
                            ),
                            ..s2
                        };
                        match after {
                            Some(a) => {
                                assert forall|j: int| a.0 <= j < e.len() implies #[trigger] s3.elements[j] == e[j] by {
                                    assert(s2.elements[j] == e[j]);
                                }
                            },
                            None => {},
                        }
                        assert(a_block(fuel, act, n, s, idx) == Some(
                            Ok::<(Analysis, Option<AstIndex>), Seq<char>>((s3, after)),
                        ));
                    }
                }
            },
            BlockView::CodeClosing(_, _) => {
                if s.level > 0 {
                    assert(step_ok(e, idx, s.level));
                    let s2 = Analysis { level: (s.level - 1) as nat, closed: true, ..s };
                    assert(reaches(e, next, (s.level - 1) as nat, next, s2.level));
                }
            },
            _ => {
                assert(step_ok(e, idx, s.level));
                assert(reaches(e, next, s.level, next, s.level));
            },
        }
    }
}

proof fn lemma_scope_sound(
    fuel: nat,
    act: Set<nat>,
    n: nat,
    s: Analysis,
    cur: Option<AstIndex>,
    collected: Seq<AstIndex>,
    e: Seq<ElementView>,
)
    requires
        n == e.len(),
        links_forward(e),
        same_from(s.elements, e, cur),
        !s.closed,
    ensures
        scope_loop(fuel, act, n, s, cur, collected) matches Some(Ok((s2, _, after))) ==> {
            &&& reaches(e, cur, s.level, after, s2.level)
            &&& s2.level + 1 == s.level
            &&& !s2.closed
            &&& same_from(s2.elements, e, after)
            &&& after matches Some(a) ==> cur matches Some(c) && a.0 > c.0
        },
    decreases fuel, 1int,
{
    match cur {
        None => {},
        Some(c) => {
            if c.0 < n && fuel > 0 {
                let f = (fuel - 1) as nat;
                lemma_block_sound(f, act, n, s, c, e);
                if a_block(f, act, n, s, c) matches Some(Ok(_)) {
                    let (s2, next) = a_block(f, act, n, s, c)->Some_0->Ok_0;
                    if s2.closed {
                        // The closing block of this scope
                        assert(scope_loop(f, act, n, s2, next, collected.push(c)) == Some(
                            Ok::<(Analysis, Seq<AstIndex>, Option<AstIndex>), Seq<char>>(
                                (Analysis { closed: false, ..s2 }, collected.push(c), next),
                            ),
                        ));
                        assert(reaches(e, next, s2.level, next, s2.level));
                    } else {
                        lemma_scope_sound(f, act, n, s2, next, collected.push(c), e);
                        if scope_loop(f, act, n, s2, next, collected.push(c)) matches Some(Ok(_)) {
                            let (s3, _, after) = scope_loop(f, act, n, s2, next, collected.push(c))->Some_0->Ok_0;
                            lemma_reaches_trans(e, cur, s.level, next, s2.level, after, s3.level);
                        }
                    }
                }
            }
        },
    }
}

proof fn lemma_analyze_sound(fuel: nat, n: nat, s: Analysis, cur: Option<AstIndex>, e: Seq<ElementView>)
    requires
        n == e.len(),
        links_forward(e),
        same_from(s.elements, e, cur),
        !s.closed,
        s.level == 0,
    ensures
        analyze_from(fuel, n, s, cur) matches Some(Ok(_)) ==> balanced(e, cur, 0),
    decreases fuel,
{
    match cur {
        None => {},
        Some(c) => {
            if c.0 < n && fuel > 0 {
                let f = (fuel - 1) as nat;
                lemma_block_sound(f, Set::empty(), n, s, c, e);
                if a_block(f, Set::empty(), n, s, c) matches Some(Ok(_)) {
                    let (s2, next) = a_block(f, Set::empty(), n, s, c)->Some_0->Ok_0;
                    lemma_analyze_sound(f, n, s2, next, e);
                    if analyze_from(f, n, s2, next) matches Some(Ok(_)) {
                        lemma_reaches_balanced(e, cur, 0, next, 0);
                    }
                }
            }
        },
    }
}

} // verus!

verus! {

proof fn lemma_block_complete(fuel: nat, act: Set<nat>, n: nat, s: Analysis, idx: AstIndex, e: Seq<ElementView>)
    requires
        n == e.len(),
        links_forward(e),
        same_from(s.elements, e, Some(idx)),
        !s.closed,
        balanced(e, Some(idx), s.level),
    ensures
        a_block(fuel, act, n, s, idx) matches Some(r) ==> r matches Ok((s2, next)) && {
            &&& block_at(e, idx)->Some_0 is CodeClosing ==> s2.closed && s2.level + 1 == s.level && balanced(
                e,
                next,
                s2.level,
            )
            &&& !(block_at(e, idx)->Some_0 is CodeClosing) ==> !s2.closed && s2.level == s.level && balanced(
                e,
                next,
                s2.level,
            )
        },
    decreases fuel, 2int,
{
    assert(s.elements[idx.0 as int] == e[idx.0 as int]);
    let b = e[idx.0 as int]->Block_1;
    match b {
        BlockView::CodeUnclosed(st, scope, nx) => {
            if !act.contains(idx.0 as nat) {
                let inner = Analysis { level: s.level + 1, ..s };
                let act2 = act.insert(idx.0 as nat);
                assert(follows(idx, nx));
                lemma_scope_complete(fuel, act2, n, inner, nx, Seq::empty(), e);
            }
        },
        _ => {},
    }
}

proof fn lemma_scope_complete(
    fuel: nat,
    act: Set<nat>,
    n: nat,
    s: Analysis,
    cur: Option<AstIndex>,
    collected: Seq<AstIndex>,
    e: Seq<ElementView>,
)
    requires
        n == e.len(),
        links_forward(e),
        same_from(s.elements, e, cur),
        !s.closed,
        s.level >= 1,
        balanced(e, cur, s.level),
    ensures
        scope_loop(fuel, act, n, s, cur, collected) matches Some(r) ==> r matches Ok((s2, _, after)) && {
            &&& balanced(e, after, s2.level)
            &&& s2.level + 1 == s.level
            &&& !s2.closed
        },
    decreases fuel, 1int,
{
    let c = cur->Some_0;
    if fuel > 0 {
        let f = (fuel - 1) as nat;
        lemma_block_complete(f, act, n, s, c, e);
        lemma_block_sound(f, act, n, s, c, e);
        if a_block(f, act, n, s, c) matches Some(Ok(_)) {
            let (s2, next) = a_block(f, act, n, s, c)->Some_0->Ok_0;
            if s2.closed {
                assert(scope_loop(f, act, n, s2, next, collected.push(c)) == Some(
                    Ok::<(Analysis, Seq<AstIndex>, Option<AstIndex>), Seq<char>>(
                        (Analysis { closed: false, ..s2 }, collected.push(c), next),
                    ),
                ));
            } else {
                lemma_scope_complete(f, act, n, s2, next, collected.push(c), e);
            }
        }
    }
}

proof fn lemma_analyze_complete(fuel: nat, n: nat, s: Analysis, cur: Option<AstIndex>, e: Seq<ElementView>)
    requires
        n == e.len(),
        links_forward(e),
        same_from(s.elements, e, cur),
        !s.closed,
        s.level == 0,
        balanced(e, cur, 0),
    ensures
        analyze_from(fuel, n, s, cur) matches Some(r) ==> r is Ok,
    decreases fuel,
{
    match cur {
        None => {},
        Some(c) => {
            if fuel > 0 {
                let f = (fuel - 1) as nat;
                lemma_block_complete(f, Set::empty(), n, s, c, e);
                lemma_block_sound(f, Set::empty(), n, s, c, e);
                if a_block(f, Set::empty(), n, s, c) matches Some(Ok(_)) {
                    let (s2, next) = a_block(f, Set::empty(), n, s, c)->Some_0->Ok_0;
                    lemma_analyze_complete(f, n, s2, next, e);
                }
            }
        },
    }
}

proof fn lemma_block_ends(fuel: nat, act: Set<nat>, n: nat, s: Analysis, idx: AstIndex, e: Seq<ElementView>)
    requires
        n == e.len(),
        links_forward(e),
        same_from(s.elements, e, Some(idx)),
        !s.closed,
        fuel + 1 >= dist(n, Some(idx)),
        forall|j: nat| act.contains(j) ==> j < idx.0,
    ensures
        a_block(fuel, act, n, s, idx) is Some,
    decreases fuel, 2int,
{
    if idx.0 < n && idx.0 < s.elements.len() && s.elements[idx.0 as int] is Block {
        assert(s.elements[idx.0 as int] == e[idx.0 as int]);
        let b = e[idx.0 as int]->Block_1;
        match b {
            BlockView::CodeUnclosed(st, scope, nx) => {
                assert(!act.contains(idx.0 as nat));
                if s.level < usize::MAX {
                    let inner = Analysis { level: s.level + 1, ..s };
                    let act2 = act.insert(idx.0 as nat);
                    assert(follows(idx, nx));
                    lemma_scope_ends(fuel, act2, n, inner, nx, Seq::empty(), e);
                }
            },
            _ => {},
        }
    }
}

proof fn lemma_scope_ends(
    fuel: nat,
    act: Set<nat>,
    n: nat,
    s: Analysis,
    cur: Option<AstIndex>,
    collected: Seq<AstIndex>,
    e: Seq<ElementView>,
)
    requires
        n == e.len(),
        links_forward(e),
        same_from(s.elements, e, cur),
        fuel >= dist(n, cur),
        cur matches Some(c) ==> forall|j: nat| act.contains(j) ==> j < c.0,
    ensures
        scope_loop(fuel, act, n, s, cur, collected) is Some,
    decreases fuel, 1int,
{
    if !s.closed {
        match cur {
            None => {},
            Some(c) => {
                if c.0 < n {
                    let f = (fuel - 1) as nat;
                    lemma_block_ends(f, act, n, s, c, e);
                    lemma_block_sound(f, act, n, s, c, e);
                    if a_block(f, act, n, s, c) matches Some(Ok(_)) {
                        let (s2, next) = a_block(f, act, n, s, c)->Some_0->Ok_0;
                        lemma_scope_ends(f, act, n, s2, next, collected.push(c), e);
                    }
                }
            },
        }
    }
}

proof fn lemma_analyze_ends(fuel: nat, n: nat, s: Analysis, cur: Option<AstIndex>, e: Seq<ElementView>)
    requires
        n == e.len(),
        links_forward(e),
        same_from(s.elements, e, cur),
        !s.closed,
        s.level == 0,
        fuel >= dist(n, cur),
    ensures
        analyze_from(fuel, n, s, cur) is Some,
    decreases fuel,
{
    match cur {
        None => {},
        Some(c) => {
            if c.0 < n {
                let f = (fuel - 1) as nat;
                lemma_block_ends(f, Set::empty(), n, s, c, e);
                lemma_block_sound(f, Set::empty(), n, s, c, e);
                if a_block(f, Set::empty(), n, s, c) matches Some(Ok(_)) {
                    let (s2, next) = a_block(f, Set::empty(), n, s, c)->Some_0->Ok_0;
                    lemma_analyze_ends(f, n, s2, next, e);
                }
            }
        },
    }
}

/// Each render! block must be closed with a closing block `{{!}}`, and each
/// closing block must close a render! block. On a tree whose blocks each link
/// to a later block, as the parser builds them, the analysis comes to an end,
/// and it accepts the tree exactly when, following its blocks from the head,
/// render! blocks and closing blocks pair up like brackets (with every block a
/// block of the tree).
pub proof fn lemma_analysis_accepts_balanced(ast: AstView)
    requires
        links_forward(ast.elements),
    ensures
        analysis_ends(ast),
        spec_analyze(ast) is Ok <==> balanced(ast.elements, ast.head, 0),
{
    let n = ast.elements.len();
    let s = Analysis { elements: ast.elements, level: 0, closed: false };
    lemma_analyze_ends(n, n, s, ast.head, ast.elements);
    assert(spec_analyze_with(ast, n) is Some);
    let f = ending_fuel(ast);
    assert(spec_analyze_with(ast, f) is Some);
    lemma_analyze_sound(f, n, s, ast.head, ast.elements);
    if balanced(ast.elements, ast.head, 0) {
        lemma_analyze_complete(f, n, s, ast.head, ast.elements);
    }
}

} // verus!

verus! {

proof fn lemma_block_keeps_shape(fuel: nat, act: Set<nat>, n: nat, s: Analysis, idx: AstIndex)
    requires
        n == s.elements.len(),
        arena_ok(s.elements),
    ensures
        a_block(fuel, act, n, s, idx) matches Some(Ok((s2, next))) ==> arena_ok(s2.elements) && s2.elements.len()
            == n && option_in(next, n),
    decreases fuel, 2int,
{
    if idx.0 < n && s.elements[idx.0 as int] is Block {
        let el = s.elements[idx.0 as int];
        assert(element_in(el, n));
        match el->Block_1 {
            BlockView::CodeUnclosed(st, scope, nx) => {
                if !act.contains(idx.0 as nat) && s.level < usize::MAX {
                    let inner = Analysis { level: s.level + 1, ..s };
                    let act2 = act.insert(idx.0 as nat);
                    lemma_scope_keeps_shape(fuel, act2, n, inner, nx, Seq::empty());
                    if scope_loop(fuel, act2, n, inner, nx, Seq::empty()) matches Some(Ok(_)) {
                        let (s2, collected, after) = scope_loop(fuel, act2, n, inner, nx, Seq::empty())->Some_0->Ok_0;
                        let updated = ElementView::Block(el->Block_0, BlockView::CodeUnclosed(st, scope + collected, after));
                        let e3 = s2.elements.update(idx.0 as int, updated);
                        assert(s2.elements[idx.0 as int].index() == el.index());
                        assert(all_in(scope + collected, n)) by {
                            assert forall|k: int| 0 <= k < (scope + collected).len() implies #[trigger] (scope
                                + collected)[k].0 < n by {
                                if k >= scope.len() {
                                    assert((scope + collected)[k] == collected[k - scope.len()]);
                                }
                            }
                        }
                        assert forall|i: int| 0 <= i < e3.len() implies #[trigger] element_in(e3[i], e3.len()) by {
                            if i != idx.0 {
                                assert(e3[i] == s2.elements[i]);
                            }
                        }
                        assert forall|i: int| 0 <= i < e3.len() implies (#[trigger] e3[i]).index().0 == i by {
                            if i != idx.0 {
                                assert(e3[i] == s2.elements[i]);
                            }
                        }
                    }
                }
            },
            _ => {},
        }
    }
}

proof fn lemma_scope_keeps_shape(
    fuel: nat,
    act: Set<nat>,
    n: nat,
    s: Analysis,
    cur: Option<AstIndex>,
    collected: Seq<AstIndex>,
)
    requires
        n == s.elements.len(),
        arena_ok(s.elements),
        option_in(cur, n),
        all_in(collected, n),
    ensures
        scope_loop(fuel, act, n, s, cur, collected) matches Some(Ok((s2, collected2, after))) ==> arena_ok(
            s2.elements,
        ) && s2.elements.len() == n && all_in(collected2, n) && option_in(after, n),
    decreases fuel, 1int,
{
    if !s.closed {
        match cur {
            None => {},
            Some(c) => {
                if c.0 < n && fuel > 0 {
                    let f = (fuel - 1) as nat;
                    lemma_block_keeps_shape(f, act, n, s, c);
                    if a_block(f, act, n, s, c) matches Some(Ok(_)) {
                        let (s2, next) = a_block(f, act, n, s, c)->Some_0->Ok_0;
                        assert(all_in(collected.push(c), n));
                        lemma_scope_keeps_shape(f, act, n, s2, next, collected.push(c));
                    }
                }
            },
        }
    }
}

proof fn lemma_analyze_keeps_shape(fuel: nat, n: nat, s: Analysis, cur: Option<AstIndex>)
    requires
        n == s.elements.len(),
        arena_ok(s.elements),
        option_in(cur, n),
    ensures
        analyze_from(fuel, n, s, cur) matches Some(Ok(s2)) ==> arena_ok(s2.elements) && s2.elements.len() == n,
    decreases fuel,
{
    match cur {
        None => {},
        Some(c) => {
            if c.0 < n && fuel > 0 {
                let f = (fuel - 1) as nat;
                lemma_block_keeps_shape(f, Set::empty(), n, s, c);
                if a_block(f, Set::empty(), n, s, c) matches Some(Ok(_)) {
                    let (s2, next) = a_block(f, Set::empty(), n, s, c)->Some_0->Ok_0;
                    lemma_analyze_keeps_shape(f, n, s2, next);
                }
            }
        },
    }
}

/// The analysis keeps a tree well formed: the scopes it fills in and the
/// links it moves point to blocks of the tree. So every tree it accepts can
/// be printed.
pub proof fn lemma_analysis_keeps_well_formed(ast: AstView)
    requires
        well_formed(ast),
        analysis_ends(ast),
    ensures
        spec_analyze(ast) matches Ok(analysed) ==> well_formed(analysed),
{
    let f = ending_fuel(ast);
    assert(spec_analyze_with(ast, f) is Some);
    lemma_analyze_keeps_shape(f, ast.elements.len(), Analysis { elements: ast.elements, level: 0, closed: false }, ast.head);
}

} // verus!

verus! {

/// `b` is what the analysis may make of `a`: a block stays a block, and any
/// other element stays as it was.
pub open spec fn kept(a: ElementView, b: ElementView) -> bool {
    if a is Block {
        b is Block
    } else {
        b == a
    }
}

/// `e2` differs from `e` in its blocks only.
pub open spec fn blocks_only_changed(e: Seq<ElementView>, e2: Seq<ElementView>) -> bool {
    &&& e2.len() == e.len()
    &&& forall|i: int| 0 <= i < e.len() ==> #[trigger] kept(e[i], e2[i])
}

proof fn lemma_blocks_only_changed_trans(e1: Seq<ElementView>, e2: Seq<ElementView>, e3: Seq<ElementView>)
    requires
        blocks_only_changed(e1, e2),
        blocks_only_changed(e2, e3),
    ensures
        blocks_only_changed(e1, e3),
{
    assert forall|i: int| 0 <= i < e1.len() implies #[trigger] kept(e1[i], e3[i]) by {
        assert(kept(e1[i], e2[i]));
        assert(kept(e2[i], e3[i]));
    }
}

proof fn lemma_block_changes_blocks_only(fuel: nat, act: Set<nat>, n: nat, s: Analysis, idx: AstIndex)
    requires
        n == s.elements.len(),
    ensures
        a_block(fuel, act, n, s, idx) matches Some(Ok((s2, _))) ==> blocks_only_changed(s.elements, s2.elements),
    decreases fuel, 2int,
{
    if idx.0 < n && s.elements[idx.0 as int] is Block {
        let el = s.elements[idx.0 as int];
        match el->Block_1 {
            BlockView::CodeUnclosed(st, scope, nx) => {
                if !act.contains(idx.0 as nat) && s.level < usize::MAX {
                    let inner = Analysis { level: s.level + 1, ..s };
                    let act2 = act.insert(idx.0 as nat);
                    lemma_scope_changes_blocks_only(fuel, act2, n, inner, nx, Seq::empty());
                    if scope_loop(fuel, act2, n, inner, nx, Seq::empty()) matches Some(Ok(_)) {
                        let (s2, collected, after) = scope_loop(fuel, act2, n, inner, nx, Seq::empty())->Some_0->Ok_0;
                        let updated = ElementView::Block(el->Block_0, BlockView::CodeUnclosed(st, scope + collected, after));
                        let e3 = s2.elements.update(idx.0 as int, updated);
                        assert forall|i: int| 0 <= i < n implies #[trigger] kept(s.elements[i], e3[i]) by {
                            assert(kept(s.elements[i], s2.elements[i]));
                        }
                    }
                }
            },
            BlockView::CodeClosing(_, _) => {
                assert forall|i: int| 0 <= i < n implies #[trigger] kept(s.elements[i], s.elements[i]) by {}
            },
            _ => {
                assert forall|i: int| 0 <= i < n implies #[trigger] kept(s.elements[i], s.elements[i]) by {}
            },
        }
    }
}

proof fn lemma_scope_changes_blocks_only(
    fuel: nat,
    act: Set<nat>,
    n: nat,
    s: Analysis,
    cur: Option<AstIndex>,
    collected: Seq<AstIndex>,
)
    requires
        n == s.elements.len(),
    ensures
        scope_loop(fuel, act, n, s, cur, collected) matches Some(Ok((s2, _, _))) ==> blocks_only_changed(
            s.elements,
            s2.elements,
        ),
    decreases fuel, 1int,
{
    if s.closed {
        assert forall|i: int| 0 <= i < n implies #[trigger] kept(s.elements[i], s.elements[i]) by {}
    } else {
        match cur {
            None => {},
            Some(c) => {
                if c.0 < n && fuel > 0 {
                    let f = (fuel - 1) as nat;
                    lemma_block_changes_blocks_only(f, act, n, s, c);
                    if a_block(f, act, n, s, c) matches Some(Ok(_)) {
                        let (s2, next) = a_block(f, act, n, s, c)->Some_0->Ok_0;
                        lemma_scope_changes_blocks_only(f, act, n, s2, next, collected.push(c));
                        if scope_loop(f, act, n, s2, next, collected.push(c)) matches Some(Ok(_)) {
                            let s3 = scope_loop(f, act, n, s2, next, collected.push(c))->Some_0->Ok_0.0;
                            lemma_blocks_only_changed_trans(s.elements, s2.elements, s3.elements);
                        }
                    }
                }
            },
        }
    }
}

proof fn lemma_analyze_changes_blocks_only(fuel: nat, n: nat, s: Analysis, cur: Option<AstIndex>)
    requires
        n == s.elements.len(),
    ensures
        analyze_from(fuel, n, s, cur) matches Some(Ok(s2)) ==> blocks_only_changed(s.elements, s2.elements),
    decreases fuel,
{
    match cur {
        None => {
            assert forall|i: int| 0 <= i < n implies #[trigger] kept(s.elements[i], s.elements[i]) by {}
        },
        Some(c) => {
            if c.0 < n && fuel > 0 {
                let f = (fuel - 1) as nat;
                lemma_block_changes_blocks_only(f, Set::empty(), n, s, c);
                if a_block(f, Set::empty(), n, s, c) matches Some(Ok(_)) {
                    let (s2, next) = a_block(f, Set::empty(), n, s, c)->Some_0->Ok_0;
                    lemma_analyze_changes_blocks_only(f, n, s2, next);
                    if analyze_from(f, n, s2, next) matches Some(Ok(_)) {
                        lemma_blocks_only_changed_trans(
                            s.elements,
                            s2.elements,
                            analyze_from(f, n, s2, next)->Some_0->Ok_0.elements,
                        );
                    }
                }
            }
        },
    }
}

/// The analysis changes blocks only: every statement, expression,
/// transformation and pattern stays as the parser built it, and the tree
/// keeps its first block.
pub proof fn lemma_analysis_changes_blocks_only(ast: AstView)
    requires
        analysis_ends(ast),
    ensures
        spec_analyze(ast) matches Ok(analysed) ==> analysed.head == ast.head && blocks_only_changed(
            ast.elements,
            analysed.elements,
        ),
{
    let f = ending_fuel(ast);
    assert(spec_analyze_with(ast, f) is Some);
    lemma_analyze_changes_blocks_only(f, ast.elements.len(), Analysis { elements: ast.elements, level: 0, closed: false }, ast.head);
}

} // verus!

verus! {

proof fn lemma_block_fuel(f1: nat, f2: nat, act: Set<nat>, n: nat, s: Analysis, idx: AstIndex)
    requires
        f1 <= f2,
        a_block(f1, act, n, s, idx) is Some,
    ensures
        a_block(f2, act, n, s, idx) == a_block(f1, act, n, s, idx),
    decreases f1, 2int,
{
    if idx.0 < n && idx.0 < s.elements.len() && s.elements[idx.0 as int] is Block {
        match s.elements[idx.0 as int]->Block_1 {
            BlockView::CodeUnclosed(_, _, nx) => {
                if !act.contains(idx.0 as nat) && s.level < usize::MAX {
                    lemma_scope_fuel(
                        f1,
                        f2,
                        act.insert(idx.0 as nat),
                        n,
                        Analysis { level: s.level + 1, ..s },
                        nx,
                        Seq::empty(),
                    );
                }
            },
            _ => {},
        }
    }
}

proof fn lemma_scope_fuel(
    f1: nat,
    f2: nat,
    act: Set<nat>,
    n: nat,
    s: Analysis,
    cur: Option<AstIndex>,
    collected: Seq<AstIndex>,
)
    requires
        f1 <= f2,
        scope_loop(f1, act, n, s, cur, collected) is Some,
    ensures
        scope_loop(f2, act, n, s, cur, collected) == scope_loop(f1, act, n, s, cur, collected),
    decreases f1, 1int,
{
    if !s.closed && cur is Some && cur->Some_0.0 < n && f1 > 0 {
        let c = cur->Some_0;
        let (g1, g2) = ((f1 - 1) as nat, (f2 - 1) as nat);
        lemma_block_fuel(g1, g2, act, n, s, c);
        if a_block(g1, act, n, s, c) matches Some(Ok(_)) {
            let (s2, next) = a_block(g1, act, n, s, c)->Some_0->Ok_0;
            lemma_scope_fuel(g1, g2, act, n, s2, next, collected.push(c));
        }
    }
}

proof fn lemma_analyze_fuel(f1: nat, f2: nat, n: nat, s: Analysis, cur: Option<AstIndex>)
    requires
        f1 <= f2,
        analyze_from(f1, n, s, cur) is Some,
    ensures
        analyze_from(f2, n, s, cur) == analyze_from(f1, n, s, cur),
    decreases f1,
{
    if cur is Some && cur->Some_0.0 < n && f1 > 0 {
        let c = cur->Some_0;
        let (g1, g2) = ((f1 - 1) as nat, (f2 - 1) as nat);
        lemma_block_fuel(g1, g2, Set::empty(), n, s, c);
        if a_block(g1, Set::empty(), n, s, c) matches Some(Ok(_)) {
            let (s2, next) = a_block(g1, Set::empty(), n, s, c)->Some_0->Ok_0;
            lemma_analyze_fuel(g1, g2, n, s2, next);
        }
    }
}

/// The analysis does not depend on how many steps it is allowed: within any
/// number of steps that lets it come to an end, it gives the same result.
pub proof fn lemma_analysis_result_is_unique(ast: AstView, fuel: nat)
    requires
        spec_analyze_with(ast, fuel) is Some,
    ensures
        analysis_ends(ast),
        spec_analyze(ast) == spec_analyze_with(ast, fuel)->Some_0,
{
    let f0 = ending_fuel(ast);
    assert(spec_analyze_with(ast, f0) is Some);
    let n = ast.elements.len();
    let s = Analysis { elements: ast.elements, level: 0, closed: false };
    if fuel <= f0 {
        lemma_analyze_fuel(fuel, f0, n, s, ast.head);
    } else {
        lemma_analyze_fuel(f0, fuel, n, s, ast.head);
    }
}

} // verus!

verus! {

/// The blocks that stand directly in a scope: following the links of `e`
/// from `cur` with `d` scopes open, the blocks met while exactly `k` scopes
/// are open, up to the closing block that leaves fewer than `k` open.
pub open spec fn scope_walk(e: Seq<ElementView>, cur: Option<AstIndex>, d: nat, k: nat) -> Seq<AstIndex>
    decreases dist(e.len(), cur),
{
    match cur {
        None => Seq::empty(),
        Some(c) => if step_ok(e, c, d) {
            let b = block_at(e, c)->Some_0;
            let here = if d == k { seq![c] } else { Seq::<AstIndex>::empty() };
            let d2 = depth_after(b, d);
            if d2 < k {
                here
            } else {
                here + scope_walk(e, b.next(), d2, k)
            }
        } else {
            Seq::empty()
        },
    }
}

/// The blocks of the scope of the render! block at `i`, which stands with `d`
/// scopes open: those met from the block after it, with its own scope open,
/// up to and with the closing block that closes it.
pub open spec fn scope_of_render(e: Seq<ElementView>, i: AstIndex, d: nat) -> Seq<AstIndex> {
    match e[i.0 as int] {
        ElementView::Block(_, BlockView::CodeUnclosed(_, _, nx)) => scope_walk(e, nx, d + 1, d + 1),
        _ => Seq::empty(),
    }
}

/// In `f`, the render! block of `e` at `i`, standing with `d` scopes open,
/// keeps its statement and has the blocks of its scope added to its scope.
pub open spec fn scope_filled(e: Seq<ElementView>, f: Seq<ElementView>, i: AstIndex, d: nat) -> bool {
    i.0 < e.len() ==> match e[i.0 as int] {
        ElementView::Block(_, BlockView::CodeUnclosed(st, scope, _)) => match f[i.0 as int] {
            ElementView::Block(_, BlockView::CodeUnclosed(st2, scope2, _)) => st2 == st && scope2 == scope
                + scope_of_render(e, i, d),
            _ => false,
        },
        _ => true,
    }
}

/// `i` comes before `after`, if there is one.
pub open spec fn comes_before(i: AstIndex, after: Option<AstIndex>) -> bool {
    after matches Some(a) ==> i.0 < a.0
}

proof fn lemma_reaches_forward(e: Seq<ElementView>, x: AstIndex, d: nat, i: AstIndex, di: nat)
    requires
        reaches(e, Some(x), d, Some(i), di),
    ensures
        i.0 >= x.0,
    decreases dist(e.len(), Some(x)),
{
    if x != i {
        assert(step_ok(e, x, d));
        let b = block_at(e, x)->Some_0;
        assert(reaches(e, b.next(), depth_after(b, d), Some(i), di));
        match b.next() {
            Some(y) => {
                assert(y.0 > x.0);
                lemma_reaches_forward(e, y, depth_after(b, d), i, di);
            },
            None => {},
        }
    }
}

proof fn lemma_reaches_split(
    e: Seq<ElementView>,
    x: Option<AstIndex>,
    dx: nat,
    y: AstIndex,
    dy: nat,
    i: AstIndex,
    di: nat,
)
    requires
        reaches(e, x, dx, Some(y), dy),
        reaches(e, x, dx, Some(i), di),
        i.0 >= y.0,
    ensures
        reaches(e, Some(y), dy, Some(i), di),
    decreases dist(e.len(), x),
{
    if !(x == Some(y) && dx == dy) {
        let c = x->Some_0;
        assert(step_ok(e, c, dx));
        let b = block_at(e, c)->Some_0;
        assert(reaches(e, b.next(), depth_after(b, dx), Some(y), dy));
        match b.next() {
            Some(nx) => {
                assert(nx.0 > c.0);
                lemma_reaches_forward(e, nx, depth_after(b, dx), y, dy);
                assert(!(c == i && dx == di));
                assert(reaches(e, b.next(), depth_after(b, dx), Some(i), di));
                lemma_reaches_split(e, b.next(), depth_after(b, dx), y, dy, i, di);
            },
            None => {},
        }
    }
}

proof fn lemma_block_fills(fuel: nat, act: Set<nat>, n: nat, s: Analysis, idx: AstIndex, e: Seq<ElementView>)
    requires
        n == e.len(),
        links_forward(e),
        same_from(s.elements, e, Some(idx)),
        !s.closed,
    ensures
        a_block(fuel, act, n, s, idx) matches Some(Ok((s2, next))) ==> {
            &&& forall|j: int| 0 <= j < idx.0 ==> s2.elements[j] == s.elements[j]
            &&& forall|i: AstIndex, di: nat|
                #![trigger reaches(e, Some(idx), s.level, Some(i), di)]
                reaches(e, Some(idx), s.level, Some(i), di) && comes_before(i, next) ==> scope_filled(
                    e,
                    s2.elements,
                    i,
                    di,
                )
            &&& forall|k: nat|
                1 <= k <= s.level ==> #[trigger] scope_walk(e, Some(idx), s.level, k) == (if s.level == k {
                    seq![idx]
                } else {
                    Seq::<AstIndex>::empty()
                }) + (if s2.level < k {
                    Seq::<AstIndex>::empty()
                } else {
                    scope_walk(e, next, s2.level, k)
                })
        },
    decreases fuel, 2int,
{
    lemma_block_sound(fuel, act, n, s, idx, e);
    if a_block(fuel, act, n, s, idx) matches Some(Ok(_)) {
        let (s2, next) = a_block(fuel, act, n, s, idx)->Some_0->Ok_0;
        let m = s.level;
        assert(s.elements[idx.0 as int] == e[idx.0 as int]);
        let b = e[idx.0 as int]->Block_1;
        assert(step_ok(e, idx, m));
        match b {
            BlockView::CodeUnclosed(st, scope, nx) => {
                let inner = Analysis { level: m + 1, ..s };
                let act2 = act.insert(idx.0 as nat);
                lemma_scope_fills(fuel, act2, n, inner, nx, Seq::empty(), e);
                lemma_scope_sound(fuel, act2, n, inner, nx, Seq::empty(), e);
                let (s2i, collected, after) = scope_loop(fuel, act2, n, inner, nx, Seq::empty())->Some_0->Ok_0;
                assert(after == next);
                assert(nx is Some);
                assert(forall|j: int| 0 <= j < idx.0 ==> s2.elements[j] == s.elements[j]);
                assert forall|k: nat| 1 <= k <= m implies #[trigger] scope_walk(e, Some(idx), m, k) == (if m == k {
                    seq![idx]
                } else {
                    Seq::<AstIndex>::empty()
                }) + (if s2.level < k {
                    Seq::<AstIndex>::empty()
                } else {
                    scope_walk(e, next, s2.level, k)
                }) by {
                    assert(k < inner.level);
                    assert(s2.level == m);
                    assert(scope_walk(e, Some(idx), m, k) == (if m == k {
                        seq![idx]
                    } else {
                        Seq::<AstIndex>::empty()
                    }) + scope_walk(e, nx, m + 1, k));
                    assert(scope_walk(e, nx, m + 1, k) == scope_walk(e, after, m, k));
                }
                assert forall|i: AstIndex, di: nat|
                    reaches(e, Some(idx), m, Some(i), di) && comes_before(i, next) implies scope_filled(
                    e,
                    s2.elements,
                    i,
                    di,
                ) by {
                    if i == idx && di == m {
                        assert(collected =~= Seq::<AstIndex>::empty() + scope_walk(e, nx, m + 1, m + 1));
                    } else {
                        assert(reaches(e, nx, m + 1, Some(i), di));
                        if i == idx {
                            lemma_reaches_forward(e, nx->Some_0, m + 1, i, di);
                        }
                        if i.0 < e.len() {
                            assert(s2.elements[i.0 as int] == s2i.elements[i.0 as int]);
                        }
                    }
                }
            },
            _ => {
                assert forall|i: AstIndex, di: nat|
                    reaches(e, Some(idx), m, Some(i), di) && comes_before(i, next) implies scope_filled(
                    e,
                    s2.elements,
                    i,
                    di,
                ) by {
                    if !(i == idx && di == m) {
                        assert(reaches(e, b.next(), depth_after(b, m), Some(i), di));
                        if b.next() is Some {
                            lemma_reaches_forward(e, b.next()->Some_0, depth_after(b, m), i, di);
                        }
                    }
                }
            },
        }
    }
}

proof fn lemma_scope_fills(
    fuel: nat,
    act: Set<nat>,
    n: nat,
    s: Analysis,
    cur: Option<AstIndex>,
    collected: Seq<AstIndex>,
    e: Seq<ElementView>,
)
    requires
        n == e.len(),
        links_forward(e),
        same_from(s.elements, e, cur),
        !s.closed,
        s.level >= 1,
    ensures
        scope_loop(fuel, act, n, s, cur, collected) matches Some(Ok((s2, all, after))) ==> {
            &&& all == collected + scope_walk(e, cur, s.level, s.level)
            &&& forall|k: nat|
                1 <= k < s.level ==> #[trigger] scope_walk(e, cur, s.level, k) == scope_walk(
                    e,
                    after,
                    (s.level - 1) as nat,
                    k,
                )
            &&& forall|i: AstIndex, di: nat|
                #![trigger reaches(e, cur, s.level, Some(i), di)]
                reaches(e, cur, s.level, Some(i), di) && comes_before(i, after) ==> scope_filled(
                    e,
                    s2.elements,
                    i,
                    di,
                )
            &&& cur matches Some(c) ==> forall|j: int| 0 <= j < c.0 ==> s2.elements[j] == s.elements[j]
        },
    decreases fuel, 1int,
{
    if scope_loop(fuel, act, n, s, cur, collected) matches Some(Ok(_)) {
        let (s3, all, after) = scope_loop(fuel, act, n, s, cur, collected)->Some_0->Ok_0;
        let m = s.level;
        let c = cur->Some_0;
        let g = (fuel - 1) as nat;
        lemma_block_fills(g, act, n, s, c, e);
        lemma_block_sound(g, act, n, s, c, e);
        let (s2, next) = a_block(g, act, n, s, c)->Some_0->Ok_0;
        if s2.closed {
            assert(scope_walk(e, cur, m, m) == seq![c] + Seq::<AstIndex>::empty());
            assert(all =~= collected + scope_walk(e, cur, m, m));
            assert forall|k: nat| 1 <= k < m implies #[trigger] scope_walk(e, cur, m, k) == scope_walk(
                e,
                after,
                (m - 1) as nat,
                k,
            ) by {
                assert(scope_walk(e, Some(c), m, k) == Seq::<AstIndex>::empty() + scope_walk(e, next, s2.level, k));
                assert(Seq::<AstIndex>::empty() + scope_walk(e, next, s2.level, k) =~= scope_walk(e, next, s2.level, k));
            }
            assert forall|i: AstIndex, di: nat|
                reaches(e, cur, m, Some(i), di) && comes_before(i, after) implies scope_filled(e, s3.elements, i, di) by {
                assert(reaches(e, Some(c), m, Some(i), di));
            }
        } else {
            lemma_scope_fills(g, act, n, s2, next, collected.push(c), e);
            assert(s2.level == m);
            assert(scope_loop(fuel, act, n, s, cur, collected) == scope_loop(g, act, n, s2, next, collected.push(c)));
            assert(scope_walk(e, Some(c), m, m) == seq![c] + scope_walk(e, next, m, m));
            assert(all =~= collected + scope_walk(e, cur, m, m));
            assert forall|k: nat| 1 <= k < m implies #[trigger] scope_walk(e, cur, m, k) == scope_walk(
                e,
                after,
                (m - 1) as nat,
                k,
            ) by {
                assert(scope_walk(e, Some(c), m, k) == Seq::<AstIndex>::empty() + scope_walk(e, next, m, k));
                assert(Seq::<AstIndex>::empty() + scope_walk(e, next, m, k) =~= scope_walk(e, next, m, k));
                assert(scope_walk(e, next, s2.level, k) == scope_walk(e, after, (s2.level - 1) as nat, k));
            }
            assert forall|i: AstIndex, di: nat|
                reaches(e, cur, m, Some(i), di) && comes_before(i, after) implies scope_filled(e, s3.elements, i, di) by {
                assert(reaches(e, Some(c), m, Some(i), di));
                let np = next->Some_0;
                if i.0 < np.0 {
                    assert(comes_before(i, next));
                    assert(scope_filled(e, s2.elements, i, di));
                    assert(s3.elements[i.0 as int] == s2.elements[i.0 as int]);
                } else {
                    lemma_reaches_split(e, cur, m, np, m, i, di);
                    assert(reaches(e, next, s2.level, Some(i), di));
                }
            }
        }
    }
}

proof fn lemma_analyze_fills(fuel: nat, n: nat, s: Analysis, cur: Option<AstIndex>, e: Seq<ElementView>)
    requires
        n == e.len(),
        links_forward(e),
        same_from(s.elements, e, cur),
        !s.closed,
        s.level == 0,
    ensures
        analyze_from(fuel, n, s, cur) matches Some(Ok(s2)) ==> {
            &&& forall|i: AstIndex, di: nat|
                #![trigger reaches(e, cur, 0, Some(i), di)]
                reaches(e, cur, 0, Some(i), di) ==> scope_filled(e, s2.elements, i, di)
            &&& cur matches Some(c) ==> forall|j: int| 0 <= j < c.0 ==> s2.elements[j] == s.elements[j]
        },
    decreases fuel,
{
    if analyze_from(fuel, n, s, cur) matches Some(Ok(_)) {
        let s3 = analyze_from(fuel, n, s, cur)->Some_0->Ok_0;
        match cur {
            None => {},
            Some(c) => {
                let g = (fuel - 1) as nat;
                lemma_block_fills(g, Set::empty(), n, s, c, e);
                lemma_block_sound(g, Set::empty(), n, s, c, e);
                let (s2, next) = a_block(g, Set::empty(), n, s, c)->Some_0->Ok_0;
                lemma_analyze_fills(g, n, s2, next, e);
                assert forall|i: AstIndex, di: nat| reaches(e, cur, 0, Some(i), di) implies scope_filled(
                    e,
                    s3.elements,
                    i,
                    di,
                ) by {
                    match next {
                        None => {
                            assert(comes_before(i, next));
                        },
                        Some(np) => {
                            if i.0 < np.0 {
                                assert(comes_before(i, next));
                                assert(s3.elements[i.0 as int] == s2.elements[i.0 as int]);
                            } else {
                                lemma_reaches_split(e, cur, 0, np, 0, i, di);
                            }
                        },
                    }
                }
            },
        }
    }
}

/// Every render! block is given the blocks of its own scope, at whatever
/// depth it stands: on a tree whose blocks link forward, for every render!
/// block that the walk from the head meets with `d` scopes open, the
/// analysed block keeps its statement and its scope is followed by the
/// blocks met from the block after it, with its scope open, up to and with
/// the closing block that closes it; blocks of scopes nested in it belong to
/// those scopes.
pub proof fn lemma_analysis_fills_each_scope(ast: AstView, i: AstIndex, d: nat)
    requires
        links_forward(ast.elements),
        reaches(ast.elements, ast.head, 0, Some(i), d),
        spec_analyze(ast) is Ok,
    ensures
        scope_filled(ast.elements, spec_analyze(ast)->Ok_0.elements, i, d),
{
    lemma_analysis_accepts_balanced(ast);
    let f = ending_fuel(ast);
    assert(spec_analyze_with(ast, f) is Some);
    lemma_analyze_fills(f, ast.elements.len(), Analysis { elements: ast.elements, level: 0, closed: false }, ast.head, ast.elements);
}

} // verus!
