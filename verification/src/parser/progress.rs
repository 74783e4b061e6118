//! Every rule of the parser that succeeds reads at least one token, so the
//! parser never stops because a rule read none.
use vstd::prelude::*;

use crate::ast::{AstIndex, AstView, ElementView};
use crate::tokens::{Action, Op, TokenView};
use super::error::ParseFailure;
use super::spec::{
    fail, is_op, no_progress, p_args, p_binding, p_block, p_block_code, p_blocks, p_decls, p_expression, p_pattern,
    p_refs, p_statement, p_transforms, pattern_end_msg, spec_parse,
};

verus! {

/// The message of the failure that no rule ever gives.
pub open spec fn no_progress_msg() -> Seq<char> {
    "Parser: a rule read no token."@
}

/// The result is not the failure of a rule that read no token.
pub open spec fn not_stuck<T>(r: Result<T, ParseFailure>) -> bool {
    r matches Err(f) ==> f != no_progress()
}

proof fn lemma_messages_differ()
    ensures
        no_progress() == fail(no_progress_msg()),
        "Expected Action to start in Block"@ != no_progress_msg(),
        "Expected Operator(BlockClose)"@ != no_progress_msg(),
        "Expected Operator(BlockOpen)"@ != no_progress_msg(),
        "Expected a Decleration Pattern to assign an expression to in a let! statement."@ != no_progress_msg(),
        "Expected a comma or close parenthesis to complete an argument list."@ != no_progress_msg(),
        "Expected a label after dot operator"@ != no_progress_msg(),
        "Expected expressions: Reference, StringLiteral, NumberLiteral"@ != no_progress_msg(),
        "Expected label for decleration in Pattern"@ != no_progress_msg(),
        "Expected to fetch a statement to derive the block type."@ != no_progress_msg(),
        "Expected transform label after Pipe Operator."@ != no_progress_msg(),
        "Parser<parse>: last_idx does not point to a Block element."@ != no_progress_msg(),
        "Expected assign operator."@ != no_progress_msg(),
        "Expected Operator(Assign)."@ != no_progress_msg(),
        "Expected each operator."@ != no_progress_msg(),
        "Expected Operator(Each)"@ != no_progress_msg(),
        pattern_end_msg() != no_progress_msg(),
{
    reveal_strlit("Parser: a rule read no token.");
    reveal_strlit("Expected Action to start in Block");
    reveal_strlit("Expected Operator(BlockClose)");
    reveal_strlit("Expected Operator(BlockOpen)");
    reveal_strlit("Expected a Decleration Pattern to assign an expression to in a let! statement.");
    reveal_strlit("Expected a comma or close parenthesis to complete an argument list.");
    reveal_strlit("Expected a label after dot operator");
    reveal_strlit("Expected expressions: Reference, StringLiteral, NumberLiteral");
    reveal_strlit("Expected label for decleration in Pattern");
    reveal_strlit("Expected to fetch a statement to derive the block type.");
    reveal_strlit("Expected transform label after Pipe Operator.");
    reveal_strlit("Parser<parse>: last_idx does not point to a Block element.");
    reveal_strlit("Expected assign operator.");
    reveal_strlit("Expected Operator(Assign).");
    reveal_strlit("Expected each operator.");
    reveal_strlit("Expected Operator(Each)");
    reveal_strlit("Expected either a Close Parenthesis to end the Pattern, or a comma to continue the pattern.");
    assert(no_progress_msg()[0] == 'P' && no_progress_msg()[6] == ':');
    assert("Expected Action to start in Block"@[0] == 'E');
    assert("Expected Operator(BlockClose)"@[0] == 'E');
    assert("Expected Operator(BlockOpen)"@[0] == 'E');
    assert("Expected a Decleration Pattern to assign an expression to in a let! statement."@[0] == 'E');
    assert("Expected a comma or close parenthesis to complete an argument list."@[0] == 'E');
    assert("Expected a label after dot operator"@[0] == 'E');
    assert("Expected expressions: Reference, StringLiteral, NumberLiteral"@[0] == 'E');
    assert("Expected label for decleration in Pattern"@[0] == 'E');
    assert("Expected to fetch a statement to derive the block type."@[0] == 'E');
    assert("Expected transform label after Pipe Operator."@[0] == 'E');
    assert("Expected assign operator."@[0] == 'E');
    assert("Expected Operator(Assign)."@[0] == 'E');
    assert("Expected each operator."@[0] == 'E');
    assert("Expected Operator(Each)"@[0] == 'E');
    assert("Expected either a Close Parenthesis to end the Pattern, or a comma to continue the pattern."@[0] == 'E');
    assert("Parser<parse>: last_idx does not point to a Block element."@[6] == '<');
}

proof fn lemma_refs_progress(t: Seq<TokenView>, refs: Seq<TokenView>)
    ensures
        not_stuck(p_refs(t, refs)),
        p_refs(t, refs) matches Ok((t2, _)) ==> t2.len() <= t.len(),
    decreases t.len(),
{
    lemma_messages_differ();
    if t.len() > 1 && is_op(t[0], Op::Dot) && t.drop_first()[0] is Label {
        lemma_refs_progress(t.drop_first().drop_first(), refs.push(t.drop_first()[0]));
    }
}

proof fn lemma_decls_progress(t: Seq<TokenView>, decls: Seq<TokenView>)
    ensures
        not_stuck(p_decls(t, decls)),
        p_decls(t, decls) matches Ok((t2, _)) ==> t2.len() < t.len(),
    decreases t.len(),
{
    lemma_messages_differ();
    if t.len() > 1 && t[0] is Label && is_op(t.drop_first()[0], Op::Comma) {
        lemma_decls_progress(t.drop_first().drop_first(), decls.push(t[0]));
    }
}

proof fn lemma_expression_progress(t: Seq<TokenView>, e: Seq<ElementView>)
    ensures
        not_stuck(p_expression(t, e)),
        p_expression(t, e) matches Ok(p) ==> p.rest.len() < t.len(),
    decreases t.len(), 1int,
{
    lemma_messages_differ();
    if t.len() > 0 {
        if t[0] is StringLiteral || t[0] is NumberLiteral {
            lemma_transforms_progress(t.drop_first(), e, Seq::empty());
        } else if t[0] is Label {
            lemma_refs_progress(t.drop_first(), seq![t[0]]);
            if p_refs(t.drop_first(), seq![t[0]]) is Ok {
                let (t1, refs) = p_refs(t.drop_first(), seq![t[0]])->Ok_0;
                lemma_transforms_progress(t1, e, Seq::empty());
            }
        }
    }
}

proof fn lemma_transforms_progress(t: Seq<TokenView>, e: Seq<ElementView>, trs: Seq<AstIndex>)
    ensures
        not_stuck(p_transforms(t, e, trs)),
        p_transforms(t, e, trs) matches Ok((t2, _, _)) ==> t2.len() <= t.len(),
    decreases t.len(), 0int,
{
    lemma_messages_differ();
    if t.len() > 2 && is_op(t[0], Op::Pipe) && t[1] is Label {
        let label = t[1];
        let t2 = t.drop_first().drop_first();
        if is_op(t2[0], Op::ParenOpen) {
            lemma_args_progress(t2.drop_first(), e, Seq::empty());
            if p_args(t2.drop_first(), e, Seq::empty()) is Ok {
                let (t3, e3, args) = p_args(t2.drop_first(), e, Seq::empty())->Ok_0;
                let el = ElementView::Transform(
                    crate::ast::ast::next_index(e3),
                    crate::ast::TransformView { name: label, arguments: args },
                );
                lemma_transforms_progress(t3, e3.push(el), trs.push(crate::ast::ast::next_index(e3)));
            }
        } else {
            let el = ElementView::Transform(
                crate::ast::ast::next_index(e),
                crate::ast::TransformView { name: label, arguments: Seq::empty() },
            );
            lemma_transforms_progress(t2, e.push(el), trs.push(crate::ast::ast::next_index(e)));
        }
    }
}

proof fn lemma_args_progress(t: Seq<TokenView>, e: Seq<ElementView>, args: Seq<AstIndex>)
    ensures
        not_stuck(p_args(t, e, args)),
        p_args(t, e, args) matches Ok((t2, _, _)) ==> t2.len() < t.len(),
    decreases t.len(), 2int,
{
    lemma_messages_differ();
    lemma_expression_progress(t, e);
    if p_expression(t, e) is Ok {
        let p = p_expression(t, e)->Ok_0;
        let t1 = p.rest;
        if t1.len() > 0 && is_op(t1[0], Op::Comma) {
            lemma_args_progress(t1.drop_first(), p.elements, args.push(p.index));
        }
    }
}

proof fn lemma_pattern_progress(t: Seq<TokenView>, e: Seq<ElementView>)
    ensures
        not_stuck(p_pattern(t, e)),
        p_pattern(t, e) matches Ok(p) ==> p.rest.len() < t.len(),
{
    lemma_messages_differ();
    if t.len() > 0 {
        lemma_decls_progress(t.drop_first(), Seq::empty());
    }
}

proof fn lemma_binding_progress(t: Seq<TokenView>, e: Seq<ElementView>, op: Op, wrong_op: Seq<char>, not_op: Seq<char>)
    requires
        wrong_op != no_progress_msg(),
        not_op != no_progress_msg(),
    ensures
        not_stuck(p_binding(t, e, op, wrong_op, not_op)),
        p_binding(t, e, op, wrong_op, not_op) matches Ok((t2, _, _, _)) ==> t2.len() < t.len(),
{
    lemma_messages_differ();
    lemma_pattern_progress(t, e);
    if p_pattern(t, e) is Ok {
        let pattern = p_pattern(t, e)->Ok_0;
        let t1 = pattern.rest;
        if t1.len() > 0 {
            lemma_expression_progress(t1.drop_first(), pattern.elements);
        }
    }
}

proof fn lemma_statement_progress(t: Seq<TokenView>, e: Seq<ElementView>)
    ensures
        not_stuck(p_statement(t, e)),
        p_statement(t, e) matches Ok(p) ==> p.rest.len() < t.len(),
{
    lemma_messages_differ();
    if t.len() > 0 {
        let t1 = t.drop_first();
        lemma_binding_progress(t1, e, Op::Assign, "Expected assign operator."@, "Expected Operator(Assign)."@);
        lemma_binding_progress(t1, e, Op::Each, "Expected each operator."@, "Expected Operator(Each)"@);
        lemma_expression_progress(t1, e);
    }
}

proof fn lemma_block_progress(t: Seq<TokenView>, e: Seq<ElementView>)
    ensures
        not_stuck(p_block(t, e)),
        p_block(t, e) matches Ok(p) ==> p.rest.len() < t.len(),
{
    lemma_messages_differ();
    if t.len() > 0 {
        lemma_statement_progress(t.drop_first(), e);
        assert(not_stuck(p_block_code(t, e)));
    }
}

proof fn lemma_blocks_progress(t: Seq<TokenView>, ast: AstView, last: Option<AstIndex>)
    ensures
        not_stuck(p_blocks(t, ast, last)),
    decreases t.len(),
{
    lemma_messages_differ();
    if t.len() > 0 {
        lemma_block_progress(t, ast.elements);
        if p_block(t, ast.elements) is Ok {
            let p = p_block(t, ast.elements)->Ok_0;
            match last {
                Some(l) => {
                    if super::spec::link(p.elements, l, p.index) is Ok {
                        let e2 = super::spec::link(p.elements, l, p.index)->Ok_0;
                        lemma_blocks_progress(p.rest, AstView { elements: e2, head: ast.head }, Some(p.index));
                    }
                },
                None => {
                    lemma_blocks_progress(p.rest, AstView { elements: p.elements, head: Some(p.index) }, Some(p.index));
                },
            }
        }
    }
}

/// Every rule of the parser that succeeds reads at least one token: so the
/// parser never fails with "Parser: a rule read no token.", whatever the
/// tokens; the checks that guard against it never decide.
pub proof fn lemma_parser_always_progresses(tokens: Seq<TokenView>)
    ensures
        spec_parse(tokens) matches Err(f) ==> f != no_progress(),
{
    lemma_blocks_progress(tokens, AstView { elements: Seq::empty(), head: None }, None);
}

} // verus!
