//! A template language: text with code blocks `{{ .. }}` that write values,
//! bind names and render the blocks of a scope once for each item of a list.
//! A template goes through the lexer, the parser and the semantic analysis;
//! the result is a syntax tree that a runtime renders.
use vstd::prelude::*;

pub mod common;
pub mod tokens;
pub mod lexer;
pub mod ast;
pub mod parser;
pub mod semantics;
pub mod runtime;

use ast::{Ast, AstView};
use tokens::Token;

verus! {

/// The tokens of a template the lexer accepts.
pub fn run_lexer(input: &str) -> (tokens: Vec<Token>)
    requires
        input@.len() <= usize::MAX / 8,
        lexer::spec_run(input@) is Ok,
    ensures
        lexer::views(tokens@) == lexer::spec_run(input@)->Ok_0,
{
    match lexer::run(input) {
        Ok(tokens) => tokens,
        Err(_) => {
            assert(false);
            Vec::new()
        },
    }
}

/// The syntax tree of tokens the parser accepts.
pub fn run_parser(input: Vec<Token>) -> (ast: Ast)
    requires
        parser::spec::spec_parse(lexer::views(input@)) is Ok,
    ensures
        ast@ == parser::spec::spec_parse(lexer::views(input@))->Ok_0,
{
    match parser::run(input) {
        Ok(ast) => ast,
        Err(_) => {
            assert(false);
            Ast::new()
        },
    }
}

/// The analysed tree of a syntax tree the semantic analysis accepts.
pub fn run_semantics(input: Ast) -> (ast: Ast)
    requires
        semantics::analysis_ends(input@),
        semantics::spec_analyze(input@) is Ok,
    ensures
        ast@ == semantics::spec_analyze(input@)->Ok_0,
{
    match semantics::analyze(input) {
        Ok(ast) => ast,
        Err(_) => {
            assert(false);
            Ast::new()
        },
    }
}

/// What the front end makes of a template: the analysed syntax tree, or the
/// message of the stage that refused it.
pub enum Compiled {
    Tree(AstView),
    Refused(Seq<char>),
}

pub open spec fn spec_compile(input: Seq<char>) -> Compiled {
    match lexer::spec_run(input) {
        Err(e) => Compiled::Refused(e),
        Ok(tokens) => match parser::spec::spec_parse(tokens) {
            Err(f) => Compiled::Refused(f.message()),
            Ok(tree) => match semantics::spec_analyze(tree) {
                Err(e) => Compiled::Refused(e),
                Ok(analysed) => Compiled::Tree(analysed),
            },
        },
    }
}

/// The parser links the blocks of every tree it builds in the order of its
/// arena, so the analysis of such a tree comes to an end.
pub proof fn lemma_parsed_trees_end(tokens: Seq<tokens::TokenView>)
    requires
        tokens.len() <= usize::MAX,
    ensures
        parser::spec::spec_parse(tokens) matches Ok(tree) ==> semantics::properties::links_forward(tree.elements)
            && semantics::analysis_ends(tree),
{
    parser::order::lemma_parsed_blocks_in_order(tokens);
    if parser::spec::spec_parse(tokens) is Ok {
        let tree = parser::spec::spec_parse(tokens)->Ok_0;
        let e = tree.elements;
        assert forall|i: int| 0 <= i < e.len() && (#[trigger] e[i]) is Block implies match e[i]->Block_1.next() {
            Some(j) => j.0 > i,
            None => true,
        } by {
            assert(e[i] is Block);
        }
        semantics::properties::lemma_analysis_accepts_balanced(tree);
    }
}

/// Lexes, parses and analyses a template; an error carries the message of the
/// stage that refused the template.
pub fn compile(input: &str) -> (r: Result<Ast, String>)
    requires
        input@.len() <= usize::MAX / 8,
    ensures
        match spec_compile(input@) {
            Compiled::Tree(tree) => r is Ok && r->Ok_0@ == tree,
            Compiled::Refused(msg) => r is Err && r->Err_0@ == msg,
        },
{
    let tokens = match lexer::run(input) {
        Ok(tokens) => tokens,
        Err(e) => return Err(e),
    };
    proof {
        lexer::properties::lemma_tokens_at_most_chars(input@);
        lemma_parsed_trees_end(lexer::views(tokens@));
    }
    let tree = match parser::run(tokens) {
        Ok(tree) => tree,
        Err(e) => return Err(e.message()),
    };
    semantics::analyze(tree)
}

/// Every template the front end accepts gives a well formed tree: one that
/// can be printed and walked without ever leaving its arena.
pub proof fn lemma_compiled_trees_are_well_formed(input: Seq<char>)
    requires
        input.len() <= usize::MAX,
    ensures
        spec_compile(input) matches Compiled::Tree(tree) ==> ast::shape::well_formed(tree),
{
    lexer::properties::lemma_tokens_at_most_chars(input);
    if lexer::spec_run(input) is Ok {
        let tokens = lexer::spec_run(input)->Ok_0;
        parser::properties::lemma_parse_well_formed(tokens);
        lemma_parsed_trees_end(tokens);
        if parser::spec::spec_parse(tokens) is Ok {
            semantics::properties::lemma_analysis_keeps_well_formed(parser::spec::spec_parse(tokens)->Ok_0);
        }
    }
}

/// Every template the front end accepts gives a tree that the runtime can
/// read: the statement of each render! block and the pattern of each let!
/// or render! statement lie in the tree, every pattern declares labels only,
/// and every reference follows at least one name, each a label.
pub proof fn lemma_compiled_trees_can_run(input: Seq<char>)
    requires
        input.len() <= usize::MAX,
    ensures
        spec_compile(input) matches Compiled::Tree(tree) ==> {
            &&& forall|b: ast::AstIndex| b.0 < tree.elements.len() ==> #[trigger] runtime::steps::block_readable(tree, Some(b))
            &&& forall|s: ast::AstIndex| s.0 < tree.elements.len() ==> #[trigger] runtime::steps::statement_readable(tree, s)
            &&& forall|x: ast::AstIndex| x.0 < tree.elements.len() ==> #[trigger] runtime::steps::expression_readable(tree, x)
        },
{
    lemma_compiled_trees_are_well_formed(input);
    lexer::properties::lemma_tokens_at_most_chars(input);
    if lexer::spec_run(input) is Ok {
        let tokens = lexer::spec_run(input)->Ok_0;
        parser::properties::lemma_parsed_names_are_labels(tokens);
        lemma_parsed_trees_end(tokens);
        if parser::spec::spec_parse(tokens) is Ok {
            let parsed = parser::spec::spec_parse(tokens)->Ok_0;
            semantics::properties::lemma_analysis_changes_blocks_only(parsed);
            if semantics::spec_analyze(parsed) is Ok {
                let tree = semantics::spec_analyze(parsed)->Ok_0;
                let n = tree.elements.len();
                assert(ast::shape::labels_only(tree.elements)) by {
                    assert forall|i: int| 0 <= i < n implies #[trigger] ast::shape::names_are_labels(tree.elements[i]) by {
                        assert(semantics::properties::kept(parsed.elements[i], tree.elements[i]));
                        assert(ast::shape::names_are_labels(parsed.elements[i]));
                    }
                }
                assert forall|b: ast::AstIndex| b.0 < n implies #[trigger] runtime::steps::block_readable(tree, Some(b)) by {
                    assert(ast::shape::element_in(tree.elements[b.0 as int], n));
                    if let ast::ElementView::Block(_, ast::BlockView::CodeUnclosed(st, _, _)) = tree.elements[b.0 as int] {
                        assert(ast::shape::element_in(tree.elements[st.0 as int], n));
                        if let ast::ElementView::Statement(_, ast::StatementView::Render(_, p, _)) = tree.elements[st.0 as int] {
                            assert(ast::shape::names_are_labels(tree.elements[p.0 as int]));
                        }
                    }
                }
                assert forall|x: ast::AstIndex| x.0 < n implies #[trigger] runtime::steps::expression_readable(tree, x) by {
                    assert(ast::shape::names_are_labels(tree.elements[x.0 as int]));
                }
                assert forall|st: ast::AstIndex| st.0 < n implies #[trigger] runtime::steps::statement_readable(tree, st) by {
                    assert(ast::shape::element_in(tree.elements[st.0 as int], n));
                    if let ast::ElementView::Statement(_, ast::StatementView::Let(_, p, _)) = tree.elements[st.0 as int] {
                        assert(ast::shape::names_are_labels(tree.elements[p.0 as int]));
                    }
                }
            }
        }
    }
}

} // verus!
