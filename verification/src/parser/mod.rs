//! The parser: builds the syntax tree of a template from its tokens.
use vstd::prelude::*;

pub mod error;
pub mod spec;
pub mod order;
pub mod progress;
pub mod properties;
pub mod node;
pub mod tree;
pub mod lexemes;

use crate::ast::ast::grown;
use crate::ast::{Ast, AstIndex, AstView, Block, Expression, Pattern, Pushable, Statement, Transform};
use crate::ast::ast::AstElement;
use crate::lexer::views;
use crate::tokens::{Action, Op, Token, TokenView};
use error::{ErrorKind, ParseFailure, ParserError};
use spec::{
    rest_of,
    block_for, end_of_stream, p_args, p_binding, p_block, p_block_code, p_blocks, p_decls, p_expression,
    p_pattern, p_refs, p_statement, p_transforms, spec_parse, ParseResult,
};

verus! {

/// The tokens that are still to be read.
pub struct Parser(Vec<Token>);

impl View for Parser {
    type V = Seq<TokenView>;

    /// The tokens are kept in reverse order, so that the next one is the last.
    closed spec fn view(&self) -> Seq<TokenView> {
        Seq::new(self.0@.len(), |i: int| self.0@[self.0@.len() - 1 - i]@)
    }
}

broadcast use {
    spec::lemma_rest_refl,
    spec::lemma_rest_trans,
    crate::ast::ast::lemma_grown_refl,
    crate::ast::ast::lemma_grown_trans,
};

/// The result of a rule run against what the rule's specification says.
pub open spec fn parsed(
    r: Result<AstIndex, ParserError>,
    expected: ParseResult,
    parser: Seq<TokenView>,
    ast: AstView,
    old_ast: AstView,
) -> bool {
    match expected {
        Ok(p) => {
            &&& r == Ok::<AstIndex, ParserError>(p.index)
            &&& parser == p.rest
            &&& ast.elements == p.elements
            &&& ast.head == old_ast.head
        },
        Err(f) => r is Err && r->Err_0@ == f,
    }
}

impl Parser {
    pub fn new(tokens: Vec<Token>) -> (parser: Parser)
        ensures
            parser@ == views(tokens@),
    {
        let ghost all = views(tokens@);
        let mut input = tokens;
        let mut reversed: Vec<Token> = Vec::new();
        while input.len() > 0
            invariant
                views(input@) + Parser(reversed)@ == all,
            decreases input.len(),
        {
            let ghost before = input@;
            let token = input.pop().unwrap();
            reversed.push(token);
            assert(views(input@) + Parser(reversed)@ =~= views(before) + Parser(reversed)@.drop_first());
            assert(views(before) =~= views(input@).push(token@));
            assert(Parser(reversed)@ =~= seq![token@] + Parser(reversed)@.drop_first());
            assert(views(input@) + Parser(reversed)@ =~= all);
        }
        assert(views(input@) =~= Seq::<TokenView>::empty());
        assert(Parser(reversed)@ =~= all);
        Parser(reversed)
    }

    fn peek(&self) -> (t: Option<&Token>)
        ensures
            t is Some <==> self@.len() > 0,
            t matches Some(token) ==> token@ == self@[0],
    {
        if self.0.len() == 0 {
            None
        } else {
            Some(&self.0[self.0.len() - 1])
        }
    }

    /// Removes the next token and hands it out.
    fn consume(&mut self) -> (t: Token)
        requires
            old(self)@.len() > 0,
        ensures
            t@ == old(self)@[0],
            final(self)@ == old(self)@.drop_first(),
            rest_of(old(self)@, final(self)@),
    {
        let t = self.0.pop().unwrap();
        assert(self@ =~= old(self)@.drop_first());
        assert(self@ =~= old(self)@.skip(1));
        t
    }

    fn end_of_token_stream(&self) -> (b: bool)
        ensures
            b == (self@.len() == 0),
    {
        self.0.len() == 0
    }

    fn remaining(&self) -> (n: usize)
        ensures
            n == self@.len(),
    {
        self.0.len()
    }

    /// Parses every remaining token into a syntax tree.
    pub fn parse(parser: &mut Parser) -> (r: Result<Ast, ParserError>)
        ensures
            match spec_parse(old(parser)@) {
                Ok(ast) => r is Ok && r->Ok_0@ == ast,
                Err(f) => r is Err && r->Err_0@ == f,
            },
            rest_of(old(parser)@, final(parser)@),
            r is Ok ==> final(parser)@.len() == 0,
    {
        parse(parser)
    }
}

pub open spec fn parse_result(r: Result<Ast, ParserError>, expected: Result<AstView, ParseFailure>) -> bool {
    match expected {
        Ok(ast) => r is Ok && r->Ok_0@ == ast,
        Err(f) => r is Err && r->Err_0@ == f,
    }
}

/// The syntax tree of a sequence of tokens.
pub fn run(tokens: Vec<Token>) -> (r: Result<Ast, ParserError>)
    ensures
        parse_result(r, spec_parse(views(tokens@))),
{
    let mut parser = Parser::new(tokens);
    parse(&mut parser)
}

fn end_of_stream_error() -> (e: ParserError)
    ensures
        e@ == end_of_stream(),
{
    ParserError::kind(ErrorKind::UnexpectedEndOfTokenStream)
}

fn parse(parser: &mut Parser) -> (r: Result<Ast, ParserError>)
    ensures
        parse_result(r, spec_parse(old(parser)@)),
        rest_of(old(parser)@, final(parser)@),
        r is Ok ==> final(parser)@.len() == 0,
{
    let mut ast = Ast::new();
    let mut last_idx: Option<AstIndex> = None;
    while !parser.end_of_token_stream()
        invariant
            p_blocks(parser@, ast@, last_idx) == spec_parse(old(parser)@),
            rest_of(old(parser)@, parser@),
            last_idx is None ==> ast@.head is None,
        decreases parser@.len(),
    {
        let before = parser.remaining();
        let new_idx = match parse_block(parser, &mut ast) {
            Ok(i) => i,
            Err(e) => return Err(e),
        };
        if parser.remaining() >= before {
            return Err(ParserError::custom("Parser: a rule read no token."));
        }
        match last_idx {
            Some(idx) => {
                // Link the block before to the new one
                if idx.0 >= ast.len() || !ast.set_next(idx, new_idx) {
                    return Err(
                        ParserError::custom(
                            "Parser<parse>: last_idx does not point to a Block element.",
                        ),
                    );
                }
                last_idx = Some(new_idx);
            },
            None => {
                // The first block is the head
                ast.set_head(new_idx);
                last_idx = Some(new_idx);
            },
        }
    }
    Ok(ast)
}

fn parse_block(parser: &mut Parser, ast: &mut Ast) -> (r: Result<AstIndex, ParserError>)
    ensures
        parsed(r, p_block(old(parser)@, old(ast)@.elements), final(parser)@, final(ast)@, old(ast)@),
        rest_of(old(parser)@, final(parser)@),
        grown(old(ast)@, final(ast)@),
        old(parser)@.len() == 0 ==> final(parser)@ == old(parser)@ && final(ast)@ == old(ast)@,
{
    match parser.peek() {
        None => Err(end_of_stream_error()),
        Some(Token::StringLiteral(_, _)) => {
            let text = parser.consume();
            let index = ast.push(Block::Text(text, None));
            Ok(index)
        },
        Some(_) => parse_block_code(parser, ast),
    }
}

fn parse_block_code(parser: &mut Parser, ast: &mut Ast) -> (r: Result<AstIndex, ParserError>)
    ensures
        parsed(r, p_block_code(old(parser)@, old(ast)@.elements), final(parser)@, final(ast)@, old(ast)@),
        rest_of(old(parser)@, final(parser)@),
        grown(old(ast)@, final(ast)@),
        old(parser)@.len() == 0 ==> final(parser)@ == old(parser)@ && final(ast)@ == old(ast)@,
{
    match parser.peek() {
        None => return Err(end_of_stream_error()),
        Some(Token::Operator(Op::BlockOpen, _)) => {
            let _block_open = parser.consume();
        },
        Some(_) => return Err(ParserError::custom("Expected Operator(BlockOpen)")),
    }

    let statement_idx = match parse_statement(parser, ast) {
        Ok(i) => i,
        Err(e) => return Err(e),
    };

    match parser.peek() {
        None => return Err(end_of_stream_error()),
        Some(Token::Operator(Op::BlockClose, _)) => {
            let _block_close = parser.consume();
        },
        Some(_) => return Err(ParserError::custom("Expected Operator(BlockClose)")),
    }

    // The statement decides the kind of block
    if statement_idx.0 >= ast.len() {
        return Err(ParserError::custom("Expected to fetch a statement to derive the block type."));
    }
    let block = match ast.get(statement_idx) {
        AstElement::Statement(_, statement) => match statement {
            Statement::End(_) => Block::CodeClosing(statement_idx, None),
            Statement::Let(_, _, _) => Block::CodeEnclosed(statement_idx, None),
            // The scope is filled in by the semantic analysis
            Statement::Render(_, _, _) => Block::CodeUnclosed(statement_idx, Vec::new(), None),
            Statement::Write(_, _) => Block::CodeEnclosed(statement_idx, None),
        },
        _ => {
            return Err(
                ParserError::custom("Expected to fetch a statement to derive the block type."),
            )
        },
    };
    assert(block@ == block_for(ast@.elements[statement_idx.0 as int]->Statement_1, statement_idx));
    Ok(ast.push(block))
}

fn parse_statement(parser: &mut Parser, ast: &mut Ast) -> (r: Result<AstIndex, ParserError>)
    ensures
        parsed(r, p_statement(old(parser)@, old(ast)@.elements), final(parser)@, final(ast)@, old(ast)@),
        rest_of(old(parser)@, final(parser)@),
        grown(old(ast)@, final(ast)@),
        old(parser)@.len() == 0 ==> final(parser)@ == old(parser)@ && final(ast)@ == old(ast)@,
{
    match parser.peek() {
        None => Err(end_of_stream_error()),
        Some(Token::Action(Action::End, _)) => {
            let action = parser.consume();
            Ok(ast.push(Statement::End(action)))
        },
        Some(Token::Action(Action::Let, _)) => {
            let action = parser.consume();
            match parse_binding(
                parser,
                ast,
                Op::Assign,
                "Expected assign operator.",
                "Expected Operator(Assign).",
            ) {
                Ok((pattern, expression)) => Ok(ast.push(Statement::Let(action, pattern, expression))),
                Err(e) => Err(e),
            }
        },
        Some(Token::Action(Action::Render, _)) => {
            let action = parser.consume();
            match parse_binding(
                parser,
                ast,
                Op::Each,
                "Expected each operator.",
                "Expected Operator(Each)",
            ) {
                Ok((pattern, expression)) => Ok(ast.push(Statement::Render(action, pattern, expression))),
                Err(e) => Err(e),
            }
        },
        Some(Token::Action(Action::Write, _)) => {
            let action = parser.consume();
            match parse_expression(parser, ast) {
                Ok(expression) => Ok(ast.push(Statement::Write(action, expression))),
                Err(e) => Err(e),
            }
        },
        Some(_) => Err(ParserError::custom("Expected Action to start in Block")),
    }
}

/// `pattern <op> expression`, for let! and render!.
fn parse_binding(
    parser: &mut Parser,
    ast: &mut Ast,
    op: Op,
    wrong_op: &str,
    not_op: &str,
) -> (r: Result<(AstIndex, AstIndex), ParserError>)
    ensures
        match p_binding(old(parser)@, old(ast)@.elements, op, wrong_op@, not_op@) {
            Ok((rest, elements, pattern, expression)) => {
                &&& r == Ok::<(AstIndex, AstIndex), ParserError>((pattern, expression))
                &&& final(parser)@ == rest
                &&& final(ast)@.elements == elements
                &&& final(ast)@.head == old(ast)@.head
            },
            Err(f) => r is Err && r->Err_0@ == f,
        },
        rest_of(old(parser)@, final(parser)@),
        grown(old(ast)@, final(ast)@),
        old(parser)@.len() == 0 ==> final(parser)@ == old(parser)@ && final(ast)@ == old(ast)@,
{
    let pattern = match parse_pattern_decleration(parser, ast) {
        Ok(i) => i,
        Err(e) => return Err(e),
    };
    match parser.peek() {
        None => return Err(end_of_stream_error()),
        Some(Token::Operator(o, _)) => {
            if *o == op {
                let _operator = parser.consume();
            } else {
                return Err(ParserError::custom(wrong_op));
            }
        },
        Some(_) => return Err(ParserError::custom(not_op)),
    }
    match parse_expression(parser, ast) {
        Ok(expression) => Ok((pattern, expression)),
        Err(e) => Err(e),
    }
}

fn parse_expression(parser: &mut Parser, ast: &mut Ast) -> (r: Result<AstIndex, ParserError>)
    ensures
        parsed(r, p_expression(old(parser)@, old(ast)@.elements), final(parser)@, final(ast)@, old(ast)@),
        rest_of(old(parser)@, final(parser)@),
        grown(old(ast)@, final(ast)@),
        old(parser)@.len() == 0 ==> final(parser)@ == old(parser)@ && final(ast)@ == old(ast)@,
    decreases old(parser)@.len(), 1int,
{
    match parser.peek() {
        None => Err(end_of_stream_error()),
        Some(Token::StringLiteral(_, _)) | Some(Token::NumberLiteral(_, _)) => {
            let literal = parser.consume();
            match parse_tranforms(parser, ast) {
                Ok(transforms) => Ok(ast.push(Expression::Literal(literal, transforms))),
                Err(e) => Err(e),
            }
        },
        Some(Token::Label(_, _)) => {
            let before = parser.remaining();
            let first = parser.consume();
            let mut ref_list: Vec<Token> = Vec::new();
            ref_list.push(first);
            assert(views(ref_list@) =~= seq![first@]);
            // The labels after dots
            match parse_references(parser, &mut ref_list) {
                Ok(()) => {},
                Err(e) => return Err(e),
            }
            if parser.remaining() >= before {
                return Err(ParserError::custom("Parser: a rule read no token."));
            }
            let transforms = match parse_tranforms(parser, ast) {
                Ok(t) => t,
                Err(e) => return Err(e),
            };
            Ok(ast.push(Expression::Reference(ref_list, transforms)))
        },
        Some(_) => Err(
            ParserError::custom("Expected expressions: Reference, StringLiteral, NumberLiteral"),
        ),
    }
}

/// Appends to `ref_list` the labels that follow, each after a dot.
fn parse_references(parser: &mut Parser, ref_list: &mut Vec<Token>) -> (r: Result<(), ParserError>)
    ensures
        match p_refs(old(parser)@, views(old(ref_list)@)) {
            Ok((rest, refs)) => r is Ok && final(parser)@ == rest && views(final(ref_list)@) == refs,
            Err(f) => r is Err && r->Err_0@ == f,
        },
        rest_of(old(parser)@, final(parser)@),
        old(parser)@.len() == 0 ==> final(parser)@ == old(parser)@ && final(ref_list)@ == old(ref_list)@,
    decreases old(parser)@.len(),
{
    match parser.peek() {
        None => Err(end_of_stream_error()),
        Some(Token::Operator(Op::Dot, _)) => {
            let _dot = parser.consume();
            match parser.peek() {
                None => Err(end_of_stream_error()),
                Some(Token::Label(_, _)) => {
                    let ghost before = ref_list@;
                    let label = parser.consume();
                    ref_list.push(label);
                    assert(views(ref_list@) =~= views(before).push(label@));
                    parse_references(parser, ref_list)
                },
                Some(_) => Err(ParserError::custom("Expected a label after dot operator")),
            }
        },
        Some(_) => Ok(()),
    }
}

fn parse_tranforms(parser: &mut Parser, ast: &mut Ast) -> (r: Result<Vec<AstIndex>, ParserError>)
    ensures
        match p_transforms(old(parser)@, old(ast)@.elements, Seq::empty()) {
            Ok((rest, elements, transforms)) => {
                &&& r is Ok
                &&& r->Ok_0@ == transforms
                &&& final(parser)@ == rest
                &&& final(ast)@.elements == elements
                &&& final(ast)@.head == old(ast)@.head
            },
            Err(f) => r is Err && r->Err_0@ == f,
        },
        rest_of(old(parser)@, final(parser)@),
        grown(old(ast)@, final(ast)@),
        old(parser)@.len() == 0 ==> final(parser)@ == old(parser)@ && final(ast)@ == old(ast)@,
    decreases old(parser)@.len(), 1int,
{
    collect_transforms(parser, ast, Vec::new())
}

/// Appends to `transforms` as many transformations as follow.
fn collect_transforms(parser: &mut Parser, ast: &mut Ast, transforms: Vec<AstIndex>) -> (r: Result<Vec<AstIndex>, ParserError>)
    ensures
        match p_transforms(old(parser)@, old(ast)@.elements, transforms@) {
            Ok((rest, elements, transforms)) => {
                &&& r is Ok
                &&& r->Ok_0@ == transforms
                &&& final(parser)@ == rest
                &&& final(ast)@.elements == elements
                &&& final(ast)@.head == old(ast)@.head
            },
            Err(f) => r is Err && r->Err_0@ == f,
        },
        rest_of(old(parser)@, final(parser)@),
        grown(old(ast)@, final(ast)@),
        old(parser)@.len() == 0 ==> final(parser)@ == old(parser)@ && final(ast)@ == old(ast)@,
    decreases old(parser)@.len(), 0int,
{
    let before = parser.remaining();
    match parser.peek() {
        None => return Err(end_of_stream_error()),
        Some(Token::Operator(Op::Pipe, _)) => {
            let _pipe = parser.consume();
        },
        Some(_) => return Ok(transforms),
    }
    let label = match parser.peek() {
        None => return Err(end_of_stream_error()),
        Some(Token::Label(_, _)) => parser.consume(),
        Some(_) => return Err(ParserError::custom("Expected transform label after Pipe Operator.")),
    };

    // The arguments, when a parenthesis follows
    let arguments: Vec<AstIndex> = match parser.peek() {
        None => return Err(end_of_stream_error()),
        Some(Token::Operator(Op::ParenOpen, _)) => {
            let _paren_open = parser.consume();
            let arguments = match collect_arguments(parser, ast, Vec::new()) {
                Ok(a) => a,
                Err(e) => return Err(e),
            };
            if parser.remaining() >= before {
                return Err(ParserError::custom("Parser: a rule read no token."));
            }
            arguments
        },
        Some(_) => Vec::new(),
    };

    let mut transforms = transforms;
    let ghost trs = transforms@;
    let transform = Transform::new(label, arguments);
    let index = ast.push(transform);
    transforms.push(index);
    assert(transforms@ == trs.push(index));
    collect_transforms(parser, ast, transforms)
}

/// Appends to `arguments` the argument expressions of a transformation, up to
/// the closing parenthesis.
fn collect_arguments(parser: &mut Parser, ast: &mut Ast, arguments: Vec<AstIndex>) -> (r: Result<Vec<AstIndex>, ParserError>)
    ensures
        match p_args(old(parser)@, old(ast)@.elements, arguments@) {
            Ok((rest, elements, arguments)) => {
                &&& r is Ok
                &&& r->Ok_0@ == arguments
                &&& final(parser)@ == rest
                &&& final(ast)@.elements == elements
                &&& final(ast)@.head == old(ast)@.head
            },
            Err(f) => r is Err && r->Err_0@ == f,
        },
        rest_of(old(parser)@, final(parser)@),
        grown(old(ast)@, final(ast)@),
        old(parser)@.len() == 0 ==> final(parser)@ == old(parser)@ && final(ast)@ == old(ast)@,
    decreases old(parser)@.len(), 2int,
{
    let before = parser.remaining();
    let argument = match parse_expression(parser, ast) {
        Ok(a) => a,
        Err(e) => return Err(e),
    };
    let mut arguments = arguments;
    arguments.push(argument);

    // A comma for more arguments, or the closing parenthesis
    match parser.peek() {
        None => Err(end_of_stream_error()),
        Some(Token::Operator(Op::Comma, _)) => {
            if parser.remaining() > before {
                return Err(ParserError::custom("Parser: a rule read no token."));
            }
            let _comma = parser.consume();
            collect_arguments(parser, ast, arguments)
        },
        Some(Token::Operator(Op::ParenClose, _)) => {
            let _close_paren = parser.consume();
            Ok(arguments)
        },
        Some(_) => Err(
            ParserError::custom(
                "Expected a comma or close parenthesis to complete an argument list.",
            ),
        ),
    }
}

fn parse_pattern_decleration(parser: &mut Parser, ast: &mut Ast) -> (r: Result<AstIndex, ParserError>)
    ensures
        parsed(r, p_pattern(old(parser)@, old(ast)@.elements), final(parser)@, final(ast)@, old(ast)@),
        rest_of(old(parser)@, final(parser)@),
        grown(old(ast)@, final(ast)@),
        old(parser)@.len() == 0 ==> final(parser)@ == old(parser)@ && final(ast)@ == old(ast)@,
{
    let decls: Vec<Token> = match parser.peek() {
        None => return Err(end_of_stream_error()),
        Some(Token::Label(_, _)) => {
            let label = parser.consume();
            let mut decls = Vec::new();
            decls.push(label);
            assert(views(decls@) =~= seq![label@]);
            decls
        },
        Some(Token::Operator(Op::ParenOpen, _)) => {
            let _open_paren = parser.consume();
            let mut decls: Vec<Token> = Vec::new();
            assert(views(decls@) =~= Seq::<TokenView>::empty());
            match parse_declerations(parser, &mut decls) {
                Ok(()) => {},
                Err(e) => return Err(e),
            }
            decls
        },
        Some(Token::Operator(_, _)) => return Err(
            ParserError::custom(
                "Expected either a Close Parenthesis to end the Pattern, or a comma to continue the pattern.",
            ),
        ),
        Some(_) => return Err(
            ParserError::custom(
                "Expected a Decleration Pattern to assign an expression to in a let! statement.",
            ),
        ),
    };
    Ok(ast.push(Pattern::Decleration(decls)))
}

/// Appends to `decls` the labels of a parenthesised pattern, up to the closing
/// parenthesis.
fn parse_declerations(parser: &mut Parser, decls: &mut Vec<Token>) -> (r: Result<(), ParserError>)
    ensures
        match p_decls(old(parser)@, views(old(decls)@)) {
            Ok((rest, ds)) => r is Ok && final(parser)@ == rest && views(final(decls)@) == ds,
            Err(f) => r is Err && r->Err_0@ == f,
        },
        rest_of(old(parser)@, final(parser)@),
        old(parser)@.len() == 0 ==> final(parser)@ == old(parser)@ && final(decls)@ == old(decls)@,
    decreases old(parser)@.len(),
{
    let ghost before = decls@;
    match parser.peek() {
        None => return Err(end_of_stream_error()),
        Some(Token::Label(_, _)) => {
            let decl = parser.consume();
            decls.push(decl);
            assert(views(decls@) =~= views(before).push(decl@));
        },
        Some(_) => return Err(ParserError::custom("Expected label for decleration in Pattern")),
    }
    // The end of the pattern, or more labels
    match parser.peek() {
        None => Err(end_of_stream_error()),
        Some(Token::Operator(Op::Comma, _)) => {
            let _comma = parser.consume();
            parse_declerations(parser, decls)
        },
        Some(Token::Operator(Op::ParenClose, _)) => {
            let _close_paren = parser.consume();
            Ok(())
        },
        Some(_) => Err(
            ParserError::custom(
                "Expected either a Close Parenthesis to end the Pattern, or a comma to continue the pattern.",
            ),
        ),
    }
}

} // verus!
