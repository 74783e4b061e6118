use exclaim::ast::{Ast, AstElement, AstIndex, Block, Pushable};
use exclaim::semantics;
use exclaim::common::serialize::{Serializer, Tag};
use exclaim::lexer::lexemes::Lexer;
use exclaim::parser::Parser;
use exclaim::common::Location;
use exclaim::tokens::{Action, Op, Token};

fn text(s: &str, line: usize, column: usize) -> Token {
    Token::StringLiteral(String::from(s), Location::new(line, column))
}

#[test]
fn plain_text_is_one_literal() {
    let input = "no { blocks } here\n  at all}";
    assert_eq!(exclaim::lexer::run(input), Ok(vec![text(input, 0, 0)]));
}

#[test]
fn empty_template_has_no_tokens() {
    assert_eq!(exclaim::lexer::run(""), Ok(vec![]));
}

#[test]
fn labels_take_letters_and_underscores() {
    let tokens = exclaim::run_lexer("{{ let! my_name = x }}");
    assert_eq!(tokens[2], Token::Label(String::from("my_name"), Location::new(0, 8)));
}

#[test]
fn lone_brace_in_block_starts_a_label() {
    // A single brace inside a block stays on the stack and becomes part of
    // the label that follows it
    let tokens = exclaim::run_lexer("{{ {a }}");
    assert_eq!(
        tokens,
        vec![
            Token::Operator(Op::BlockOpen, Location::new(0, 0)),
            Token::Label(String::from("{a"), Location::new(0, 3)),
            Token::Operator(Op::BlockClose, Location::new(0, 6)),
        ]
    );
}

#[test]
fn tokens_are_no_more_than_characters() {
    let input = "{{!}}{{!}}";
    let tokens = exclaim::run_lexer(input);
    assert!(tokens.len() <= input.chars().count());
    assert_eq!(tokens.len(), 6);
}

#[test]
fn lexer_reports_unknown_character() {
    let expected = "Lexer<BLOCK>: Encountered unknown character '`'. On line [1; 3]:\n\t{{ `` }}\n\t   ^ unknown character";
    assert_eq!(exclaim::lexer::run("test\n{{ `` }}\ntest"), Err(String::from(expected)));
}

#[test]
fn compile_accepts_closed_render_block() {
    assert!(exclaim::compile("{{ render! x : y }}a{{!}}").is_ok());
}

#[test]
fn compile_accepts_nested_render_blocks() {
    assert!(exclaim::compile("{{ render! x : y }}{{ render! a : x }}{{ write! a }}{{!}}{{!}}").is_ok());
}

#[test]
fn compile_refuses_lone_closing_block() {
    assert_eq!(
        exclaim::compile("text {{!}}").err(),
        Some(String::from(
            "Invalid lone closing block in file scope. Closing blocks must only be used to close an opened scope."
        ))
    );
}

#[test]
fn compile_refuses_unclosed_render_block() {
    assert_eq!(
        exclaim::compile("{{ render! x : y }} text").err(),
        Some(String::from("Expected the scope to be closed with {{!}}"))
    );
}

#[test]
fn compile_refuses_extra_closing_block() {
    assert_eq!(
        exclaim::compile("{{ render! x : y }}{{!}}{{!}}").err(),
        Some(String::from(
            "Invalid lone closing block in file scope. Closing blocks must only be used to close an opened scope."
        ))
    );
}

#[test]
fn compile_reports_parser_error() {
    assert_eq!(
        exclaim::compile("{{ write! }}").err(),
        Some(String::from("Expected expressions: Reference, StringLiteral, NumberLiteral"))
    );
}

#[test]
fn compile_reports_end_of_tokens() {
    assert_eq!(
        exclaim::compile("{{ write! x").err(),
        Some(String::from("unexpected end of token stream"))
    );
}

#[test]
fn analysis_fills_render_scope() {
    let tree = exclaim::compile("{{ render! x : y }}a{{!}}").unwrap();
    let expected = r#"<Ast>
  <UnclosedBlock>
    <RenderStatement>
      <Action>
        <value>Render</value>
        <location>{ 0, 3 }</location>
      </Action>
      <DeclerationPattern>
        <Label>
          <value>"x"</value>
          <location>{ 0, 11 }</location>
        </Label>
      </DeclerationPattern>
      <ReferenceExpression>
        <Label>
          <value>"y"</value>
          <location>{ 0, 15 }</location>
        </Label>
        <Transforms>
        </Transforms>
      </ReferenceExpression>
    </RenderStatement>
    <TextBlock>
      <StringLiteral>
        <value>"a"</value>
        <location>{ 0, 19 }</location>
      </StringLiteral>
    </TextBlock>
    <ClosingBlock>
      <EndStatement>
        <Action>
          <value>End</value>
          <location>{ 0, 22 }</location>
        </Action>
      </EndStatement>
    </ClosingBlock>
  </UnclosedBlock>
</Ast>
"#;
    assert_eq!(Serializer::serialize(&tree), expected);
}

#[test]
fn serializer_escapes_quotes_in_literals() {
    let ast = exclaim::run_parser(exclaim::run_lexer("say \"hi\""));
    let expected = "<Ast>\n  <TextBlock>\n    <StringLiteral>\n      <value>\"say \\\"hi\\\"\"</value>\n      <location>{ 0, 0 }</location>\n    </StringLiteral>\n  </TextBlock>\n</Ast>\n";
    assert_eq!(Serializer::serialize(&ast), expected);
}

#[test]
fn tag_keeps_its_name() {
    let _tag = Tag::new("Name");
}

#[test]
fn operator_tokens_print_their_names() {
    let ast = exclaim::run_parser(exclaim::run_lexer("{{ let! x = 12 }}"));
    let printed = Serializer::serialize(&ast);
    assert!(printed.contains("<value>Let</value>"));
    assert!(printed.contains("<NumberLiteral>\n          <value>12</value>"));
    let _ = Action::Let;
}

#[test]
fn parser_reads_lexemes_as_tokens() {
    let input = "a {{ write! x.y | f | g }}{{ let! p = \"s\" }}{{ render! q : r }}b{{!}}";
    let lexemes = Lexer::from(input).tokenize().unwrap();
    let mut from_lexemes = Parser::from(lexemes);
    let mut from_tokens = Parser::new(exclaim::run_lexer(input));
    let a = Parser::parse(&mut from_lexemes).unwrap();
    let b = Parser::parse(&mut from_tokens).unwrap();
    assert_eq!(Serializer::serialize(&a), Serializer::serialize(&b));
}

#[test]
fn scopes_hide_and_restore_names() {
    use_scopes();
}

fn use_scopes() {
    let mut scopes: exclaim::runtime::ScopeContext<u32> = exclaim::runtime::ScopeContext::new();
    assert_eq!(scopes.scope_level(), 1);
    scopes.insert(String::from("x"), 1);
    assert_eq!(scopes.get("x"), Some(&1));
    scopes.open_scope();
    assert_eq!(scopes.scope_level(), 2);
    assert_eq!(scopes.get("x"), Some(&1));
    scopes.insert(String::from("x"), 2);
    scopes.insert(String::from("y"), 3);
    assert_eq!(scopes.get("x"), Some(&2));
    scopes.close_scope();
    assert_eq!(scopes.get("x"), Some(&1));
    assert_eq!(scopes.get("y"), None);
}

#[test]
fn data_context_insert_returns_previous() {
    let mut data: exclaim::runtime::DataContext<&str> = exclaim::runtime::DataContext::new();
    assert_eq!(data.insert(String::from("k"), "a"), None);
    assert_eq!(data.insert(String::from("k"), "b"), Some("a"));
    assert_eq!(data.get("k"), Some(&"b"));
    assert_eq!(data.get("other"), None);
}

#[test]
fn data_context_changes_values_in_place() {
    let mut data: exclaim::runtime::DataContext<u32> = exclaim::runtime::DataContext::new();
    data.insert(String::from("x"), 1);
    data.insert(String::from("y"), 2);
    assert!(data.get_mut("z").is_none());
    match data.get_mut("x") {
        Some(v) => *v = 10,
        None => panic!("x is bound"),
    }
    assert_eq!(data.get("x"), Some(&10));
    assert_eq!(data.get("y"), Some(&2));
}

#[test]
fn text_before_a_block_is_kept_whitespace_and_all() {
    let tokens = exclaim::lexer::run(" Hello,\n\t world } { \n{{ write! x }}").unwrap();
    assert_eq!(tokens[0], text(" Hello,\n\t world } { \n", 0, 0));
    assert!(matches!(tokens[1], Token::Operator(Op::BlockOpen, _)));
}

#[test]
fn parser_errors_print_their_kind_or_message() {
    let open = Token::Operator(Op::BlockOpen, Location::new(0, 0));
    let e = exclaim::parser::run(vec![open]).err().unwrap();
    assert_eq!(format!("{:?}", e), "Kind(\"unexpected end of token stream\")");
    let label = Token::Label(String::from("x"), Location::new(0, 0));
    let e = exclaim::parser::run(vec![label]).err().unwrap();
    assert_eq!(format!("{:?}", e), "Custom(\"Expected Operator(BlockOpen)\")");
}

#[test]
fn parser_reads_every_token_when_it_succeeds() {
    let mut parser = Parser::new(exclaim::run_lexer("a{{ write! b }}c"));
    assert!(Parser::parse(&mut parser).is_ok());
    // Nothing is left: parsing again gives an empty tree.
    let again = Parser::parse(&mut parser).unwrap();
    assert!(again.head().is_none());
    assert_eq!(again.len(), 0);
    let mut parser = Parser::new(exclaim::run_lexer("a{{ write! }}"));
    assert!(Parser::parse(&mut parser).is_err());
}

#[test]
fn parsed_blocks_are_linked_in_order() {
    let ast = exclaim::run_parser(exclaim::run_lexer("a{{ let! x = 1 }}b{{ write! x | take(2) }}c"));
    let blocks: Vec<usize> =
        (0..ast.len()).filter(|i| matches!(ast.get(AstIndex(*i)), AstElement::Block(_, _))).collect();
    let mut chain: Vec<usize> = vec![];
    let mut current = ast.head();
    while let Some(i) = current {
        chain.push(i.0);
        current = match ast.get(i) {
            AstElement::Block(_, b) => *b.next(),
            _ => panic!("the chain holds a node that is no block"),
        };
    }
    assert_eq!(blocks.len(), 5);
    assert_eq!(chain, blocks);
    assert!(exclaim::run_parser(vec![]).head().is_none());
}

fn scope_of(ast: &Ast, i: usize) -> (Vec<usize>, Option<usize>) {
    match ast.get(AstIndex(i)) {
        AstElement::Block(_, Block::CodeUnclosed(_, scope, next)) => {
            (scope.iter().map(|x| x.0).collect(), next.map(|x| x.0))
        },
        _ => panic!("not a render! block"),
    }
}

#[test]
fn analysis_follows_a_link_back_to_an_earlier_block() {
    // The head is the second block; it is followed by the first one.
    let mut ast = Ast::new();
    ast.push(Block::Text(text("a", 0, 0), None));
    let second = ast.push(Block::Text(text("b", 0, 1), Some(AstIndex(0))));
    ast.set_head(second);
    assert!(!semantics::links_forward(&ast));
    let analysed = semantics::analyze(ast).unwrap();
    assert_eq!(analysed.len(), 2);
    assert_eq!(analysed.head(), Some(AstIndex(1)));
}

#[test]
fn analysis_goes_back_over_blocks_of_a_closed_scope() {
    // render! block 0 -> text 1 -> closing 2 -> back to the text 1: the scope
    // {1, 2} closes, the walk goes on at 1 in the file scope and then meets
    // the closing block 2 with no scope open.
    let mut ast = Ast::new();
    ast.push(Block::CodeUnclosed(AstIndex(7), Vec::new(), Some(AstIndex(1))));
    ast.push(Block::Text(text("a", 0, 0), Some(AstIndex(2))));
    ast.push(Block::CodeClosing(AstIndex(7), Some(AstIndex(1))));
    ast.set_head(AstIndex(0));
    assert_eq!(
        semantics::analyze(ast).err(),
        Some(String::from(
            "Invalid lone closing block in file scope. Closing blocks must only be used to close an opened scope."
        ))
    );
}

#[test]
fn analysis_of_a_scope_closed_by_an_earlier_block() {
    // text 0 -> closing 1 -> end; render! 2 -> text 0: its scope is {0, 1}
    // and it is then followed by nothing.
    let mut ast = Ast::new();
    ast.push(Block::Text(text("a", 0, 0), Some(AstIndex(1))));
    ast.push(Block::CodeClosing(AstIndex(7), None));
    ast.push(Block::CodeUnclosed(AstIndex(7), Vec::new(), Some(AstIndex(0))));
    ast.set_head(AstIndex(2));
    let analysed = semantics::analyze(ast).unwrap();
    assert_eq!(scope_of(&analysed, 2), (vec![0, 1], None));
}

#[test]
fn forward_links_are_recognised() {
    let mut ast = Ast::new();
    ast.push(Block::Text(text("a", 0, 0), Some(AstIndex(1))));
    ast.push(Block::Text(text("b", 0, 1), None));
    ast.set_head(AstIndex(0));
    assert!(semantics::links_forward(&ast));
    assert!(semantics::analyze(ast).is_ok());
}
