use exclaim::ast::{Ast, AstIndex, Block, Pushable, Statement};
use exclaim::common::Location;
use exclaim::runtime::steps::{
    block_is_readable, block_step, expression_is_readable, expression_step, pattern_binding, run_pattern,
    statement_is_readable, statement_step, Binding, BlockStep, ExpressionStep, StatementStep,
};
use exclaim::runtime::{DataContext, RuntimeContext};
use exclaim::tokens::{Action, Op, Token};

fn at(column: usize) -> Location {
    Location::new(0, column)
}

#[test]
fn tokens_render_as_their_text() {
    assert_eq!(Token::StringLiteral(String::from("Hi there"), at(0)).render(), "Hi there");
    assert_eq!(Token::NumberLiteral(1337, at(0)).render(), "1337");
    assert_eq!(Token::NumberLiteral(0, at(0)).render(), "0");
    assert_eq!(Token::Label(String::from("name"), at(0)).render(), "name");
    assert_eq!(Token::Operator(Op::Pipe, at(0)).render(), "Pipe");
    assert_eq!(Token::Action(Action::Write, at(0)).render(), "Write");
}

fn text_step(step: BlockStep) -> String {
    match step {
        BlockStep::Text(text) => text,
        _ => panic!("expected a text block"),
    }
}

#[test]
fn steps_of_a_compiled_template() {
    let ast = exclaim::compile("Hi {{ let! x = 1 }}{{ render! (a, b) : list }}{{ write! a }}{{!}} bye").unwrap();

    let (step, next) = block_step(&ast, ast.head()).unwrap();
    assert_eq!(text_step(step), "Hi ");

    assert!(block_is_readable(&ast, next));
    let (step, next) = block_step(&ast, next).unwrap();
    let statement = match step {
        BlockStep::Enclosed(statement) => statement,
        _ => panic!("expected a let! block"),
    };
    assert!(statement_is_readable(&ast, statement));
    match statement_step(&ast, statement).unwrap() {
        StatementStep::Let(names, _) => assert_eq!(names, vec![String::from("x")]),
        _ => panic!("expected a let! statement"),
    }

    let (step, next) = block_step(&ast, next).unwrap();
    let scope = match step {
        BlockStep::Render(names, _, scope) => {
            assert_eq!(names, vec![String::from("a"), String::from("b")]);
            scope
        },
        _ => panic!("expected a render! block"),
    };
    // The scope holds the write! block and the closing block.
    assert_eq!(scope.len(), 2);
    let (step, after_write) = block_step(&ast, Some(scope[0])).unwrap();
    match step {
        BlockStep::Enclosed(statement) => match statement_step(&ast, statement).unwrap() {
            StatementStep::Write(_) => {},
            _ => panic!("expected a write! statement"),
        },
        _ => panic!("expected a write! block"),
    }
    assert_eq!(after_write, Some(scope[1]));
    let (step, _) = block_step(&ast, Some(scope[1])).unwrap();
    assert!(matches!(step, BlockStep::Closing));

    // The render! block is followed by the text after its closing block.
    let (step, next) = block_step(&ast, next).unwrap();
    assert_eq!(text_step(step), " bye");
    assert_eq!(next, None);
    assert_eq!(block_step(&ast, next).err(), Some(String::from("Runtime Error: AST ended unexpectedly.")));
}

#[test]
fn steps_refuse_what_they_do_not_expect() {
    let mut ast = Ast::new();
    let end = ast.push(Statement::End(Token::Action(Action::End, at(3))));
    let closing = ast.push(Block::CodeClosing(end, None));
    let unclosed = ast.push(Block::CodeUnclosed(end, vec![], None));
    let wrong = ast.push(Block::CodeUnclosed(closing, vec![], None));

    assert_eq!(block_step(&ast, Some(end)).err(), Some(String::from("Runtime Error: Expected a block")));
    assert_eq!(
        block_step(&ast, Some(unclosed)).err(),
        Some(String::from("Runtime Error: Expected a Render Statement."))
    );
    assert_eq!(block_step(&ast, Some(wrong)).err(), Some(String::from("Runtime Error: Expected a statement.")));
    assert!(matches!(block_step(&ast, Some(closing)), Ok((BlockStep::Closing, None))));
    assert_eq!(
        statement_step(&ast, closing).err(),
        Some(String::from("Runtime Error: Expected a statement"))
    );
    assert_eq!(
        statement_step(&ast, end).err(),
        Some(String::from("Runtime Error: statement Variant Unimplemented"))
    );
    assert_eq!(run_pattern(&ast, end).err(), Some(String::from("Runtime Error: Let! expected a pattern")));
    assert!(!block_is_readable(&ast, Some(AstIndex(17))));
    assert!(block_is_readable(&ast, None));
    assert!(!statement_is_readable(&ast, AstIndex(17)));
}

#[test]
fn names_bind_item_by_item_or_whole() {
    assert!(matches!(pattern_binding(2, 2), Binding::Each));
    assert!(matches!(pattern_binding(1, 1), Binding::Each));
    assert!(matches!(pattern_binding(3, 2), Binding::Each));
    assert!(matches!(pattern_binding(0, 4), Binding::Each));
    assert!(matches!(pattern_binding(1, 3), Binding::Whole));
    assert!(matches!(pattern_binding(1, 0), Binding::Whole));
}

#[test]
fn runtime_context_looks_in_scopes_then_globals() {
    let mut globals: DataContext<u32> = DataContext::new();
    globals.insert(String::from("x"), 1);
    globals.insert(String::from("y"), 2);
    let mut runtime = RuntimeContext::new(Some(globals));
    assert_eq!(runtime.scope_level(), 1);
    assert_eq!(runtime.get("x"), Some(&1));
    assert_eq!(runtime.get("z"), None);

    runtime.open_scope();
    runtime.insert(String::from("x"), 10);
    assert_eq!(runtime.get("x"), Some(&10));
    assert_eq!(runtime.get("y"), Some(&2));
    runtime.close_scope();
    assert_eq!(runtime.get("x"), Some(&1));

    runtime.render("Hello, ");
    runtime.render("World!");
    assert_eq!(runtime.output(), "Hello, World!");
}

#[test]
fn runtime_context_without_globals() {
    let mut runtime: RuntimeContext<u32> = RuntimeContext::new(None);
    assert_eq!(runtime.get("x"), None);
    runtime.insert(String::from("x"), 5);
    assert_eq!(runtime.get("x"), Some(&5));
    assert_eq!(runtime.output(), "");
}

/// The expression of the write! block at the head of a template.
fn written_expression(ast: &Ast) -> AstIndex {
    let statement = match block_step(ast, ast.head()).unwrap().0 {
        BlockStep::Enclosed(statement) => statement,
        _ => panic!("expected a write! block"),
    };
    match statement_step(ast, statement).unwrap() {
        StatementStep::Write(expression) => expression,
        _ => panic!("expected a write! statement"),
    }
}

#[test]
fn expression_steps_of_references_and_literals() {
    let ast = exclaim::compile("{{ write! site.posts | take(1) }}").unwrap();
    let expression = written_expression(&ast);
    assert!(expression_is_readable(&ast, expression));
    match expression_step(&ast, expression).unwrap() {
        ExpressionStep::Reference(names, transforms) => {
            assert_eq!(names, vec![String::from("site"), String::from("posts")]);
            assert_eq!(transforms.len(), 1);
        },
        _ => panic!("expected a reference"),
    }

    let ast = exclaim::compile("{{ write! \"A\" }}").unwrap();
    match expression_step(&ast, written_expression(&ast)).unwrap() {
        ExpressionStep::Literal(literal, transforms) => {
            assert_eq!(literal, Token::StringLiteral(String::from("A"), at(10)));
            assert!(transforms.is_empty());
        },
        _ => panic!("expected a literal"),
    }
    assert_eq!(
        expression_step(&ast, ast.head().unwrap()).err(),
        Some(String::from("Runtime: Expected an expression"))
    );
    assert!(!expression_is_readable(&ast, AstIndex(99)));
}

#[test]
fn every_part_of_a_compiled_template_can_be_read() {
    let ast = exclaim::compile(
        "{{ let! (a, b) = pair }}{{ render! x : list | enumerate }}{{ write! x.name | take(1, y) }}{{!}}{{ write! 3 }}",
    )
    .unwrap();
    for i in 0..ast.len() {
        assert!(block_is_readable(&ast, Some(AstIndex(i))));
        assert!(statement_is_readable(&ast, AstIndex(i)));
        assert!(expression_is_readable(&ast, AstIndex(i)));
    }
}

/// What the element at `i` is, in words, as far as the runtime reads it.
fn describe(ast: &Ast, i: usize) -> String {
    let index = AstIndex(i);
    match ast.get(index) {
        exclaim::ast::AstElement::Block(_, _) => String::from("block"),
        exclaim::ast::AstElement::Statement(_, _) => match statement_step(ast, index) {
            Ok(StatementStep::Write(x)) => format!("write {:?}", x),
            Ok(StatementStep::Let(names, x)) => format!("let {:?} {:?}", names, x),
            Err(e) => e,
        },
        exclaim::ast::AstElement::Expression(_, _) => match expression_step(ast, index) {
            Ok(ExpressionStep::Literal(token, transforms)) => format!("literal {:?} {:?}", token, transforms),
            Ok(ExpressionStep::Reference(names, transforms)) => format!("reference {:?} {:?}", names, transforms),
            Err(e) => e,
        },
        exclaim::ast::AstElement::Transform(_, t) => format!("transform {:?} {:?}", t.label(), t.arguments()),
        exclaim::ast::AstElement::Pattern(_, _) => format!("pattern {:?}", run_pattern(ast, index)),
    }
}

#[test]
fn analysis_changes_blocks_only() {
    let template = "a{{ let! (x, y) = p }}{{ render! i : l | take(2, z) }}{{ write! i.n }}{{!}}{{ write! 7 }}";
    let parsed = exclaim::run_parser(exclaim::run_lexer(template));
    let before: Vec<String> = (0..parsed.len()).map(|i| describe(&parsed, i)).collect();
    let head = parsed.head();
    let analysed = exclaim::run_semantics(parsed);
    let after: Vec<String> = (0..analysed.len()).map(|i| describe(&analysed, i)).collect();
    assert_eq!(before, after);
    assert_eq!(analysed.head(), head);
}
