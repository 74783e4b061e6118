use exclaim::common::Location;
use exclaim::lexer::lexemes::tokens::{Token, TokenKind};
use exclaim::lexer::lexemes::Lexer;
use exclaim::tokens::{Action, Op};


fn token_string_literal(string: &str, location: (usize, usize)) -> Token {
    Token::new(
        TokenKind::StringLiteral,
        string.to_string(),
        Location::from(location),
    )
}

#[test]
fn lexer_lexer_from_str() {
    let expected = "This is a test";
    let lexer = Lexer::from(expected);

    let actual = lexer.stack.as_string();

    assert_eq!(expected, actual);
}

#[test]
fn lexer_lexer_from_string() {
    let expected = String::from("This is a test y̆ou need");
    let lexer = Lexer::from(expected.clone());

    let actual = lexer.stack.as_string();

    assert_eq!(expected, actual);
}

#[test]
fn lexer_lexer_block_open() {
    let input = "test {{";
    let lexer = Lexer::from(input);

    let tokens = lexer.tokenize().unwrap();

    let expected = vec![
        token_string_literal("test ", (0, 0)),
        Token::new(
            TokenKind::Operator(Op::BlockOpen),
            String::from("{{"),
            Location::new(0, 5)
        )
    ];

    assert_eq!(tokens, expected);
}

#[test]
fn lexer_lexer_block_open_trick() {
    let input = "this is { a test {{{";
    let lexer = Lexer::from(input);

    let tokens = lexer.tokenize().unwrap();

    let expected = vec![
        token_string_literal("this is { a test ",  (0, 0)),
        Token::new(
            TokenKind::Operator(Op::BlockOpen),
            String::from("{{"),
            Location::new(0, 17)
        ), 
        token_string_literal("{",  (0, 19)),
    ];

    assert_eq!(tokens, expected);
}

#[test]
fn lexer_lexer_invalid_block_close() {
    let input = "This is a not a closed block }, and neither is this }}";
    let lexer = Lexer::from(input);

    let tokens = lexer.tokenize().unwrap();

    let expected = vec![
        token_string_literal("This is a not a closed block }, and neither is this ",  (0, 0)),
        Token::new(
            TokenKind::Operator(Op::BlockClose),
            String::from("}}"),
            Location::new(0, 52)
        ), 
    ];

    assert_eq!(tokens, expected);
}

#[test]
fn lexer_lexer_block_open_close() {
    let input = "{{}}";
    let lexer = Lexer::from(input);

    let tokens = lexer.tokenize().unwrap();

    let expected = vec![
        Token::new(
            TokenKind::Operator(Op::BlockOpen),
            String::from("{{"),
            Location::new(0,0),
        ),
        Token::new(
            TokenKind::Operator(Op::BlockClose),
            String::from("}}"),
            Location::new(0,2)
        ),
    ];

    assert_eq!(tokens, expected);
}

#[test]
fn lexer_lexer_block_digit() {
    let input = "{{ 1234 }}";
    let lexer = Lexer::from(input);

    let tokens = lexer.tokenize().unwrap();

    let expected = vec![
        Token::new(
            TokenKind::Operator(Op::BlockOpen),
            String::from("{{"),
            Location::new(0,0)
        ),
        Token::new(
            TokenKind::NumberLiteral(1234),
            String::from("1234"),
            Location::new(0,3)
        ),
        Token::new(
            TokenKind::Operator(Op::BlockClose),
            String::from("}}"),
            Location::new(0,8)
        ),
    ];

    assert_eq!(tokens, expected);
}

#[test]
fn lexer_lexer_block_label() {
    let input = "{{label}}";
    let lexer = Lexer::from(input);

    let tokens = lexer.tokenize().unwrap();

    let expected = vec![
        Token::new(
            TokenKind::Operator(Op::BlockOpen),
            String::from("{{"),
            Location::new(0,0)
        ),
        Token::new(
            TokenKind::Label,
            String::from("label"),
            Location::new(0,2)
        ),
        Token::new(
            TokenKind::Operator(Op::BlockClose),
            String::from("}}"),
            Location::new(0,7)
        ),
    ];

    assert_eq!(tokens, expected);
}

#[test]
fn lexer_lexer_block_string_literal() {
    let input = "{{ \"string \\\" literal\" }}";
    let lexer = Lexer::from(input);

    let tokens = lexer.tokenize().unwrap();

    let expected = vec![
        Token::new(
            TokenKind::Operator(Op::BlockOpen),
            String::from("{{"),
            Location::new(0,0)
        ),
        Token::new(
            TokenKind::StringLiteral,
            String::from("string \" literal"),
            Location::new(0,3)
        ),
        Token::new(
            TokenKind::Operator(Op::BlockClose),
            String::from("}}"),
            Location::new(0,23)
        ),
    ];

    assert_eq!(tokens, expected);
}

#[test]
fn lexer_lexer_block_action() {
    let input = "{{ render! }}";
    let lexer = Lexer::from(input);

    let tokens = lexer.tokenize().unwrap();

    let expected = vec![
        Token::new(
            TokenKind::Operator(Op::BlockOpen),
            String::from("{{"),
            Location::new(0,0)
        ),
        Token::new(
            TokenKind::Action(Action::Render),
            String::from("render!"),
            Location::new(0,3)
        ),
        Token::new(
            TokenKind::Operator(Op::BlockClose),
            String::from("}}"),
            Location::new(0,11)
        ),
    ];

    assert_eq!(tokens, expected);
}

#[test]
fn lexer_lexer_block_and() {
    let input = "{{ 1 && test && 3 }}";
    let lexer = Lexer::from(input);

    let tokens = lexer.tokenize().unwrap();

    let expected = vec![
        Token::new(
            TokenKind::Operator(Op::BlockOpen),
            String::from("{{"),
            Location::new(0,0)
        ),
        Token::new(
            TokenKind::NumberLiteral(1),
            String::from("1"),
            Location::new(0,3)
        ),
        Token::new(
            TokenKind::Operator(Op::And),
            String::from("&&"),
            Location::new(0,5)
        ),
        Token::new(
            TokenKind::Label,
            String::from("test"),
            Location::new(0,8)
        ),
        Token::new(
            TokenKind::Operator(Op::And),
            String::from("&&"),
            Location::new(0,13)
        ),
        Token::new(
            TokenKind::NumberLiteral(3),
            String::from("3"),
            Location::new(0,16)
        ),
        Token::new(
            TokenKind::Operator(Op::BlockClose),
            String::from("}}"),
            Location::new(0,18)
        ),
    ];

    assert_eq!(tokens, expected);
}

#[test]
fn lexer_lexer_block_assign() {
    let input = "{{ pages = site }}";
    let lexer = Lexer::from(input);

    let tokens = lexer.tokenize().unwrap();

    let expected = vec![
        Token::new(
            TokenKind::Operator(Op::BlockOpen),
            String::from("{{"),
            Location::new(0,0)
        ),
        Token::new(
            TokenKind::Label,
            String::from("pages"),
            Location::new(0,3)
        ),
        Token::new(
            TokenKind::Operator(Op::Assign),
            String::from("="),
            Location::new(0,9)
        ),
        Token::new(
            TokenKind::Label,
            String::from("site"),
            Location::new(0,11)
        ),
        Token::new(
            TokenKind::Operator(Op::BlockClose),
            String::from("}}"),
            Location::new(0,16)
        ),
    ];

    assert_eq!(tokens, expected);
}

#[test]
fn lexer_lexer_block_comma() {
    let input = "{{ test, \"test\", 2 }}";
    let lexer = Lexer::from(input);

    let tokens = lexer.tokenize().unwrap();

    let expected = vec![
        Token::new(
            TokenKind::Operator(Op::BlockOpen),
            String::from("{{"),
            Location::new(0,0)
        ),
        Token::new(
            TokenKind::Label,
            String::from("test"),
            Location::new(0,3)
        ),
        Token::new(
            TokenKind::Operator(Op::Comma),
            String::from(","),
            Location::new(0,7)
        ),
        Token::new(
            TokenKind::StringLiteral,
            String::from("test"),
            Location::new(0,9)
        ),
        Token::new(
            TokenKind::Operator(Op::Comma),
            String::from(","),
            Location::new(0,15)
        ),
        Token::new(
            TokenKind::NumberLiteral(2),
            String::from("2"),
            Location::new(0,17)
        ),
        Token::new(
            TokenKind::Operator(Op::BlockClose),
            String::from("}}"),
            Location::new(0,19)
        ),
    ];

    assert_eq!(tokens, expected);
}

#[test]
fn lexer_lexer_block_closure() {
    let input = "{{ [self.album] }}";
    let lexer = Lexer::from(input);

    let tokens = lexer.tokenize().unwrap();

    let expected = vec![
        Token::new(
            TokenKind::Operator(Op::BlockOpen),
            String::from("{{"),
            Location::new(0,0)
        ),
        Token::new(
            TokenKind::Operator(Op::ClosureOpen),
            String::from("["),
            Location::new(0,3)
        ),
        Token::new(
            TokenKind::Label,
            String::from("self"),
            Location::new(0,4)
        ),
        Token::new(
            TokenKind::Operator(Op::Dot),
            String::from("."),
            Location::new(0,8)
        ),
        Token::new(
            TokenKind::Label,
            String::from("album"),
            Location::new(0,9)
        ),
        Token::new(
            TokenKind::Operator(Op::ClosureClose),
            String::from("]"),
            Location::new(0,14)
        ),
        Token::new(
            TokenKind::Operator(Op::BlockClose),
            String::from("}}"),
            Location::new(0,16)
        ),
    ];

    assert_eq!(tokens, expected);
}

#[test]
fn lexer_lexer_block_dot() {
    let input = "{{ site.posts }}";
    let lexer = Lexer::from(input);

    let tokens = lexer.tokenize().unwrap();

    let expected = vec![
        Token::new(
            TokenKind::Operator(Op::BlockOpen),
            String::from("{{"),
            Location::new(0,0)
        ),
        Token::new(
            TokenKind::Label,
            String::from("site"),
            Location::new(0,3)
        ),
        Token::new(
            TokenKind::Operator(Op::Dot),
            String::from("."),
            Location::new(0,7)
        ),
        Token::new(
            TokenKind::Label,
            String::from("posts"),
            Location::new(0,8)
        ),
        Token::new(
            TokenKind::Operator(Op::BlockClose),
            String::from("}}"),
            Location::new(0,14)
        ),
    ];

    assert_eq!(tokens, expected);
}

#[test]
fn lexer_lexer_block_each() {
    let input = "{{ item : items }}";
    let lexer = Lexer::from(input);

    let tokens = lexer.tokenize().unwrap();

    let expected = vec![
        Token::new(
            TokenKind::Operator(Op::BlockOpen),
            String::from("{{"),
            Location::new(0,0)
        ),
        Token::new(
            TokenKind::Label,
            String::from("item"),
            Location::new(0,3)
        ),
        Token::new(
            TokenKind::Operator(Op::Each),
            String::from(":"),
            Location::new(0,8)
        ),
        Token::new(
            TokenKind::Label,
            String::from("items"),
            Location::new(0,10)
        ),
        Token::new(
            TokenKind::Operator(Op::BlockClose),
            String::from("}}"),
            Location::new(0,16)
        ),
    ];

    assert_eq!(tokens, expected);
}

#[test]
fn lexer_lexer_block_equality() {
    let input = "{{ falsy = 1 == 2 }}";
    let lexer = Lexer::from(input);

    let tokens = lexer.tokenize().unwrap();

    let expected = vec![
        Token::new(
            TokenKind::Operator(Op::BlockOpen),
            String::from("{{"),
            Location::new(0,0)
        ),
        Token::new(
            TokenKind::Label,
            String::from("falsy"),
            Location::new(0,3)
        ),
        Token::new(
            TokenKind::Operator(Op::Assign),
            String::from("="),
            Location::new(0,9)
        ),
        Token::new(
            TokenKind::NumberLiteral(1),
            String::from("1"),
            Location::new(0,11)
        ),
        Token::new(
            TokenKind::Operator(Op::Equality),
            String::from("=="),
            Location::new(0,13)
        ),
        Token::new(
            TokenKind::NumberLiteral(2),
            String::from("2"),
            Location::new(0,16)
        ),
        Token::new(
            TokenKind::Operator(Op::BlockClose),
            String::from("}}"),
            Location::new(0,18)
        ),
    ];

    assert_eq!(tokens, expected);
}

#[test]
fn lexer_lexer_block_inequality() {
    let input = "{{ truthy = 1 != 2 }}";
    let lexer = Lexer::from(input);

    let tokens = lexer.tokenize().unwrap();

    let expected = vec![
        Token::new(
            TokenKind::Operator(Op::BlockOpen),
            String::from("{{"),
            Location::new(0,0)
        ),
        Token::new(
            TokenKind::Label,
            String::from("truthy"),
            Location::new(0,3)
        ),
        Token::new(
            TokenKind::Operator(Op::Assign),
            String::from("="),
            Location::new(0,10)
        ),
        Token::new(
            TokenKind::NumberLiteral(1),
            String::from("1"),
            Location::new(0,12)
        ),
        Token::new(
            TokenKind::Operator(Op::Inequality),
            String::from("!="),
            Location::new(0,14)
        ),
        Token::new(
            TokenKind::NumberLiteral(2),
            String::from("2"),
            Location::new(0,17)
        ),
        Token::new(
            TokenKind::Operator(Op::BlockClose),
            String::from("}}"),
            Location::new(0,19)
        ),
    ];

    assert_eq!(tokens, expected);
}

#[test]
fn lexer_lexer_block_or() {
    let input = "{{ 1 || test || 3 }}";
    let lexer = Lexer::from(input);

    let tokens = lexer.tokenize().unwrap();

    let expected = vec![
        Token::new(
            TokenKind::Operator(Op::BlockOpen),
            String::from("{{"),
            Location::new(0,0)
        ),
        Token::new(
            TokenKind::NumberLiteral(1),
            String::from("1"),
            Location::new(0,3)
        ),
        Token::new(
            TokenKind::Operator(Op::Or),
            String::from("||"),
            Location::new(0,5)
        ),
        Token::new(
            TokenKind::Label,
            String::from("test"),
            Location::new(0,8)
        ),
        Token::new(
            TokenKind::Operator(Op::Or),
            String::from("||"),
            Location::new(0,13)
        ),
        Token::new(
            TokenKind::NumberLiteral(3),
            String::from("3"),
            Location::new(0,16)
        ),
        Token::new(
            TokenKind::Operator(Op::BlockClose),
            String::from("}}"),
            Location::new(0,18)
        ),
    ];

    assert_eq!(tokens, expected);
}

#[test]
fn lexer_lexer_block_pipe() {
    let input = "{{ posts | reverse | take }}";
    let lexer = Lexer::from(input);

    let tokens = lexer.tokenize().unwrap();

    let expected = vec![
        Token::new(
            TokenKind::Operator(Op::BlockOpen),
            String::from("{{"),
            Location::new(0,0)
        ),
        Token::new(
            TokenKind::Label,
            String::from("posts"),
            Location::new(0,3)
        ),
        Token::new(
            TokenKind::Operator(Op::Pipe),
            String::from("|"),
            Location::new(0,9)
        ),
        Token::new(
            TokenKind::Label,
            String::from("reverse"),
            Location::new(0,11)
        ),
        Token::new(
            TokenKind::Operator(Op::Pipe),
            String::from("|"),
            Location::new(0,19)
        ),
        Token::new(
            TokenKind::Label,
            String::from("take"),
            Location::new(0,21)
        ),
        Token::new(
            TokenKind::Operator(Op::BlockClose),
            String::from("}}"),
            Location::new(0,26)
        ),
    ];

    assert_eq!(tokens, expected);
}

#[test]
fn lexer_lexer_simple() {
    let input = "<h1>Tests</h1>\n{{ render! tests : site.tests | take 5 }}\n<li>{{ tests.name }}</li>\n{{!}}";
    let lexer = Lexer::from(input);

    let tokens = lexer.tokenize().unwrap();

    let expected = vec![
        token_string_literal("<h1>Tests</h1>\n",  (0, 0)),
        Token::new(
            TokenKind::Operator(Op::BlockOpen),
            String::from("{{"),
            Location::new(1,0)
        ),
        Token::new(
            TokenKind::Action(Action::Render),
            String::from("render!"),
            Location::new(1,3)
        ),
        Token::new(
            TokenKind::Label,
            String::from("tests"),
            Location::new(1,11)
        ),
        Token::new(
            TokenKind::Operator(Op::Each),
            String::from(":"),
            Location::new(1,17)
        ),
        Token::new(
            TokenKind::Label,
            String::from("site"),
            Location::new(1,19)
        ),
        Token::new(
            TokenKind::Operator(Op::Dot),
            String::from("."),
            Location::new(1,23)
        ),
        Token::new(
            TokenKind::Label,
            String::from("tests"),
            Location::new(1,24)
        ),
        Token::new(
            TokenKind::Operator(Op::Pipe),
            String::from("|"),
            Location::new(1,30)
        ),
        Token::new(
            TokenKind::Label,
            String::from("take"),
            Location::new(1,32)
        ),
        Token::new(
            TokenKind::NumberLiteral(5),
            String::from("5"),
            Location::new(1,37)
        ),
        Token::new(
            TokenKind::Operator(Op::BlockClose),
            String::from("}}"),
            Location::new(1,39)
        ),
        token_string_literal("\n<li>", (1, 41)),
        Token::new(
            TokenKind::Operator(Op::BlockOpen),
            String::from("{{"),
            Location::new(2,4)
        ),
        Token::new(
            TokenKind::Label,
            String::from("tests"),
            Location::new(2,7)
        ),
        Token::new(
            TokenKind::Operator(Op::Dot),
            String::from("."),
            Location::new(2,12)
        ),
        Token::new(
            TokenKind::Label,
            String::from("name"),
            Location::new(2,13)
        ),
        Token::new(
            TokenKind::Operator(Op::BlockClose),
            String::from("}}"),
            Location::new(2,18)
        ),
        token_string_literal("</li>\n", (2, 20)),
        Token::new(
            TokenKind::Operator(Op::BlockOpen),
            String::from("{{"),
            Location::new(3,0)
        ),
        Token::new(
            TokenKind::Action(Action::End),
            String::from("!"),
            Location::new(3,2)
        ),
        Token::new(
            TokenKind::Operator(Op::BlockClose),
            String::from("}}"),
            Location::new(3,3)
        ),
    ];

    assert_eq!(tokens, expected);
}

#[test]
fn lexemes_report_invalid_digit() {
    let lexer = Lexer::from("{{ 1234a }}");
    let expected = "Lexer<DIGIT>: The expected number contains invalid digit 'a' with stack \"1234\". On line [0; 7]:\n\t{{ 1234a }}\n\t       ^ expected digit";
    assert_eq!(lexer.tokenize(), Err(String::from(expected)));
}

#[test]
fn lexemes_report_invalid_label() {
    let lexer = Lexer::from("{{ b1234 }}");
    let expected = "Lexer<LABEL>: The expected label contains digit '1' with stack \"b\". On line [0; 4]:\n\t{{ b1234 }}\n\t    ^ expected alphabetic character";
    assert_eq!(lexer.tokenize(), Err(String::from(expected)));
}

#[test]
fn lexemes_report_unknown_character() {
    let lexer = Lexer::from("test\n{{ `` }}\ntest");
    let expected = "Lexer<BLOCK>: Encountered unknown character '`'. On line [1; 3]:\n\t{{ `` }}\n\t   ^ unknown character";
    assert_eq!(lexer.tokenize(), Err(String::from(expected)));
}

#[test]
fn lexemes_report_unknown_action() {
    let lexer = Lexer::from("{{ print! }}");
    let expected = "Lexer<LABEL>: The expected action does not match a defined action - found: 'print!'  On line [0; 9]:\n\t{{ print! }}\n\t         ^ expected one of the following defined actions: let!, write!, render!, or !.";
    assert_eq!(lexer.tokenize(), Err(String::from(expected)));
}

#[test]
fn lexemes_report_single_and() {
    let lexer = Lexer::from("{{ a & b }}");
    let expected = "Lexer<AND>: Expected Operator And(&&). A single '&' is not a valid token. On line [0; 5]:\n\t{{ a & b }}\n\t     ^ expected '&&'";
    assert_eq!(lexer.tokenize(), Err(String::from(expected)));
}

#[test]
fn lexemes_report_escape_at_end() {
    let lexer = Lexer::from("{{ \"abc\\");
    let expected = "Lexer<STRING>: Expected a character after the escape character.";
    assert_eq!(lexer.tokenize(), Err(String::from(expected)));
}

#[test]
fn lexemes_report_number_too_large() {
    let lexer = Lexer::from("{{ 99999999999999999999999 }}");
    let expected = "Lexer<DIGIT>: The number \"99999999999999999999999\" is not an unsigned integer that fits in a usize. On line [0; 26]:\n\t{{ 99999999999999999999999 }}\n\t                          ^ expected a smaller number";
    assert_eq!(lexer.tokenize(), Err(String::from(expected)));
}

#[test]
fn lexemes_one_token_at_a_time() {
    let mut lexer = Lexer::from("ab {{ x }}");
    assert_eq!(lexer.get_token(), Ok(token_string_literal("ab ", (0, 0))));
    assert_eq!(
        lexer.get_token(),
        Ok(Token::new(TokenKind::Operator(Op::BlockOpen), String::from("{{"), Location::new(0, 3)))
    );
    assert_eq!(
        lexer.get_token(),
        Ok(Token::new(TokenKind::Label, String::from("x"), Location::new(0, 6)))
    );
    assert_eq!(
        lexer.get_token(),
        Ok(Token::new(TokenKind::Operator(Op::BlockClose), String::from("}}"), Location::new(0, 8)))
    );
    // Past the end of the input the lexer gives empty text
    assert_eq!(lexer.get_token(), Ok(token_string_literal("", (0, 10))));
    assert_eq!(lexer.get_token(), Ok(token_string_literal("", (0, 10))));
}

#[test]
fn lexemes_text_without_blocks_is_one_token() {
    let lexer = Lexer::from("no blocks { here } at all");
    assert_eq!(
        lexer.tokenize().unwrap(),
        vec![token_string_literal("no blocks { here } at all", (0, 0))]
    );
}

#[test]
fn lexemes_empty_input_has_no_tokens() {
    let lexer = Lexer::from("");
    assert_eq!(lexer.tokenize().unwrap(), vec![]);
}

#[test]
fn lexemes_token_parts() {
    let t = Token::new(TokenKind::NumberLiteral(7), String::from("7"), Location::new(2, 3));
    assert_eq!(*t.kind(), TokenKind::NumberLiteral(7));
    assert_eq!(t.lexeme(), "7");
    assert_eq!(t.location(), Location::new(2, 3));
}

#[test]
fn lexer_open_block() {
    let input = "test {{";
    let lexer = Lexer::from(input);

    let tokens = lexer.tokenize().unwrap();

    let expected = vec![
        token_string_literal("test ", (0, 0)),
        Token::new(
            TokenKind::Operator(Op::BlockOpen),
            String::from("{{"),
            Location::new(0, 5)
        )
    ];

    assert_eq!(tokens, expected);
}

#[test]
fn lexer_open_block_trick() {
    let input = "this is { a test {{{";
    let lexer = Lexer::from(input);

    let tokens = lexer.tokenize().unwrap();

    let expected = vec![
        token_string_literal("this is { a test ",  (0, 0)),
        Token::new(
            TokenKind::Operator(Op::BlockOpen),
            String::from("{{"),
            Location::new(0, 17)
        ), 
        token_string_literal("{",  (0, 19)),
    ];

    assert_eq!(tokens, expected);
}

#[test]
fn lexer_invalid_close_block() {
    let input = "This is a not a closed block }, and neither is this }}";
    let lexer = Lexer::from(input);

    let tokens = lexer.tokenize().unwrap();

    let expected = vec![
        token_string_literal("This is a not a closed block }, and neither is this ",  (0, 0)),
        Token::new(
            TokenKind::Operator(Op::BlockClose),
            String::from("}}"),
            Location::new(0, 52)
        ), 
    ];

    assert_eq!(tokens, expected);
}

#[test]
fn lexer_open_close_block() {
    let input = "{{}}";
    let lexer = Lexer::from(input);

    let tokens = lexer.tokenize().unwrap();

    let expected = vec![
        Token::new(
            TokenKind::Operator(Op::BlockOpen),
            String::from("{{"),
            Location::new(0,0),
        ),
        Token::new(
            TokenKind::Operator(Op::BlockClose),
            String::from("}}"),
            Location::new(0,2)
        ),
    ];

    assert_eq!(tokens, expected);
}

#[test]
fn lexer_expr_assign() {
    let input = "{{ pages = site }}";
    let lexer = Lexer::from(input);

    let tokens = lexer.tokenize().unwrap();

    let expected = vec![
        Token::new(
            TokenKind::Operator(Op::BlockOpen),
            String::from("{{"),
            Location::new(0,0)
        ),
        Token::new(
            TokenKind::Label,
            String::from("pages"),
            Location::new(0,3)
        ),
        Token::new(
            TokenKind::Operator(Op::Assign),
            String::from("="),
            Location::new(0,9)
        ),
        Token::new(
            TokenKind::Label,
            String::from("site"),
            Location::new(0,11)
        ),
        Token::new(
            TokenKind::Operator(Op::BlockClose),
            String::from("}}"),
            Location::new(0,16)
        ),
    ];

    assert_eq!(tokens, expected);
}

#[test]
fn lexer_expr_dot() {
    let input = "{{ site.posts }}";
    let lexer = Lexer::from(input);

    let tokens = lexer.tokenize().unwrap();

    let expected = vec![
        Token::new(
            TokenKind::Operator(Op::BlockOpen),
            String::from("{{"),
            Location::new(0,0)
        ),
        Token::new(
            TokenKind::Label,
            String::from("site"),
            Location::new(0,3)
        ),
        Token::new(
            TokenKind::Operator(Op::Dot),
            String::from("."),
            Location::new(0,7)
        ),
        Token::new(
            TokenKind::Label,
            String::from("posts"),
            Location::new(0,8)
        ),
        Token::new(
            TokenKind::Operator(Op::BlockClose),
            String::from("}}"),
            Location::new(0,14)
        ),
    ];

    assert_eq!(tokens, expected);
}

#[test]
fn lexer_expr_pipe() {
    let input = "{{ posts | reverse | take }}";
    let lexer = Lexer::from(input);

    let tokens = lexer.tokenize().unwrap();

    let expected = vec![
        Token::new(
            TokenKind::Operator(Op::BlockOpen),
            String::from("{{"),
            Location::new(0,0)
        ),
        Token::new(
            TokenKind::Label,
            String::from("posts"),
            Location::new(0,3)
        ),
        Token::new(
            TokenKind::Operator(Op::Pipe),
            String::from("|"),
            Location::new(0,9)
        ),
        Token::new(
            TokenKind::Label,
            String::from("reverse"),
            Location::new(0,11)
        ),
        Token::new(
            TokenKind::Operator(Op::Pipe),
            String::from("|"),
            Location::new(0,19)
        ),
        Token::new(
            TokenKind::Label,
            String::from("take"),
            Location::new(0,21)
        ),
        Token::new(
            TokenKind::Operator(Op::BlockClose),
            String::from("}}"),
            Location::new(0,26)
        ),
    ];

    assert_eq!(tokens, expected);
}

#[test]
fn lexer_expr_digit() {
    let input = "{{ 1234 }}";
    let lexer = Lexer::from(input);

    let tokens = lexer.tokenize().unwrap();

    let expected = vec![
        Token::new(
            TokenKind::Operator(Op::BlockOpen),
            String::from("{{"),
            Location::new(0,0)
        ),
        Token::new(
            TokenKind::NumberLiteral(1234),
            String::from("1234"),
            Location::new(0,3)
        ),
        Token::new(
            TokenKind::Operator(Op::BlockClose),
            String::from("}}"),
            Location::new(0,8)
        ),
    ];

    assert_eq!(tokens, expected);
}
