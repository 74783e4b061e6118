use exclaim::parser::error::{ErrorKind, ParserError};
use exclaim::common::serialize::Serializer;

#[test]
fn mod_parse_empty_input() {
    let input = "";
    let expected = r"<Ast>
</Ast>
";

    let tokens = exclaim::run_lexer(input);
    let ast = exclaim::run_parser(tokens);

    assert_eq!(&Serializer::serialize(&ast), expected);
}

#[test]
fn parse_text() {
    let input = "Hello, World!";
    let expected = r#"<Ast>
  <TextBlock>
    <StringLiteral>
      <value>"Hello, World!"</value>
      <location>{ 0, 0 }</location>
    </StringLiteral>
  </TextBlock>
</Ast>
"#;

    let tokens = exclaim::run_lexer(input);
    let ast = exclaim::run_parser(tokens);

    assert_eq!(&Serializer::serialize(&ast), expected);
}

#[test]
fn parse_stmt_write_literals() {
    let input = "{{ write! \"Hello!\" }}{{ write! 1234 }}";
    let expected = r#"<Ast>
  <EnclosedBlock>
    <WriteStatement>
      <Action>
        <value>Write</value>
        <location>{ 0, 3 }</location>
      </Action>
      <LiteralExpression>
        <StringLiteral>
          <value>"Hello!"</value>
          <location>{ 0, 10 }</location>
        </StringLiteral>
        <Transforms>
        </Transforms>
      </LiteralExpression>
    </WriteStatement>
  </EnclosedBlock>
  <EnclosedBlock>
    <WriteStatement>
      <Action>
        <value>Write</value>
        <location>{ 0, 24 }</location>
      </Action>
      <LiteralExpression>
        <NumberLiteral>
          <value>1234</value>
          <location>{ 0, 31 }</location>
        </NumberLiteral>
        <Transforms>
        </Transforms>
      </LiteralExpression>
    </WriteStatement>
  </EnclosedBlock>
</Ast>
"#;

    let tokens = exclaim::run_lexer(input);
    let ast = exclaim::run_parser(tokens);

    assert_eq!(&Serializer::serialize(&ast), expected);
}

#[test]
fn parse_stmt_end() {
    let input = "This is a string. {{ ! }} and another one.";
    let expected = r#"<Ast>
  <TextBlock>
    <StringLiteral>
      <value>"This is a string. "</value>
      <location>{ 0, 0 }</location>
    </StringLiteral>
  </TextBlock>
  <ClosingBlock>
    <EndStatement>
      <Action>
        <value>End</value>
        <location>{ 0, 21 }</location>
      </Action>
    </EndStatement>
  </ClosingBlock>
  <TextBlock>
    <StringLiteral>
      <value>" and another one."</value>
      <location>{ 0, 25 }</location>
    </StringLiteral>
  </TextBlock>
</Ast>
"#;

    let tokens = exclaim::run_lexer(input);
    let ast = exclaim::run_parser(tokens);

    assert_eq!(&Serializer::serialize(&ast), expected);
}

#[test]
fn parse_expr_reference() {
    let input = "{{ write! variable.data.field }}";
    let expected = r#"<Ast>
  <EnclosedBlock>
    <WriteStatement>
      <Action>
        <value>Write</value>
        <location>{ 0, 3 }</location>
      </Action>
      <ReferenceExpression>
        <Label>
          <value>"variable"</value>
          <location>{ 0, 10 }</location>
        </Label>
        <Label>
          <value>"data"</value>
          <location>{ 0, 19 }</location>
        </Label>
        <Label>
          <value>"field"</value>
          <location>{ 0, 24 }</location>
        </Label>
        <Transforms>
        </Transforms>
      </ReferenceExpression>
    </WriteStatement>
  </EnclosedBlock>
</Ast>
"#;

    let tokens = exclaim::run_lexer(input);
    let ast = exclaim::run_parser(tokens);

    assert_eq!(&Serializer::serialize(&ast), expected);
}

#[test]
fn parse_transform_literal() {
    let input = "{{ write! \"HELLO\" | lowercase | uppercase | lowercase }}";
    let expected = r#"<Ast>
  <EnclosedBlock>
    <WriteStatement>
      <Action>
        <value>Write</value>
        <location>{ 0, 3 }</location>
      </Action>
      <LiteralExpression>
        <StringLiteral>
          <value>"HELLO"</value>
          <location>{ 0, 10 }</location>
        </StringLiteral>
        <Transforms>
          <Transform>
            <Label>
              <value>"lowercase"</value>
              <location>{ 0, 20 }</location>
            </Label>
            <Arguments>
            </Arguments>
          </Transform>
          <Transform>
            <Label>
              <value>"uppercase"</value>
              <location>{ 0, 32 }</location>
            </Label>
            <Arguments>
            </Arguments>
          </Transform>
          <Transform>
            <Label>
              <value>"lowercase"</value>
              <location>{ 0, 44 }</location>
            </Label>
            <Arguments>
            </Arguments>
          </Transform>
        </Transforms>
      </LiteralExpression>
    </WriteStatement>
  </EnclosedBlock>
</Ast>
"#;

    let tokens = exclaim::run_lexer(input);
    let ast = exclaim::run_parser(tokens);

    assert_eq!(&Serializer::serialize(&ast), expected);
}

#[test]
fn parse_transform_reference() {
    let input = "{{ write! site.list | enumerate }}";
    let expected = r#"<Ast>
  <EnclosedBlock>
    <WriteStatement>
      <Action>
        <value>Write</value>
        <location>{ 0, 3 }</location>
      </Action>
      <ReferenceExpression>
        <Label>
          <value>"site"</value>
          <location>{ 0, 10 }</location>
        </Label>
        <Label>
          <value>"list"</value>
          <location>{ 0, 15 }</location>
        </Label>
        <Transforms>
          <Transform>
            <Label>
              <value>"enumerate"</value>
              <location>{ 0, 22 }</location>
            </Label>
            <Arguments>
            </Arguments>
          </Transform>
        </Transforms>
      </ReferenceExpression>
    </WriteStatement>
  </EnclosedBlock>
</Ast>
"#;

    let tokens = exclaim::run_lexer(input);
    let ast = exclaim::run_parser(tokens);

    assert_eq!(&Serializer::serialize(&ast), expected);
}

#[test]
fn parse_transform_args() {
    let input = "{{ write! \"ABCDEFG\" | take(1,\"two\", 3) }}";
    let expected = r#"<Ast>
  <EnclosedBlock>
    <WriteStatement>
      <Action>
        <value>Write</value>
        <location>{ 0, 3 }</location>
      </Action>
      <LiteralExpression>
        <StringLiteral>
          <value>"ABCDEFG"</value>
          <location>{ 0, 10 }</location>
        </StringLiteral>
        <Transforms>
          <Transform>
            <Label>
              <value>"take"</value>
              <location>{ 0, 22 }</location>
            </Label>
            <Arguments>
              <LiteralExpression>
                <NumberLiteral>
                  <value>1</value>
                  <location>{ 0, 27 }</location>
                </NumberLiteral>
                <Transforms>
                </Transforms>
              </LiteralExpression>
              <LiteralExpression>
                <StringLiteral>
                  <value>"two"</value>
                  <location>{ 0, 29 }</location>
                </StringLiteral>
                <Transforms>
                </Transforms>
              </LiteralExpression>
              <LiteralExpression>
                <NumberLiteral>
                  <value>3</value>
                  <location>{ 0, 36 }</location>
                </NumberLiteral>
                <Transforms>
                </Transforms>
              </LiteralExpression>
            </Arguments>
          </Transform>
        </Transforms>
      </LiteralExpression>
    </WriteStatement>
  </EnclosedBlock>
</Ast>
"#;

    let tokens = exclaim::run_lexer(input);
    let ast = exclaim::run_parser(tokens);

    assert_eq!(&Serializer::serialize(&ast), expected);
}

#[test]
fn parse_stmt_let() {
    let input = "{{ let! x = y }}";
    let expected = r#"<Ast>
  <EnclosedBlock>
    <LetStatement>
      <Action>
        <value>Let</value>
        <location>{ 0, 3 }</location>
      </Action>
      <DeclerationPattern>
        <Label>
          <value>"x"</value>
          <location>{ 0, 8 }</location>
        </Label>
      </DeclerationPattern>
      <ReferenceExpression>
        <Label>
          <value>"y"</value>
          <location>{ 0, 12 }</location>
        </Label>
        <Transforms>
        </Transforms>
      </ReferenceExpression>
    </LetStatement>
  </EnclosedBlock>
</Ast>
"#;

    let tokens = exclaim::run_lexer(input);
    let ast = exclaim::run_parser(tokens);

    assert_eq!(&Serializer::serialize(&ast), expected);
}

#[test]
fn parse_stmt_let_pattern() {
    let input = "{{ let! (item, index) = list | enumerate }}";
    let expected = r#"<Ast>
  <EnclosedBlock>
    <LetStatement>
      <Action>
        <value>Let</value>
        <location>{ 0, 3 }</location>
      </Action>
      <DeclerationPattern>
        <Label>
          <value>"item"</value>
          <location>{ 0, 9 }</location>
        </Label>
        <Label>
          <value>"index"</value>
          <location>{ 0, 15 }</location>
        </Label>
      </DeclerationPattern>
      <ReferenceExpression>
        <Label>
          <value>"list"</value>
          <location>{ 0, 24 }</location>
        </Label>
        <Transforms>
          <Transform>
            <Label>
              <value>"enumerate"</value>
              <location>{ 0, 31 }</location>
            </Label>
            <Arguments>
            </Arguments>
          </Transform>
        </Transforms>
      </ReferenceExpression>
    </LetStatement>
  </EnclosedBlock>
</Ast>
"#;

    let tokens = exclaim::run_lexer(input);
    let ast = exclaim::run_parser(tokens);

    assert_eq!(&Serializer::serialize(&ast), expected);
}

#[test]
fn parse_stmt_render_iterable() {
    let input = "{{ render! page : site.pages }}";
    let expected = r#"<Ast>
  <UnclosedBlock>
    <RenderStatement>
      <Action>
        <value>Render</value>
        <location>{ 0, 3 }</location>
      </Action>
      <DeclerationPattern>
        <Label>
          <value>"page"</value>
          <location>{ 0, 11 }</location>
        </Label>
      </DeclerationPattern>
      <ReferenceExpression>
        <Label>
          <value>"site"</value>
          <location>{ 0, 18 }</location>
        </Label>
        <Label>
          <value>"pages"</value>
          <location>{ 0, 23 }</location>
        </Label>
        <Transforms>
        </Transforms>
      </ReferenceExpression>
    </RenderStatement>
  </UnclosedBlock>
</Ast>
"#;

    let tokens = exclaim::run_lexer(input);
    let ast = exclaim::run_parser(tokens);

    assert_eq!(&Serializer::serialize(&ast), expected);
}

#[test]
fn parser_error_from_kind_carries_its_description() {
    let e = ParserError::from(ErrorKind::UnexpectedStringLiteral);
    assert_eq!(e.message(), "unexpected string literal");
    assert_eq!(format!("{:?}", e), "Kind(\"unexpected string literal\")");
    let e: ParserError = ErrorKind::Unimplemented.into();
    assert_eq!(e.message(), "reached unimplemented code");
}

#[test]
fn parser_error_from_message_is_custom() {
    let e = ParserError::from("no block here");
    assert_eq!(e.message(), "no block here");
    assert_eq!(format!("{:?}", e), "Custom(\"no block here\")");
    let e = ParserError::from(String::from("owned message"));
    assert_eq!(e.message(), "owned message");
    assert_eq!(format!("{:?}", e), "Custom(\"owned message\")");
}
