use exclaim::common::serialize::Serializer;
use exclaim::common::Location;
use exclaim::parser::tree::ast::Ast;
use exclaim::parser::tree::nodes::{
    Arguments, BlockNode, Call, Expression, LetStmt, LiteralExpression, Node, PipeSubExpression,
    ReferenceExpression, SimplePattern, SimpleStmt, Stmt, TextNode, TuplePattern,
};
use exclaim::tokens::{Action, Token};

fn string(s: &str, line: usize, column: usize) -> Token {
    Token::StringLiteral(String::from(s), Location::new(line, column))
}

fn label(s: &str, line: usize, column: usize) -> Token {
    Token::Label(String::from(s), Location::new(line, column))
}

fn action(a: Action, line: usize, column: usize) -> Token {
    Token::Action(a, Location::new(line, column))
}

#[test]
fn tree_print_empty() {
    assert_eq!(Ast::new().print(), "<Ast>\n</Ast>\n");
}

#[test]
fn tree_print_text_and_piped_literal() {
    let argument = Expression::Literal(LiteralExpression::new(
        Token::NumberLiteral(1, Location::new(0, 29)),
        None,
    ));
    let call = Call::new(label("take", 0, 24), Some(Arguments::new(vec![argument])));
    let literal = LiteralExpression::new(string("ABC", 0, 16), Some(PipeSubExpression::new(call, None)));
    let stmt = SimpleStmt::new(action(Action::Write, 0, 9), Some(Expression::Literal(literal)));
    let mut ast = Ast::new();
    ast.push_block(Node::Text(TextNode::new(string("Hello ", 0, 0))));
    ast.push_block(Node::Block(BlockNode::new(Stmt::Simple(stmt))));
    let expected = r#"<Ast>
  <TextNode>
    <text>
      <StringLiteral>
        <value>"Hello "</value>
        <location>{ 0, 0 }</location>
      </StringLiteral>
    </text>
  </TextNode>
  <BlockNode>
    <stmt>
      <SimpleStmt>
        <action>
          <Action>
            <value>Write</value>
            <location>{ 0, 9 }</location>
          </Action>
        </action>
        <expr>
          <Option>
            <LiteralExpression>
              <literal>
                <StringLiteral>
                  <value>"ABC"</value>
                  <location>{ 0, 16 }</location>
                </StringLiteral>
              </literal>
              <pipe>
                <Option>
                  <PipeSubExpression>
                    <call>
                      <Call>
                        <function>
                          <Label>
                            <value>"take"</value>
                            <location>{ 0, 24 }</location>
                          </Label>
                        </function>
                        <arguments>
                          <Option>
                            <Arguments>
                              <arg>
                                <LiteralExpression>
                                  <literal>
                                    <NumberLiteral>
                                      <value>1</value>
                                      <location>{ 0, 29 }</location>
                                    </NumberLiteral>
                                  </literal>
                                  <pipe>
                                    <Option>None</Option>
                                  </pipe>
                                </LiteralExpression>
                              </arg>
                            </Arguments>
                          </Option>
                        </arguments>
                      </Call>
                    </call>
                    <next>
                      <Option>None</Option>
                    </next>
                  </PipeSubExpression>
                </Option>
              </pipe>
            </LiteralExpression>
          </Option>
        </expr>
      </SimpleStmt>
    </stmt>
  </BlockNode>
</Ast>
"#;
    assert_eq!(ast.print(), expected);
}

#[test]
fn tree_print_let_reference_and_end() {
    let posts = ReferenceExpression::new(label("posts", 0, 17), None);
    let site = ReferenceExpression::new(label("site", 0, 12), Some(Box::new(posts)));
    let binding = LetStmt::new(label("x", 0, 8), Expression::Reference(site));
    let end = SimpleStmt::new(action(Action::End, 0, 30), None);
    let x = ReferenceExpression::new(label("x", 0, 47), None);
    let write = SimpleStmt::new(action(Action::Write, 0, 40), Some(Expression::Reference(x)));
    let mut ast = Ast::new();
    ast.push_block(Node::Block(BlockNode::new(Stmt::Let(binding))));
    ast.push_block(Node::Block(BlockNode::new(Stmt::Simple(end))));
    ast.push_block(Node::Block(BlockNode::new(Stmt::Simple(write))));
    let expected = r#"<Ast>
  <BlockNode>
    <stmt>
      <LetStmt>
        <assignee>
          <Label>
            <value>"x"</value>
            <location>{ 0, 8 }</location>
          </Label>
        </assignee>
        <expr>
          <ReferenceExpression>
            <reference>
              <Label>
                <value>"site"</value>
                <location>{ 0, 12 }</location>
              </Label>
            </reference>
            <child>
              <Option>
                <ReferenceExpression>
                  <reference>
                    <Label>
                      <value>"posts"</value>
                      <location>{ 0, 17 }</location>
                    </Label>
                  </reference>
                  <child>
                    <Option>None</Option>
                  </child>
                </ReferenceExpression>
              </Option>
            </child>
          </ReferenceExpression>
        </expr>
      </LetStmt>
    </stmt>
  </BlockNode>
  <BlockNode>
    <stmt>
      <SimpleStmt>
        <action>
          <Action>
            <value>End</value>
            <location>{ 0, 30 }</location>
          </Action>
        </action>
        <expr>
          <Option>None</Option>
        </expr>
      </SimpleStmt>
    </stmt>
  </BlockNode>
  <BlockNode>
    <stmt>
      <SimpleStmt>
        <action>
          <Action>
            <value>Write</value>
            <location>{ 0, 40 }</location>
          </Action>
        </action>
        <expr>
          <Option>
            <ReferenceExpression>
              <reference>
                <Label>
                  <value>"x"</value>
                  <location>{ 0, 47 }</location>
                </Label>
              </reference>
              <child>
                <Option>None</Option>
              </child>
            </ReferenceExpression>
          </Option>
        </expr>
      </SimpleStmt>
    </stmt>
  </BlockNode>
</Ast>
"#;
    assert_eq!(ast.print(), expected);
}

#[test]
fn tree_print_pipe_chain() {
    let upper = PipeSubExpression::new(Call::new(label("uppercase", 0, 30), None), None);
    let lower = PipeSubExpression::new(Call::new(label("lowercase", 0, 18), None), Some(Box::new(upper)));
    let literal = Expression::Literal(LiteralExpression::new(string("Abc", 0, 10), Some(lower)));
    let mut serde = Serializer::new();
    literal.serialize(&mut serde);
    let expected = r#"<LiteralExpression>
  <literal>
    <StringLiteral>
      <value>"Abc"</value>
      <location>{ 0, 10 }</location>
    </StringLiteral>
  </literal>
  <pipe>
    <Option>
      <PipeSubExpression>
        <call>
          <Call>
            <function>
              <Label>
                <value>"lowercase"</value>
                <location>{ 0, 18 }</location>
              </Label>
            </function>
            <arguments>
              <Option>None</Option>
            </arguments>
          </Call>
        </call>
        <next>
          <Option>
            <PipeSubExpression>
              <call>
                <Call>
                  <function>
                    <Label>
                      <value>"uppercase"</value>
                      <location>{ 0, 30 }</location>
                    </Label>
                  </function>
                  <arguments>
                    <Option>None</Option>
                  </arguments>
                </Call>
              </call>
              <next>
                <Option>None</Option>
              </next>
            </PipeSubExpression>
          </Option>
        </next>
      </PipeSubExpression>
    </Option>
  </pipe>
</LiteralExpression>
"#;
    assert_eq!(serde.into_string(), expected);
}

#[test]
fn tree_print_patterns() {
    let mut serde = Serializer::new();
    SimplePattern::new(label("item", 1, 2)).serialize(&mut serde);
    let tag = serde.open_tag("let");
    TuplePattern::new(vec![label("item", 1, 3), label("index", 1, 9)]).serialize(&mut serde);
    serde.close_tag(tag);
    let expected = r#"<SimplePattern>
  <decl>
    <Label>
      <value>"item"</value>
      <location>{ 1, 2 }</location>
    </Label>
  </decl>
</SimplePattern>
<let>
  <TuplePattern>
    <decl>
      <Label>
        <value>"item"</value>
        <location>{ 1, 3 }</location>
      </Label>
    </decl>
    <decl>
      <Label>
        <value>"index"</value>
        <location>{ 1, 9 }</location>
      </Label>
    </decl>
  </TuplePattern>
</let>
"#;
    assert_eq!(serde.into_string(), expected);
}
