use exclaim::common::Location;
use exclaim::lexer::lexemes::tokens::{Token, TokenKind};
use exclaim::parser::node::ast::Ast;
use exclaim::parser::node::nodes::{
    BlockNode, Expression, LiteralExpression, Node, ReferenceExpression, StmtNode, TextNode,
};
use exclaim::parser::node::serializer::AstSerializer;
use exclaim::parser::tree;
use exclaim::tokens::{Action, Op};

fn lexeme(kind: TokenKind, text: &str, line: usize, column: usize) -> Token {
    Token::new(kind, String::from(text), Location::new(line, column))
}

#[test]
fn serialize_empty_tree() {
    assert_eq!(AstSerializer::serialize(&Ast::new()), "\n<Ast>\n</Ast>\n");
}

#[test]
fn serialize_text_and_write_block() {
    let mut ast = Ast::new();
    ast.push_block(Node::Text(TextNode::new(lexeme(TokenKind::StringLiteral, "Hello, World!", 0, 0))));
    let mut stmt = StmtNode::new(lexeme(TokenKind::Action(Action::Write), "write!", 0, 16));
    stmt.set_expr(Expression::Literal(LiteralExpression::new(lexeme(
        TokenKind::NumberLiteral(1),
        "1",
        0,
        23,
    ))));
    let mut block = BlockNode::new();
    block.set_stmt(stmt);
    ast.push_block(Node::Block(block));
    let expected = r#"
<Ast>
  <TextNode>
    <text>
      <Token>
        <kind>StringLiteral</kind>
        <lexeme>"Hello, World!"</lexeme>
        <location>{ 0, 0 }</location>
      </Token>
    </text>
  </TextNode>
  <BlockNode>
    <stmt>
      <Option>
        <StmtNode>
          <action>
            <Token>
              <kind>Action(Write)</kind>
              <lexeme>"write!"</lexeme>
              <location>{ 0, 16 }</location>
            </Token>
          </action>
          <expr>
            <Option>
              <LiteralExpression>
                <literal>
                  <Token>
                    <kind>NumberLiteral(1)</kind>
                    <lexeme>"1"</lexeme>
                    <location>{ 0, 23 }</location>
                  </Token>
                </literal>
              </LiteralExpression>
            </Option>
          </expr>
        </StmtNode>
      </Option>
    </stmt>
  </BlockNode>
</Ast>
"#;
    assert_eq!(AstSerializer::serialize(&ast), expected);
}

#[test]
fn serialize_reference_chain() {
    let field = ReferenceExpression::new(lexeme(TokenKind::Label, "field", 0, 5), None);
    let reference = ReferenceExpression::new(lexeme(TokenKind::Label, "data", 0, 0), Some(Box::new(field)));
    let mut stmt = StmtNode::new(lexeme(TokenKind::Operator(Op::Dot), ".", 0, 4));
    stmt.set_expr(Expression::Reference(reference));
    let mut ast = Ast::new();
    ast.push_block(Node::Stmt(stmt));
    let mut block = BlockNode::new();
    let mut inner = StmtNode::new(lexeme(TokenKind::Action(Action::End), "!", 1, 2));
    let chain = ReferenceExpression::new(
        lexeme(TokenKind::Label, "a", 1, 4),
        Some(Box::new(ReferenceExpression::new(lexeme(TokenKind::Label, "b", 1, 6), None))),
    );
    inner.set_expr(Expression::Reference(chain));
    block.set_stmt(inner);
    ast.push_block(Node::Block(block));
    let expected = r#"
<Ast>
  <BlockNode>
    <stmt>
      <Option>
        <StmtNode>
          <action>
            <Token>
              <kind>Action(End)</kind>
              <lexeme>"!"</lexeme>
              <location>{ 1, 2 }</location>
            </Token>
          </action>
          <expr>
            <Option>
              <ReferenceExpression>
                <reference>
                  <Token>
                    <kind>Label</kind>
                    <lexeme>"a"</lexeme>
                    <location>{ 1, 4 }</location>
                  </Token>
                </reference>
                <child>
                  <Option>
                    <ReferenceExpression>
                      <reference>
                        <Token>
                          <kind>Label</kind>
                          <lexeme>"b"</lexeme>
                          <location>{ 1, 6 }</location>
                        </Token>
                      </reference>
                      <child>
                        <Option>None</Option>
                      </child>
                    </ReferenceExpression>
                  </Option>
                </child>
              </ReferenceExpression>
            </Option>
          </expr>
        </StmtNode>
      </Option>
    </stmt>
  </BlockNode>
</Ast>
"#;
    assert_eq!(AstSerializer::serialize(&ast), expected);
}

#[test]
fn serialize_block_without_statement() {
    let mut ast = Ast::new();
    ast.push_block(Node::Block(BlockNode::new()));
    let expected = "\n<Ast>\n  <BlockNode>\n    <stmt>\n      <Option>None</Option>\n    </stmt>\n  </BlockNode>\n</Ast>\n";
    assert_eq!(AstSerializer::serialize(&ast), expected);
}

#[test]
fn node_parts_come_back() {
    let t = lexeme(TokenKind::Label, "x", 0, 1);
    let node = TextNode::new(t.clone());
    assert_eq!(node.text(), &t);
    let stmt = StmtNode::new(t.clone());
    assert_eq!(stmt.action(), &t);
    assert!(stmt.expr().is_none());
    let block = BlockNode::new();
    assert!(block.stmt().is_none());
    let reference = ReferenceExpression::new(t.clone(), None);
    assert_eq!(reference.reference(), &t);
    assert!(reference.child().is_none());
    let literal = LiteralExpression::new(t.clone());
    assert_eq!(literal.literal(), &t);
    let mut ast = Ast::new();
    assert_eq!(ast.blocks().len(), 0);
    ast.push_block(Node::Text(node));
    assert_eq!(ast.blocks().len(), 1);
}

#[test]
fn tree_parts_come_back() {
    let label = exclaim::tokens::Token::Label(String::from("f"), Location::new(0, 0));
    let call = tree::nodes::Call::new(label.clone(), None);
    assert_eq!(call.function(), &label);
    assert!(call.arguments().is_none());
    let pipe = tree::nodes::PipeSubExpression::new(call, None);
    assert!(pipe.next().is_none());
    assert_eq!(pipe.call().function(), &label);
    let args = tree::nodes::Arguments::new(vec![]);
    assert_eq!(args.args().len(), 0);
    let pattern = tree::nodes::TuplePattern::new(vec![label.clone(), label.clone()]);
    assert_eq!(pattern.decls().len(), 2);
    let simple = tree::nodes::SimplePattern::new(label.clone());
    assert_eq!(simple.decl(), &label);
    let literal = tree::nodes::LiteralExpression::new(label.clone(), None);
    assert_eq!(literal.literal(), &label);
    let stmt = tree::nodes::LetStmt::new(label.clone(), tree::nodes::Expression::Literal(literal));
    assert_eq!(stmt.assignee(), &label);
    let simple_stmt = tree::nodes::SimpleStmt::new(label.clone(), None);
    assert!(simple_stmt.expr().is_none());
    assert_eq!(simple_stmt.action(), &label);
    let block = tree::nodes::BlockNode::new(tree::nodes::Stmt::Let(stmt));
    match block.stmt() {
        tree::nodes::Stmt::Let(s) => assert_eq!(s.assignee(), &label),
        _ => panic!("expected a let statement"),
    }
    let text = tree::nodes::TextNode::new(label.clone());
    assert_eq!(text.text(), &label);
    let mut ast = tree::ast::Ast::new();
    ast.push_block(tree::nodes::Node::Text(text));
    ast.push_block(tree::nodes::Node::Block(block));
    assert_eq!(ast.blocks().len(), 2);
}
