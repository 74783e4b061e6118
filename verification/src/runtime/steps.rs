//! What running each block of an analysed tree does, decided from the tree
//! alone: which text to write, which statement to run, which names a render!
//! block binds to each item, and which blocks it renders for each. Computing
//! the values of expressions is the work of whoever holds the values.
use vstd::prelude::*;

use crate::ast::shape::all_labels;
use crate::ast::{
    Ast, AstElement, AstIndex, AstView, Block, BlockView, ElementView, Expression, ExpressionView, Pattern, PatternView,
    Statement, StatementView,
};
use crate::common::serialize::{action_str, action_text, op_str, op_text};
use crate::common::text::{decimal, decimal_string, push_str};
use crate::tokens::{Token, TokenView};

verus! {

/// What the runtime writes for a token: the text of a literal or a label,
/// the digits of a number, the name of an operator or an action.
pub open spec fn rendered(t: TokenView) -> Seq<char> {
    match t {
        TokenView::StringLiteral(s, _) => s,
        TokenView::NumberLiteral(n, _) => decimal(n as nat),
        TokenView::Label(s, _) => s,
        TokenView::Operator(op, _) => op_text(op),
        TokenView::Action(a, _) => action_text(a),
    }
}

impl Token {
    /// The text the runtime writes for the token.
    pub fn render(&self) -> (s: String)
        ensures
            s@ == rendered(self@),
    {
        match self {
            Token::StringLiteral(literal, _) => literal.clone(),
            Token::NumberLiteral(number, _) => decimal_string(*number),
            Token::Label(label, _) => label.clone(),
            Token::Operator(op, _) => {
                let mut s = String::new();
                push_str(&mut s, op_str(*op));
                s
            },
            Token::Action(action, _) => {
                let mut s = String::new();
                push_str(&mut s, action_str(*action));
                s
            },
        }
    }
}

/// The pattern at `p` can be read: it lies in the tree, and if it is a
/// pattern, it declares labels only.
pub open spec fn pattern_readable(ast: AstView, p: AstIndex) -> bool {
    &&& p.0 < ast.elements.len()
    &&& ast.elements[p.0 as int] matches ElementView::Pattern(_, PatternView::Decleration(ds)) ==> all_labels(ds)
}

/// The names that the pattern at `p` declares.
pub open spec fn pattern_names(ast: AstView, p: AstIndex) -> Result<Seq<Seq<char>>, Seq<char>> {
    match ast.elements[p.0 as int] {
        ElementView::Pattern(_, PatternView::Decleration(ds)) => Ok(ds.map_values(|t: TokenView| t->Label_0)),
        _ => Err("Runtime Error: Let! expected a pattern"@),
    }
}

/// The text of each string.
pub open spec fn texts(v: Seq<String>) -> Seq<Seq<char>> {
    v.map_values(|s: String| s@)
}

/// The names that the pattern at `pattern` declares, in order.
pub fn run_pattern(ast: &Ast, pattern: AstIndex) -> (r: Result<Vec<String>, String>)
    requires
        pattern_readable(ast@, pattern),
    ensures
        match pattern_names(ast@, pattern) {
            Ok(names) => r matches Ok(v) && texts(v@) == names,
            Err(e) => r matches Err(m) && m@ == e,
        },
{
    match ast.get(pattern) {
        AstElement::Pattern(_, Pattern::Decleration(decls)) => Ok(label_names(decls)),
        _ => Err("Runtime Error: Let! expected a pattern".to_owned()),
    }
}

/// What a statement of a code block does.
pub enum StatementStep {
    /// Writes the value of the expression.
    Write(AstIndex),
    /// Binds the names to the value of the expression.
    Let(Vec<String>, AstIndex),
}

pub enum StatementPlan {
    Write(AstIndex),
    Let(Seq<Seq<char>>, AstIndex),
}

impl View for StatementStep {
    type V = StatementPlan;

    open spec fn view(&self) -> StatementPlan {
        match self {
            StatementStep::Write(x) => StatementPlan::Write(*x),
            StatementStep::Let(names, x) => StatementPlan::Let(texts(names@), *x),
        }
    }
}

/// The statement at `s` can be read: it lies in the tree, and the pattern of
/// a let! statement can be read.
pub open spec fn statement_readable(ast: AstView, s: AstIndex) -> bool {
    &&& s.0 < ast.elements.len()
    &&& ast.elements[s.0 as int] matches ElementView::Statement(_, StatementView::Let(_, p, _)) ==> pattern_readable(ast, p)
}

/// What running the statement at `s` does.
pub open spec fn statement_plan(ast: AstView, s: AstIndex) -> Result<StatementPlan, Seq<char>> {
    match ast.elements[s.0 as int] {
        ElementView::Statement(_, st) => match st {
            StatementView::Write(_, x) => Ok(StatementPlan::Write(x)),
            StatementView::Let(_, p, x) => match pattern_names(ast, p) {
                Ok(names) => Ok(StatementPlan::Let(names, x)),
                Err(e) => Err(e),
            },
            _ => Err("Runtime Error: statement Variant Unimplemented"@),
        },
        _ => Err("Runtime Error: Expected a statement"@),
    }
}

/// What running the statement at `statement` does.
pub fn statement_step(ast: &Ast, statement: AstIndex) -> (r: Result<StatementStep, String>)
    requires
        statement_readable(ast@, statement),
    ensures
        match statement_plan(ast@, statement) {
            Ok(plan) => r matches Ok(step) && step@ == plan,
            Err(e) => r matches Err(m) && m@ == e,
        },
{
    match ast.get(statement) {
        AstElement::Statement(_, st) => match st {
            Statement::Write(_, expression) => Ok(StatementStep::Write(*expression)),
            Statement::Let(_, pattern, expression) => match run_pattern(ast, *pattern) {
                Ok(names) => Ok(StatementStep::Let(names, *expression)),
                Err(e) => Err(e),
            },
            _ => Err("Runtime Error: statement Variant Unimplemented".to_owned()),
        },
        _ => Err("Runtime Error: Expected a statement".to_owned()),
    }
}

/// What a block does when it runs.
pub enum BlockStep {
    /// Writes the text.
    Text(String),
    /// Runs the statement at the index.
    Enclosed(AstIndex),
    /// Opens a scope and, for each item of the value of the expression, binds
    /// the names to the item and runs the blocks of the scope; then closes
    /// the scope.
    Render(Vec<String>, AstIndex, Vec<AstIndex>),
    /// Nothing: a closing block has done its work in the analysis.
    Closing,
}

pub enum BlockPlan {
    Text(Seq<char>),
    Enclosed(AstIndex),
    Render(Seq<Seq<char>>, AstIndex, Seq<AstIndex>),
    Closing,
}

impl View for BlockStep {
    type V = BlockPlan;

    open spec fn view(&self) -> BlockPlan {
        match self {
            BlockStep::Text(text) => BlockPlan::Text(text@),
            BlockStep::Enclosed(s) => BlockPlan::Enclosed(*s),
            BlockStep::Render(names, x, scope) => BlockPlan::Render(texts(names@), *x, scope@),
            BlockStep::Closing => BlockPlan::Closing,
        }
    }
}

/// The block at `block` can be read: it lies in the tree, and so do the
/// statement of a render! block and the pattern of that statement.
pub open spec fn block_readable(ast: AstView, block: Option<AstIndex>) -> bool {
    block matches Some(b) ==> {
        &&& b.0 < ast.elements.len()
        &&& ast.elements[b.0 as int] matches ElementView::Block(_, BlockView::CodeUnclosed(s, _, _)) ==> {
            &&& s.0 < ast.elements.len()
            &&& ast.elements[s.0 as int] matches ElementView::Statement(_, StatementView::Render(_, p, _))
                ==> pattern_readable(ast, p)
        }
    }
}

/// What running the block at `block` does, and the block that follows it.
pub open spec fn block_plan(ast: AstView, block: Option<AstIndex>) -> Result<(BlockPlan, Option<AstIndex>), Seq<char>> {
    match block {
        None => Err("Runtime Error: AST ended unexpectedly."@),
        Some(b) => match ast.elements[b.0 as int] {
            ElementView::Block(_, bv) => match bv {
                BlockView::Text(text, next) => Ok((BlockPlan::Text(rendered(text)), next)),
                BlockView::CodeEnclosed(s, next) => Ok((BlockPlan::Enclosed(s), next)),
                BlockView::CodeUnclosed(s, scope, next) => match ast.elements[s.0 as int] {
                    ElementView::Statement(_, StatementView::Render(_, p, x)) => match pattern_names(ast, p) {
                        Ok(names) => Ok((BlockPlan::Render(names, x, scope), next)),
                        Err(e) => Err(e),
                    },
                    ElementView::Statement(_, _) => Err("Runtime Error: Expected a Render Statement."@),
                    _ => Err("Runtime Error: Expected a statement."@),
                },
                BlockView::CodeClosing(_, next) => Ok((BlockPlan::Closing, next)),
            },
            _ => Err("Runtime Error: Expected a block"@),
        },
    }
}

fn copy_indices(v: &Vec<AstIndex>) -> (r: Vec<AstIndex>)
    ensures
        r@ == v@,
{
    let mut r: Vec<AstIndex> = Vec::new();
    let mut i: usize = 0;
    while i < v.len()
        invariant
            i <= v.len(),
            r@ == v@.take(i as int),
        decreases v.len() - i,
    {
        r.push(v[i]);
        assert(r@ =~= v@.take(i + 1));
        i = i + 1;
    }
    assert(v@.take(v.len() as int) =~= v@);
    r
}

/// What running the block at `block` does, and the block that follows it.
pub fn block_step(ast: &Ast, block: Option<AstIndex>) -> (r: Result<(BlockStep, Option<AstIndex>), String>)
    requires
        block_readable(ast@, block),
    ensures
        match block_plan(ast@, block) {
            Ok((plan, next)) => r matches Ok((step, n)) && step@ == plan && n == next,
            Err(e) => r matches Err(m) && m@ == e,
        },
{
    let b = match block {
        Some(b) => b,
        None => return Err("Runtime Error: AST ended unexpectedly.".to_owned()),
    };
    match ast.get(b) {
        AstElement::Block(_, bl) => match bl {
            Block::Text(text, next) => Ok((BlockStep::Text(text.render()), *next)),
            Block::CodeEnclosed(statement, next) => Ok((BlockStep::Enclosed(*statement), *next)),
            Block::CodeUnclosed(statement, scope, next) => match ast.get(*statement) {
                AstElement::Statement(_, Statement::Render(_, pattern, expression)) => match run_pattern(ast, *pattern) {
                    Ok(names) => Ok((BlockStep::Render(names, *expression, copy_indices(scope)), *next)),
                    Err(e) => Err(e),
                },
                AstElement::Statement(_, _) => Err("Runtime Error: Expected a Render Statement.".to_owned()),
                _ => Err("Runtime Error: Expected a statement.".to_owned()),
            },
            Block::CodeClosing(_, next) => Ok((BlockStep::Closing, *next)),
        },
        _ => Err("Runtime Error: Expected a block".to_owned()),
    }
}

/// Whether every token is a label.
fn all_are_labels(ts: &Vec<Token>) -> (b: bool)
    ensures
        b == all_labels(ts@.map_values(|t: Token| t@)),
{
    let ghost views = ts@.map_values(|t: Token| t@);
    let mut i: usize = 0;
    while i < ts.len()
        invariant
            i <= ts.len(),
            views == ts@.map_values(|t: Token| t@),
            forall|k: int| 0 <= k < i ==> #[trigger] views[k] is Label,
        decreases ts.len() - i,
    {
        assert(views[i as int] == ts@[i as int]@);
        match &ts[i] {
            Token::Label(_, _) => {},
            _ => return false,
        }
        i = i + 1;
    }
    true
}

/// Whether the pattern at `p` can be read.
pub fn pattern_is_readable(ast: &Ast, p: AstIndex) -> (b: bool)
    ensures
        b == pattern_readable(ast@, p),
{
    if p.0 >= ast.len() {
        return false;
    }
    match ast.get(p) {
        AstElement::Pattern(_, Pattern::Decleration(decls)) => all_are_labels(decls),
        _ => true,
    }
}

/// Whether the statement at `s` can be read.
pub fn statement_is_readable(ast: &Ast, s: AstIndex) -> (b: bool)
    ensures
        b == statement_readable(ast@, s),
{
    if s.0 >= ast.len() {
        return false;
    }
    match ast.get(s) {
        AstElement::Statement(_, Statement::Let(_, p, _)) => pattern_is_readable(ast, *p),
        _ => true,
    }
}

/// Whether the block at `block` can be read.
pub fn block_is_readable(ast: &Ast, block: Option<AstIndex>) -> (b: bool)
    ensures
        b == block_readable(ast@, block),
{
    let b = match block {
        Some(b) => b,
        None => return true,
    };
    if b.0 >= ast.len() {
        return false;
    }
    match ast.get(b) {
        AstElement::Block(_, Block::CodeUnclosed(s, _, _)) => {
            if s.0 >= ast.len() {
                return false;
            }
            match ast.get(*s) {
                AstElement::Statement(_, Statement::Render(_, p, _)) => pattern_is_readable(ast, *p),
                _ => true,
            }
        },
        _ => true,
    }
}

/// What an expression starts from, before its transformations.
pub enum ExpressionStep {
    /// The value of the literal token, then the transformations at the
    /// indices.
    Literal(Token, Vec<AstIndex>),
    /// The value bound to the first name, then its member named by each
    /// name after it, in turn; then the transformations at the indices.
    Reference(Vec<String>, Vec<AstIndex>),
}

pub enum ExpressionPlan {
    Literal(TokenView, Seq<AstIndex>),
    Reference(Seq<Seq<char>>, Seq<AstIndex>),
}

impl View for ExpressionStep {
    type V = ExpressionPlan;

    open spec fn view(&self) -> ExpressionPlan {
        match self {
            ExpressionStep::Literal(t, trs) => ExpressionPlan::Literal(t@, trs@),
            ExpressionStep::Reference(names, trs) => ExpressionPlan::Reference(texts(names@), trs@),
        }
    }
}

/// The expression at `x` can be read: it lies in the tree, and a reference
/// follows at least one name, each a label.
pub open spec fn expression_readable(ast: AstView, x: AstIndex) -> bool {
    &&& x.0 < ast.elements.len()
    &&& ast.elements[x.0 as int] matches ElementView::Expression(_, ExpressionView::Reference(refs, _)) ==> refs.len()
        > 0 && all_labels(refs)
}

/// What evaluating the expression at `x` starts from.
pub open spec fn expression_plan(ast: AstView, x: AstIndex) -> Result<ExpressionPlan, Seq<char>> {
    match ast.elements[x.0 as int] {
        ElementView::Expression(_, ExpressionView::Literal(t, trs)) => Ok(ExpressionPlan::Literal(t, trs)),
        ElementView::Expression(_, ExpressionView::Reference(refs, trs)) => Ok(
            ExpressionPlan::Reference(refs.map_values(|t: TokenView| t->Label_0), trs),
        ),
        _ => Err("Runtime: Expected an expression"@),
    }
}

/// A token with the same kind, text and location.
fn copy_token(t: &Token) -> (r: Token)
    ensures
        r@ == t@,
{
    match t {
        Token::StringLiteral(s, loc) => Token::StringLiteral(s.clone(), *loc),
        Token::NumberLiteral(n, loc) => Token::NumberLiteral(*n, *loc),
        Token::Label(s, loc) => Token::Label(s.clone(), *loc),
        Token::Operator(op, loc) => Token::Operator(*op, *loc),
        Token::Action(a, loc) => Token::Action(*a, *loc),
    }
}

/// The names of labels, in order.
fn label_names(ts: &Vec<Token>) -> (names: Vec<String>)
    requires
        all_labels(ts@.map_values(|t: Token| t@)),
    ensures
        texts(names@) == ts@.map_values(|t: Token| t@).map_values(|t: TokenView| t->Label_0),
{
    let ghost ds = ts@.map_values(|t: Token| t@);
    let mut names: Vec<String> = Vec::new();
    let mut i: usize = 0;
    while i < ts.len()
        invariant
            i <= ts.len(),
            ds == ts@.map_values(|t: Token| t@),
            all_labels(ds),
            names@.len() == i,
            texts(names@) == ds.take(i as int).map_values(|t: TokenView| t->Label_0),
        decreases ts.len() - i,
    {
        assert(ds[i as int] == ts@[i as int]@);
        assert(ds[i as int] is Label);
        let name = match &ts[i] {
            Token::Label(label, _) => label.clone(),
            _ => {
                assert(false);
                String::new()
            },
        };
        let ghost before = names@;
        names.push(name);
        let ghost want = ds.take(i + 1).map_values(|t: TokenView| t->Label_0);
        assert forall|k: int| 0 <= k < i + 1 implies #[trigger] texts(names@)[k] == want[k] by {
            if k < i {
                assert(names@[k] == before[k]);
                assert(texts(before)[k] == ds.take(i as int).map_values(|t: TokenView| t->Label_0)[k]);
            }
        }
        assert(texts(names@) =~= want);
        i = i + 1;
    }
    assert(ds.take(ts.len() as int) == ds);
    names
}

/// What evaluating the expression at `expression` starts from.
pub fn expression_step(ast: &Ast, expression: AstIndex) -> (r: Result<ExpressionStep, String>)
    requires
        expression_readable(ast@, expression),
    ensures
        match expression_plan(ast@, expression) {
            Ok(plan) => r matches Ok(step) && step@ == plan,
            Err(e) => r matches Err(m) && m@ == e,
        },
{
    match ast.get(expression) {
        AstElement::Expression(_, Expression::Literal(literal, transforms)) => Ok(
            ExpressionStep::Literal(copy_token(literal), copy_indices(transforms)),
        ),
        AstElement::Expression(_, Expression::Reference(references, transforms)) => Ok(
            ExpressionStep::Reference(label_names(references), copy_indices(transforms)),
        ),
        _ => Err("Runtime: Expected an expression".to_owned()),
    }
}

/// Whether the expression at `x` can be read.
pub fn expression_is_readable(ast: &Ast, x: AstIndex) -> (b: bool)
    ensures
        b == expression_readable(ast@, x),
{
    if x.0 >= ast.len() {
        return false;
    }
    match ast.get(x) {
        AstElement::Expression(_, Expression::Reference(references, _)) => references.len() > 0 && all_are_labels(
            references,
        ),
        _ => true,
    }
}

/// How the names of a pattern take a value.
pub enum Binding {
    /// Name by name, each to the item of the value at its position; names
    /// beyond the last item stay unbound.
    Each,
    /// The one name to the whole value.
    Whole,
}

/// Names bind item by item where there are as many names as items, or where
/// there is not exactly one name; one name takes a value of any other number
/// of items whole.
pub open spec fn binds_each(names: nat, items: nat) -> bool {
    names == items || names != 1
}

/// How `names` names take a value of `items` items.
pub fn pattern_binding(names: usize, items: usize) -> (b: Binding)
    ensures
        b is Each <==> binds_each(names as nat, items as nat),
{
    if names == items || names != 1 {
        Binding::Each
    } else {
        Binding::Whole
    }
}

} // verus!
