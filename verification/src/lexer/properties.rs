//! What the lexer promises of every template.
use vstd::prelude::*;

use crate::common::Location;
use crate::tokens::{Op, TokenView};
use super::automata::Machine;
use crate::common::text::{alphabetic, numeric};
use super::states::{flush_text, lemma_step, operator, State, step};
use super::{lex_loop, spec_run};

verus! {

/// Two equal braces, `{{` or `}}`, start at position `j`.
pub open spec fn brace_pair_at(s: Seq<char>, j: int) -> bool {
    (s[j] == '{' && s[j + 1] == '{') || (s[j] == '}' && s[j + 1] == '}')
}

/// Text without any `{{` or `}}`: it holds no code block.
pub open spec fn plain_text(s: Seq<char>) -> bool {
    forall|j: int| 0 <= j && j + 1 < s.len() ==> !#[trigger] brace_pair_at(s, j)
}

/// From the start state, the lexer reads plain text onto the stack, leaving
/// the start of the text where it was.
proof fn lemma_plain_loop(m: Machine)
    requires
        plain_text(m.chars),
        0 <= m.index <= m.chars.len(),
        m.stack == m.chars.take(m.index),
        m.tokens.len() == 0,
    ensures
        lex_loop(State::Start, m) is Ok,
        lex_loop(State::Start, m)->Ok_0.stack == m.chars,
        lex_loop(State::Start, m)->Ok_0.tokens.len() == 0,
        lex_loop(State::Start, m)->Ok_0.start == m.start,
    decreases m.chars.len() - m.index,
{
    if m.index < m.chars.len() {
        let ch = m.peek();
        let m1 = m.push();
        assert(m1.stack == m.chars.take(m1.index));
        if ch == '{' {
            assert(step(State::Start, m) == Ok::<(State, Machine), Seq<char>>((State::OpenBlock, m)));
            if m.index + 1 < m.chars.len() {
                assert(!brace_pair_at(m.chars, m.index));
            }
            assert(step(State::OpenBlock, m) == Ok::<(State, Machine), Seq<char>>((State::Start, m1)));
            assert(lex_loop(State::OpenBlock, m) == lex_loop(State::Start, m1));
            lemma_plain_loop(m1);
        } else if ch == '}' {
            assert(step(State::Start, m) == Ok::<(State, Machine), Seq<char>>((State::CloseBlock, m)));
            if m.index + 1 < m.chars.len() {
                assert(!brace_pair_at(m.chars, m.index));
            }
            assert(step(State::CloseBlock, m) == Ok::<(State, Machine), Seq<char>>((State::Start, m1)));
            assert(lex_loop(State::CloseBlock, m) == lex_loop(State::Start, m1));
            lemma_plain_loop(m1);
        } else if ch == '\n' {
            lemma_plain_loop(m1.newline());
        } else {
            lemma_plain_loop(m1);
        }
    } else {
        assert(m.chars.take(m.index) == m.chars);
    }
}

/// Text outside code blocks is kept as it is: a template without `{{` or `}}`
/// is one string literal, starting at the first line and column, that holds
/// the whole template, whitespace and newlines included; an empty template
/// has no tokens.
pub proof fn lemma_plain_text_is_one_literal(input: Seq<char>)
    requires
        plain_text(input),
    ensures
        spec_run(input) == Ok::<Seq<TokenView>, Seq<char>>(
            if input.len() == 0 {
                Seq::empty()
            } else {
                seq![TokenView::StringLiteral(input, Location::at(0, 0))]
            },
        ),
{
    let m = Machine::initial(input);
    assert(m.stack == m.chars.take(0));
    lemma_plain_loop(m);
    let end = lex_loop(State::Start, m)->Ok_0;
    if input.len() == 0 {
        assert(end.stack.len() == 0);
        assert(end.tokens =~= Seq::<TokenView>::empty());
    } else {
        assert(end.tokens.push(TokenView::StringLiteral(end.stack, end.start)) =~= seq![
            TokenView::StringLiteral(input, Location::at(0, 0)),
        ]);
    }
}

} // verus!

verus! {

pub open spec fn is_brace(c: char) -> bool {
    c == '{' || c == '}'
}

pub open spec fn all_braces(s: Seq<char>) -> bool {
    forall|j: int| 0 <= j < s.len() ==> #[trigger] is_brace(s[j])
}

/// Some braces, then an alphabetic character, then alphabetic characters and
/// underscores. A label read from a block without lone braces has no braces;
/// a lone brace inside a block stays on the stack and starts the next label.
pub open spec fn label_shape(s: Seq<char>) -> bool {
    exists|k: int|
        #![trigger s[k]]
        0 <= k < s.len() && all_braces(s.take(k)) && alphabetic(s[k]) && forall|j: int|
            k <= j < s.len() ==> #[trigger] alphabetic(s[j]) || s[j] == '_'
}

/// Every label among the tokens has the shape of a label.
pub open spec fn labels_ok(ts: Seq<TokenView>) -> bool {
    forall|i: int| 0 <= i < ts.len() && #[trigger] ts[i] is Label ==> label_shape(ts[i]->Label_0)
}

/// The states reached from a code block before a token starts.
pub open spec fn in_block(s: State) -> bool {
    s == State::Block || s == State::OpenBlockFromBlock || s == State::CloseBlockFromBlock
        || s == State::BlockActionInequality || s == State::BlockAssignEquality || s
        == State::BlockAnd || s == State::BlockPipeOr
}

/// What holds between the steps of the lexer: the labels so far have the
/// shape of labels, inside a block the stack holds only the lone braces read
/// since the last token, a label being read has the shape of a label, and a
/// brace state stands over its brace.
pub open spec fn label_inv(s: State, m: Machine) -> bool {
    &&& labels_ok(m.tokens)
    &&& in_block(s) ==> all_braces(m.stack)
    &&& s == State::LabelAction ==> label_shape(m.stack)
    &&& s == State::OpenBlockFromBlock ==> 0 <= m.index < m.chars.len() && m.chars[m.index] == '{'
    &&& s == State::CloseBlockFromBlock ==> 0 <= m.index < m.chars.len() && m.chars[m.index] == '}'
}

proof fn lemma_accept_keeps_labels(m: Machine, t: TokenView)
    requires
        labels_ok(m.tokens),
        t is Label ==> label_shape(t->Label_0),
    ensures
        labels_ok(m.accept(t).tokens),
{
    let ts = m.accept(t).tokens;
    assert forall|i: int| 0 <= i < ts.len() && #[trigger] ts[i] is Label implies label_shape(ts[i]->Label_0) by {
        if i < m.tokens.len() {
            assert(ts[i] == m.tokens[i]);
        }
    }
}

proof fn lemma_step_keeps_labels(s: State, m: Machine)
    requires
        0 <= m.index < m.chars.len(),
        label_inv(s, m),
    ensures
        step(s, m) matches Ok((s2, m2)) ==> label_inv(s2, m2),
{
    let ch = m.peek();
    let m1 = m.push();
    if step(s, m) is Ok {
        let (s2, m2) = step(s, m)->Ok_0;
        // Every token a step accepts is the last one of the new machine
        if m2.tokens.len() > m.tokens.len() {
            assert(m2.tokens.take(m.tokens.len() as int) =~= m.tokens) by {
                lemma_step(s, m);
            }
        }
        if s == State::Block && alphabetic(ch) && !(ch == '{' || ch == '}' || ch == '!' || ch == '='
            || ch == '|' || ch == '&' || ch == ',' || ch == '.' || ch == ':' || ch == '"' || ch == '['
            || ch == ']' || ch == '(' || ch == ')') {
            assert(m1.stack.take(m.stack.len() as int) =~= m.stack);
            assert(m1.stack[m.stack.len() as int] == ch);
            assert(label_shape(m1.stack));
        } else if s == State::LabelAction && (alphabetic(ch) || ch == '_') {
            let k = choose|k: int|
                #![trigger m.stack[k]]
                0 <= k < m.stack.len() && all_braces(m.stack.take(k)) && alphabetic(m.stack[k]) && forall|j: int|
                    k <= j < m.stack.len() ==> #[trigger] alphabetic(m.stack[j]) || m.stack[j] == '_';
            assert(m1.stack.take(k) =~= m.stack.take(k));
            assert(m1.stack[k] == m.stack[k]);
            assert(label_shape(m1.stack));
        } else if s == State::LabelAction && !(ch == '!' && m.lookahead_or_space() != '=') && !numeric(ch) {
            lemma_accept_keeps_labels(m, TokenView::Label(m.stack, m.start));
        } else if s == State::OpenBlockFromBlock && m.lookahead_or_space() != '{' {
            assert(m1.stack =~= m.stack.push('{'));
        } else if s == State::CloseBlockFromBlock && m.lookahead_or_space() != '}' {
            assert(m1.stack =~= m.stack.push('}'));
        }
        if m2.tokens.len() > m.tokens.len() {
            lemma_step(s, m);
            assert forall|i: int| 0 <= i < m2.tokens.len() && #[trigger] m2.tokens[i] is Label implies label_shape(
                m2.tokens[i]->Label_0,
            ) by {
                if i < m.tokens.len() {
                    assert(m2.tokens[i] == m2.tokens.take(m.tokens.len() as int)[i]);
                }
            }
        }
    }
}

} // verus!

verus! {

proof fn lemma_loop_keeps_labels(s: State, m: Machine)
    requires
        label_inv(s, m),
    ensures
        lex_loop(s, m) matches Ok(end) ==> labels_ok(end.tokens),
    decreases super::states::measure(s, m),
{
    if 0 <= m.index < m.chars.len() {
        lemma_step(s, m);
        lemma_step_keeps_labels(s, m);
        if step(s, m) is Ok {
            let (s2, m2) = step(s, m)->Ok_0;
            if m.peek() == '\n' {
                lemma_loop_keeps_labels(s2, m2.newline());
            } else {
                lemma_loop_keeps_labels(s2, m2);
            }
        }
    }
}

/// Every label the lexer reads is an alphabetic character followed by
/// alphabetic characters and underscores, after the lone braces (if any) that
/// stood before it in its block.
pub proof fn lemma_labels_have_label_shape(input: Seq<char>)
    ensures
        spec_run(input) matches Ok(tokens) ==> labels_ok(tokens),
{
    let m = Machine::initial(input);
    assert(labels_ok(m.tokens));
    lemma_loop_keeps_labels(State::Start, m);
    if lex_loop(State::Start, m) is Ok {
        let end = lex_loop(State::Start, m)->Ok_0;
        if !end.empty() {
            lemma_accept_keeps_labels(end, TokenView::StringLiteral(end.stack, end.start));
        }
    }
}

} // verus!

verus! {

/// Every token read so far used up a character of its own: the tokens, and
/// the text on the stack, are no more than the characters read; inside a
/// string literal the opening quote counts for the literal to come.
pub open spec fn count_inv(s: State, m: Machine) -> bool {
    &&& 0 <= m.index
    &&& m.tokens.len() + (if m.stack.len() > 0 || s == State::BlockStringLiteral { 1int } else { 0 }) <= m.index
    &&& (s == State::AcceptOpenBlock || s == State::AcceptCloseBlock) ==> m.stack.len() == 0
    &&& (s == State::LabelAction || s == State::Digit) ==> m.stack.len() > 0
    &&& super::states::state_ok(s, m)
}

proof fn lemma_step_keeps_count(s: State, m: Machine)
    requires
        0 <= m.index < m.chars.len(),
        count_inv(s, m),
    ensures
        step(s, m) matches Ok((s2, m2)) ==> count_inv(s2, m2),
{
}

proof fn lemma_loop_keeps_count(s: State, m: Machine)
    requires
        count_inv(s, m),
        m.index <= m.chars.len(),
    ensures
        lex_loop(s, m) matches Ok(end) ==> super::finish(end).len() <= m.chars.len(),
    decreases super::states::measure(s, m),
{
    if 0 <= m.index < m.chars.len() {
        lemma_step(s, m);
        lemma_step_keeps_count(s, m);
        if step(s, m) is Ok {
            let (s2, m2) = step(s, m)->Ok_0;
            if m.peek() == '\n' {
                lemma_loop_keeps_count(s2, m2.newline());
            } else {
                lemma_loop_keeps_count(s2, m2);
            }
        }
    }
}

/// The lexer reads no more tokens than the template has characters.
pub proof fn lemma_tokens_at_most_chars(input: Seq<char>)
    ensures
        spec_run(input) matches Ok(tokens) ==> tokens.len() <= input.len(),
{
    lemma_loop_keeps_count(State::Start, Machine::initial(input));
}

} // verus!

verus! {

/// `b` starts with the tokens of `a`.
pub open spec fn extends(a: Seq<TokenView>, b: Seq<TokenView>) -> bool {
    a.len() <= b.len() && b.take(a.len() as int) == a
}

proof fn lemma_step_extends(s: State, m: Machine)
    requires
        0 <= m.index < m.chars.len(),
    ensures
        step(s, m) matches Ok((_, m2)) ==> extends(m.tokens, m2.tokens),
{
    if step(s, m) is Ok {
        let m2 = step(s, m)->Ok_0.1;
        assert(m2.tokens.take(m.tokens.len() as int) =~= m.tokens);
    }
}

proof fn lemma_loop_extends(s: State, m: Machine)
    ensures
        lex_loop(s, m) matches Ok(m2) ==> extends(m.tokens, m2.tokens),
    decreases super::states::measure(s, m),
{
    if 0 <= m.index < m.chars.len() {
        lemma_step(s, m);
        lemma_step_extends(s, m);
        if step(s, m) is Ok {
            let (s2, m2) = step(s, m)->Ok_0;
            let m3 = if m.peek() == '\n' {
                m2.newline()
            } else {
                m2
            };
            lemma_loop_extends(s2, m3);
            if lex_loop(s2, m3) is Ok {
                let m4 = lex_loop(s2, m3)->Ok_0;
                assert(m4.tokens.take(m.tokens.len() as int) =~= m4.tokens.take(m3.tokens.len() as int).take(
                    m.tokens.len() as int,
                ));
            }
        }
    } else {
        assert(m.tokens.take(m.tokens.len() as int) =~= m.tokens);
    }
}

/// From the start state, the lexer reads plain text up to position `end`
/// onto the stack, leaving the start of the text where it was.
proof fn lemma_text_loop(m: Machine, end: int) -> (m2: Machine)
    requires
        0 <= m.index <= end < m.chars.len(),
        plain_text(m.chars.take(end + 1)),
        m.stack == m.chars.take(m.index),
    ensures
        lex_loop(State::Start, m) == lex_loop(State::Start, m2),
        m2.index == end,
        m2.chars == m.chars,
        m2.stack == m.chars.take(end),
        m2.tokens == m.tokens,
        m2.start == m.start,
    decreases end - m.index,
{
    if m.index < end {
        let ch = m.peek();
        let m1 = m.push();
        assert(m1.stack == m.chars.take(m1.index));
        assert(m.chars.take(end + 1)[m.index] == m.chars[m.index]);
        assert(m.chars.take(end + 1)[m.index + 1] == m.chars[m.index + 1]);
        if ch == '{' {
            assert(!brace_pair_at(m.chars.take(end + 1), m.index));
            assert(lex_loop(State::OpenBlock, m) == lex_loop(State::Start, m1));
            lemma_text_loop(m1, end)
        } else if ch == '}' {
            assert(!brace_pair_at(m.chars.take(end + 1), m.index));
            assert(lex_loop(State::CloseBlock, m) == lex_loop(State::Start, m1));
            lemma_text_loop(m1, end)
        } else if ch == '\n' {
            lemma_text_loop(m1.newline(), end)
        } else {
            lemma_text_loop(m1, end)
        }
    } else {
        m
    }
}

/// Text before the first code block is kept as it is: when a template starts
/// with text that holds no `{{` or `}}` and then opens a block, the lexer
/// gives that text, whitespace and newlines included, as one string literal
/// at the first line and column, and then the operator that opens the block.
pub proof fn lemma_text_before_block_is_kept(text: Seq<char>, rest: Seq<char>)
    requires
        text.len() > 0,
        plain_text(text.push('{')),
    ensures
        spec_run(text + seq!['{', '{'] + rest) matches Ok(ts) ==> {
            &&& ts.len() >= 2
            &&& ts[0] == TokenView::StringLiteral(text, Location::at(0, 0))
            &&& ts[1] matches TokenView::Operator(op, _) && op == Op::BlockOpen
        },
{
    let input = text + seq!['{', '{'] + rest;
    let n = text.len() as int;
    let m = Machine::initial(input);
    assert(m.stack == m.chars.take(0));
    assert(input.take(n + 1) =~= text.push('{'));
    let m2 = lemma_text_loop(m, n);
    assert(input[n] == '{' && input[n + 1] == '{');
    assert(m2.stack =~= text);
    assert(m2.peek() == '{');
    assert(step(State::Start, m2) == Ok::<(State, Machine), Seq<char>>((State::OpenBlock, m2)));
    lemma_step(State::Start, m2);
    let m3 = flush_text(m2);
    assert(m2.lookahead_or_space() == '{');
    assert(step(State::OpenBlock, m2) == Ok::<(State, Machine), Seq<char>>((State::AcceptOpenBlock, m3)));
    lemma_step(State::OpenBlock, m2);
    let m4 = operator(m3.push().push(), Op::BlockOpen);
    assert(step(State::AcceptOpenBlock, m3) == Ok::<(State, Machine), Seq<char>>((State::Block, m4)));
    lemma_step(State::AcceptOpenBlock, m3);
    assert(lex_loop(State::Start, m2) == lex_loop(State::OpenBlock, m2));
    assert(m3.index == m2.index && m3.chars == m2.chars);
    assert(lex_loop(State::OpenBlock, m2) == lex_loop(State::AcceptOpenBlock, m3));
    assert(m3.peek() == '{');
    assert(lex_loop(State::AcceptOpenBlock, m3) == lex_loop(State::Block, m4));
    assert(m4.tokens == seq![
        TokenView::StringLiteral(text, Location::at(0, 0)),
        TokenView::Operator(Op::BlockOpen, m3.push().push().start),
    ]);
    lemma_loop_extends(State::Block, m4);
    if lex_loop(State::Block, m4) is Ok {
        let end = lex_loop(State::Block, m4)->Ok_0;
        let ts = super::finish(end);
        assert(ts.take(2) == end.tokens.take(2)) by {
            assert(ts.take(2) =~= end.tokens.take(2));
        }
        assert(end.tokens.take(2) == m4.tokens);
        assert(ts[0] == ts.take(2)[0]);
        assert(ts[1] == ts.take(2)[1]);
    }
}

} // verus!

verus! {

/// In a label, every alphabetic character and every underscore is read onto
/// the label: none of them ends it.
proof fn lemma_label_run(m: Machine, k: nat)
    requires
        0 <= m.index,
        m.index + k <= m.chars.len(),
        m.current.column + k <= usize::MAX,
        forall|j: int| m.index <= j < m.index + k ==> alphabetic(#[trigger] m.chars[j]) || m.chars[j] == '_',
    ensures
        lex_loop(State::LabelAction, m) == lex_loop(
            State::LabelAction,
            Machine {
                stack: m.stack + m.chars.subrange(m.index, m.index + k),
                index: m.index + k,
                current: Location::at(m.current.line, (m.current.column + k) as usize),
                ..m
            },
        ),
    decreases k,
{
    if k == 0 {
        assert(m.stack + m.chars.subrange(m.index, m.index) =~= m.stack);
    } else {
        let ch = m.chars[m.index];
        assert(alphabetic(ch) || ch == '_');
        assert(ch != '\n');
        assert(step(State::LabelAction, m) == Ok::<(State, Machine), Seq<char>>((State::LabelAction, m.push())));
        lemma_label_run(m.push(), (k - 1) as nat);
        assert(m.push().stack + m.chars.subrange(m.index + 1, m.index + k) =~= m.stack + m.chars.subrange(
            m.index,
            m.index + k,
        ));
    }
}

/// A block that holds one label: the whole run of alphabetic characters and
/// underscores, whatever their case, is one label token, between the tokens
/// of the block's braces.
pub proof fn lemma_label_is_one_token(w: Seq<char>)
    requires
        w.len() > 0,
        w.len() <= usize::MAX / 16,
        alphabetic(w[0]),
        forall|j: int| 0 <= j < w.len() ==> alphabetic(#[trigger] w[j]) || w[j] == '_',
    ensures
        spec_run(seq!['{', '{', ' '] + w + seq![' ', '}', '}']) == Ok::<Seq<TokenView>, Seq<char>>(
            seq![
                TokenView::Operator(Op::BlockOpen, Location::at(0, 0)),
                TokenView::Label(w, Location::at(0, 3)),
                TokenView::Operator(Op::BlockClose, Location::at(0, (4 + w.len()) as usize)),
            ],
        ),
{
    let n: int = w.len() as int;
    let x = seq!['{', '{', ' '] + w + seq![' ', '}', '}'];
    assert(x.len() == n + 6);
    assert(x[0] == '{' && x[1] == '{' && x[2] == ' ');
    assert(x[3 + n] == ' ' && x[4 + n] == '}' && x[5 + n] == '}');
    assert forall|j: int| 0 <= j < n implies #[trigger] x[3 + j] == w[j] by {}
    let m0 = Machine::initial(x);
    assert(lex_loop(State::Start, m0) == lex_loop(State::OpenBlock, m0));
    assert(flush_text(m0) == m0);
    assert(lex_loop(State::OpenBlock, m0) == lex_loop(State::AcceptOpenBlock, m0));
    let m1 = operator(m0.push().push(), Op::BlockOpen);
    assert(lex_loop(State::AcceptOpenBlock, m0) == lex_loop(State::Block, m1));
    let m2 = m1.skip();
    assert(m1.peek() == ' ');
    assert(!alphabetic(' ') && !numeric(' '));
    assert(lex_loop(State::Block, m1) == lex_loop(State::Block, m2));
    let c0 = w[0];
    assert(m2.peek() == c0);
    assert(c0 != '{' && c0 != '}' && c0 != '!' && c0 != '=' && c0 != '|' && c0 != '&' && c0 != ','
        && c0 != '.' && c0 != ':' && c0 != '"' && c0 != '[' && c0 != ']' && c0 != '(' && c0 != ')'
        && c0 != '\n');
    let m3 = m2.push();
    assert(lex_loop(State::Block, m2) == lex_loop(State::LabelAction, m3));
    assert forall|j: int| m3.index <= j < m3.index + (n - 1) implies alphabetic(#[trigger] m3.chars[j])
        || m3.chars[j] == '_' by {
        assert(x[3 + (j - 3)] == w[j - 3]);
    }
    lemma_label_run(m3, (n - 1) as nat);
    let m4 = Machine {
        stack: m3.stack + m3.chars.subrange(m3.index, m3.index + (n - 1)),
        index: m3.index + (n - 1),
        current: Location::at(m3.current.line, (m3.current.column + (n - 1)) as usize),
        ..m3
    };
    assert(m4.stack =~= w);
    assert(m4.index == 3 + n);
    assert(m4.peek() == ' ');
    let m5 = m4.accept(TokenView::Label(m4.stack, m4.start));
    assert(step(State::LabelAction, m4) == Ok::<(State, Machine), Seq<char>>((State::Block, m5)));
    assert(lex_loop(State::LabelAction, m4) == lex_loop(State::Block, m5));
    let m6 = m5.skip();
    assert(m5.peek() == ' ');
    assert(lex_loop(State::Block, m5) == lex_loop(State::Block, m6));
    assert(m6.peek() == '}');
    assert(lex_loop(State::Block, m6) == lex_loop(State::CloseBlockFromBlock, m6));
    assert(m6.lookahead_or_space() == '}');
    assert(flush_text(m6) == m6);
    assert(lex_loop(State::CloseBlockFromBlock, m6) == lex_loop(State::AcceptCloseBlock, m6));
    let m7 = operator(m6.push().push(), Op::BlockClose);
    assert(lex_loop(State::AcceptCloseBlock, m6) == lex_loop(State::Start, m7));
    assert(m7.index == x.len());
    assert(lex_loop(State::Start, m7) == Ok::<Machine, Seq<char>>(m7));
    assert(m7.tokens =~= seq![
        TokenView::Operator(Op::BlockOpen, Location::at(0, 0)),
        TokenView::Label(w, Location::at(0, 3)),
        TokenView::Operator(Op::BlockClose, Location::at(0, (4 + w.len()) as usize)),
    ]);
}

} // verus!
