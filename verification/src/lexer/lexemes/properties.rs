//! What the lexer that keeps lexemes promises of every template.
use vstd::prelude::*;

use crate::common::Location;
use crate::common::text::{decimal_value, alphabetic, numeric};
use crate::lexer::properties::{all_braces, brace_pair_at, plain_text};
use crate::tokens::{Action, Op};
use super::automata::Machine;
use super::states::{lemma_step, State, step};
use super::tokens::{Lexeme, TokenKind};
use super::{finish, lex_loop, tokenize_from};

verus! {

/// From the start state, the lexer reads plain text onto the stack, leaving
/// the start of the text where it was.
proof fn lemma_plain_loop(m: Machine)
    requires
        plain_text(m.chars),
        0 <= m.index <= m.chars.len(),
        m.stack == m.chars.take(m.index),
        m.tokens.len() == 0,
    ensures
        lex_loop(State::Start, m) is Ok,
        lex_loop(State::Start, m)->Ok_0.stack == m.chars,
        lex_loop(State::Start, m)->Ok_0.tokens.len() == 0,
        lex_loop(State::Start, m)->Ok_0.start == m.start,
    decreases m.chars.len() - m.index,
{
    if m.index < m.chars.len() {
        let ch = m.peek();
        let m1 = m.push();
        assert(m1.stack == m.chars.take(m1.index));
        if ch == '{' {
            assert(step(State::Start, m) == Ok::<(State, Machine), Seq<char>>((State::OpenBlock, m)));
            if m.index + 1 < m.chars.len() {
                assert(!brace_pair_at(m.chars, m.index));
            }
            assert(step(State::OpenBlock, m) == Ok::<(State, Machine), Seq<char>>((State::Start, m1)));
            assert(lex_loop(State::OpenBlock, m) == lex_loop(State::Start, m1));
            lemma_plain_loop(m1);
        } else if ch == '}' {
            assert(step(State::Start, m) == Ok::<(State, Machine), Seq<char>>((State::CloseBlock, m)));
            if m.index + 1 < m.chars.len() {
                assert(!brace_pair_at(m.chars, m.index));
            }
            assert(step(State::CloseBlock, m) == Ok::<(State, Machine), Seq<char>>((State::Start, m1)));
            assert(lex_loop(State::CloseBlock, m) == lex_loop(State::Start, m1));
            lemma_plain_loop(m1);
        } else if ch == '\n' {
            lemma_plain_loop(m1.newline());
        } else {
            lemma_plain_loop(m1);
        }
    } else {
        assert(m.chars.take(m.index) == m.chars);
    }
}

/// Text outside code blocks is kept as it is: a template without `{{` or `}}`
/// is one string literal whose lexeme is the whole template, whitespace and
/// newlines included, starting at the first line and column; an empty
/// template has no tokens.
pub proof fn lemma_plain_text_is_one_lexeme(input: Seq<char>)
    requires
        plain_text(input),
    ensures
        tokenize_from(State::Start, Machine::initial(input)) == Ok::<Seq<Lexeme>, Seq<char>>(
            if input.len() == 0 {
                Seq::empty()
            } else {
                seq![Lexeme { kind: TokenKind::StringLiteral, text: input, location: Location::at(0, 0) }]
            },
        ),
{
    let m = Machine::initial(input);
    assert(m.stack == m.chars.take(0));
    lemma_plain_loop(m);
    let end = lex_loop(State::Start, m)->Ok_0;
    if input.len() == 0 {
        assert(end.stack.len() == 0);
        assert(end.tokens =~= Seq::<Lexeme>::empty());
    } else {
        assert(end.accept(TokenKind::StringLiteral).tokens =~= seq![
            Lexeme { kind: TokenKind::StringLiteral, text: input, location: Location::at(0, 0) },
        ]);
    }
}

} // verus!

verus! {

/// The text of an operator.
pub open spec fn op_symbol(op: Op) -> Seq<char> {
    match op {
        Op::And => seq!['&', '&'],
        Op::Assign => seq!['='],
        Op::BlockClose => seq!['}', '}'],
        Op::BlockClosePrime => seq!['}'],
        Op::BlockOpen => seq!['{', '{'],
        Op::BlockOpenPrime => seq!['{'],
        Op::ClosureOpen => seq!['['],
        Op::ClosureClose => seq![']'],
        Op::Comma => seq![','],
        Op::Dot => seq!['.'],
        Op::Each => seq![':'],
        Op::Equality => seq!['=', '='],
        Op::Inequality => seq!['!', '='],
        Op::Or => seq!['|', '|'],
        Op::ParenOpen => seq!['('],
        Op::ParenClose => seq![')'],
        Op::Pipe => seq!['|'],
    }
}

/// The text of an action.
pub open spec fn action_word(a: Action) -> Seq<char> {
    match a {
        Action::End => seq!['!'],
        Action::Let => "let!"@,
        Action::Render => "render!"@,
        Action::Write => "write!"@,
    }
}

/// Some lone braces followed by `word`.
pub open spec fn braces_then(text: Seq<char>, word: Seq<char>) -> bool {
    &&& text.len() >= word.len()
    &&& all_braces(text.take(text.len() - word.len()))
    &&& text.skip(text.len() - word.len()) == word
}

/// Braces up to position `k`, alphabetic characters from there on.
pub open spec fn alphabetic_from(s: Seq<char>, k: int) -> bool {
    &&& 0 <= k < s.len()
    &&& all_braces(s.take(k))
    &&& forall|j: int| k <= j < s.len() ==> #[trigger] alphabetic(s[j])
}

/// Some braces, then alphabetic characters, at least one.
pub open spec fn alphabetic_label_shape(s: Seq<char>) -> bool {
    exists|k: int| alphabetic_from(s, k)
}

/// A lexeme is the text of its token: the digits of a number, the characters
/// of a label, the symbol of an operator or the word of an action, after the
/// lone braces (if any) that stood before it in its block.
pub open spec fn lexeme_ok(l: Lexeme) -> bool {
    match l.kind {
        TokenKind::StringLiteral => true,
        TokenKind::NumberLiteral(n) => decimal_value(l.text) == Some(n as nat),
        TokenKind::Label => alphabetic_label_shape(l.text),
        TokenKind::Operator(op) => braces_then(l.text, op_symbol(op)),
        TokenKind::Action(a) => if a == Action::End {
            braces_then(l.text, action_word(a))
        } else {
            l.text == action_word(a)
        },
    }
}

pub open spec fn lexemes_ok(ts: Seq<Lexeme>) -> bool {
    forall|i: int| 0 <= i < ts.len() ==> lexeme_ok(#[trigger] ts[i])
}

/// The character under the machine, if any.
pub open spec fn at(m: Machine, c: char) -> bool {
    0 <= m.index < m.chars.len() && m.chars[m.index] == c
}

/// What holds between the steps of the lexer.
pub open spec fn lexeme_inv(s: State, m: Machine) -> bool {
    &&& lexemes_ok(m.tokens)
    &&& (s == State::Block || s == State::OpenBlockFromBlock || s == State::CloseBlockFromBlock || s
        == State::BlockActionInequality || s == State::BlockAssignEquality || s == State::BlockAnd || s
        == State::BlockPipeOr) ==> all_braces(m.stack)
    &&& s == State::Label ==> alphabetic_label_shape(m.stack)
    &&& (s == State::OpenBlock || s == State::OpenBlockFromBlock) ==> at(m, '{')
    &&& (s == State::CloseBlock || s == State::CloseBlockFromBlock) ==> at(m, '}')
    &&& s == State::BlockActionInequality ==> at(m, '!')
    &&& s == State::BlockAssignEquality ==> at(m, '=')
    &&& s == State::BlockAnd ==> at(m, '&')
    &&& s == State::BlockPipeOr ==> at(m, '|')
    &&& s == State::AcceptOpenBlock ==> m.stack.len() == 0 && at(m, '{') && m.index + 1 < m.chars.len()
        && m.chars[m.index + 1] == '{'
    &&& s == State::AcceptCloseBlock ==> m.stack.len() == 0 && at(m, '}') && m.index + 1 < m.chars.len()
        && m.chars[m.index + 1] == '}'
}

proof fn lemma_accept_keeps_lexemes(m: Machine, kind: TokenKind)
    requires
        lexemes_ok(m.tokens),
        lexeme_ok(Lexeme { kind, text: m.stack, location: m.start }),
    ensures
        lexemes_ok(m.accept(kind).tokens),
{
    let ts = m.accept(kind).tokens;
    assert forall|i: int| 0 <= i < ts.len() implies lexeme_ok(#[trigger] ts[i]) by {
        if i < m.tokens.len() {
            assert(ts[i] == m.tokens[i]);
        }
    }
}

/// Pushing the current character onto a stack of lone braces, then the next
/// one if `two`, leaves the braces followed by those characters.
proof fn lemma_push_word(m: Machine, two: bool)
    requires
        0 <= m.index,
        m.index + (if two { 1int } else { 0 }) < m.chars.len(),
        all_braces(m.stack),
    ensures
        !two ==> braces_then(m.push().stack, seq![m.chars[m.index]]),
        two ==> braces_then(m.push().push().stack, seq![m.chars[m.index], m.chars[m.index + 1]]),
{
    if two {
        let t = m.push().push().stack;
        assert(t.take(t.len() - 2) =~= m.stack);
        assert(t.skip(t.len() - 2) =~= seq![m.chars[m.index], m.chars[m.index + 1]]);
    } else {
        let t = m.push().stack;
        assert(t.take(t.len() - 1) =~= m.stack);
        assert(t.skip(t.len() - 1) =~= seq![m.chars[m.index]]);
    }
}

} // verus!

verus! {

/// Accepting an operator read from lone braces and `word` keeps the lexemes
/// right.
proof fn lemma_accept_operator(m: Machine, op: Op)
    requires
        lexemes_ok(m.tokens),
        braces_then(m.stack, op_symbol(op)),
    ensures
        lexemes_ok(m.accept(TokenKind::Operator(op)).tokens),
{
    lemma_accept_keeps_lexemes(m, TokenKind::Operator(op));
}

proof fn lemma_block_step(m: Machine)
    requires
        0 <= m.index < m.chars.len(),
        lexeme_inv(State::Block, m),
    ensures
        step(State::Block, m) matches Ok((s2, m2)) ==> lexeme_inv(s2, m2),
{
    let ch = m.peek();
    if ch == ',' || ch == '.' || ch == ':' || ch == '[' || ch == ']' {
        lemma_push_word(m, false);
        let op = if ch == ',' {
            Op::Comma
        } else if ch == '.' {
            Op::Dot
        } else if ch == ':' {
            Op::Each
        } else if ch == '[' {
            Op::ClosureOpen
        } else {
            Op::ClosureClose
        };
        assert(seq![ch] == op_symbol(op));
        lemma_accept_operator(m.push(), op);
    } else if !(ch == '{' || ch == '}' || ch == '!' || ch == '=' || ch == '|' || ch == '&' || ch == '"')
        && alphabetic(ch) {
        let t = m.push().stack;
        let k = m.stack.len() as int;
        assert(t.take(k) =~= m.stack);
        assert(t[k] == ch);
        assert(alphabetic_from(t, k));
    }
}

proof fn lemma_label_grows(m: Machine)
    requires
        0 <= m.index < m.chars.len(),
        alphabetic_label_shape(m.stack),
        alphabetic(m.peek()),
    ensures
        alphabetic_label_shape(m.push().stack),
{
    let s = m.stack;
    let t = m.push().stack;
    let k = choose|k: int| alphabetic_from(s, k);
    assert(t.take(k) =~= s.take(k));
    assert forall|j: int| k <= j < t.len() implies #[trigger] alphabetic(t[j]) by {
        if j < s.len() {
            assert(t[j] == s[j]);
        }
    }
    assert(alphabetic_from(t, k));
}

proof fn lemma_label_step(m: Machine)
    requires
        0 <= m.index < m.chars.len(),
        lexeme_inv(State::Label, m),
    ensures
        step(State::Label, m) matches Ok((s2, m2)) ==> lexeme_inv(s2, m2),
{
    let ch = m.peek();
    let m1 = m.push();
    if alphabetic(ch) {
        lemma_label_grows(m);
        assert(step(State::Label, m) == Ok::<(State, Machine), Seq<char>>((State::Label, m1)));
    } else if ch == '!' && m.lookahead_or_space() != '=' {
        match crate::lexer::states::action_named(m1.stack) {
            Some(a) => {
                assert(a != Action::End);
                lemma_accept_keeps_lexemes(m1, TokenKind::Action(a));
                assert(step(State::Label, m) == Ok::<(State, Machine), Seq<char>>(
                    (State::Block, m1.accept(TokenKind::Action(a))),
                ));
            },
            None => {},
        }
    } else if !numeric(ch) {
        lemma_accept_keeps_lexemes(m, TokenKind::Label);
        assert(step(State::Label, m) == Ok::<(State, Machine), Seq<char>>(
            (State::Block, m.accept(TokenKind::Label)),
        ));
    }
}

proof fn lemma_step_keeps_lexemes(s: State, m: Machine)
    requires
        0 <= m.index < m.chars.len(),
        lexeme_inv(s, m),
    ensures
        step(s, m) matches Ok((s2, m2)) ==> lexeme_inv(s2, m2),
{
    let ch = m.peek();
    let la = m.lookahead_or_space();
    let m1 = m.push();
    match s {
        State::Block => lemma_block_step(m),
        State::Label => lemma_label_step(m),
        State::OpenBlock | State::CloseBlock | State::OpenBlockFromBlock | State::CloseBlockFromBlock => {
            if !m.empty() {
                lemma_accept_keeps_lexemes(m, TokenKind::StringLiteral);
            }
            if s == State::OpenBlockFromBlock || s == State::CloseBlockFromBlock {
                assert(m1.stack =~= m.stack.push(ch));
            }
        },
        State::AcceptOpenBlock | State::AcceptCloseBlock => {
            lemma_push_word(m, true);
            let op = if s == State::AcceptOpenBlock { Op::BlockOpen } else { Op::BlockClose };
            assert(seq![m.chars[m.index], m.chars[m.index + 1]] == op_symbol(op));
            lemma_accept_operator(m.push().push(), op);
        },
        State::BlockActionInequality | State::BlockAssignEquality | State::BlockAnd | State::BlockPipeOr => {
            let two = (s == State::BlockActionInequality && la == '=') || (s == State::BlockAssignEquality
                && la == '=') || (s == State::BlockAnd && la == '&') || (s == State::BlockPipeOr && la == '|');
            if two {
                lemma_push_word(m, true);
                let op = if s == State::BlockActionInequality {
                    Op::Inequality
                } else if s == State::BlockAssignEquality {
                    Op::Equality
                } else if s == State::BlockAnd {
                    Op::And
                } else {
                    Op::Or
                };
                assert(seq![m.chars[m.index], m.chars[m.index + 1]] == op_symbol(op));
                lemma_accept_operator(m.push().push(), op);
            } else if s != State::BlockAnd {
                lemma_push_word(m, false);
                if s == State::BlockActionInequality {
                    assert(seq![ch] == action_word(Action::End));
                    lemma_accept_keeps_lexemes(m1, TokenKind::Action(Action::End));
                } else {
                    let op = if s == State::BlockAssignEquality { Op::Assign } else { Op::Pipe };
                    assert(seq![ch] == op_symbol(op));
                    lemma_accept_operator(m1, op);
                }
            }
        },
        State::BlockStringLiteral => {
            if ch == '"' {
                lemma_accept_keeps_lexemes(m.skip_current(), TokenKind::StringLiteral);
            }
        },
        State::Digit => {
            if !numeric(ch) && !alphabetic(ch) {
                match decimal_value(m.stack) {
                    Some(n) => if n <= usize::MAX {
                        lemma_accept_keeps_lexemes(m, TokenKind::NumberLiteral(n as usize));
                    },
                    None => {},
                }
            }
        },
        State::Start => {},
    }
}

proof fn lemma_loop_keeps_lexemes(s: State, m: Machine)
    requires
        lexeme_inv(s, m),
    ensures
        lex_loop(s, m) matches Ok(end) ==> lexemes_ok(finish(end)),
    decreases super::states::measure(s, m),
{
    if 0 <= m.index < m.chars.len() {
        lemma_step(s, m);
        lemma_step_keeps_lexemes(s, m);
        if step(s, m) is Ok {
            let (s2, m2) = step(s, m)->Ok_0;
            if m.peek() == '\n' {
                lemma_loop_keeps_lexemes(s2, m2.newline());
            } else {
                lemma_loop_keeps_lexemes(s2, m2);
            }
        }
    } else if !m.empty() {
        lemma_accept_keeps_lexemes(m, TokenKind::StringLiteral);
    }
}

/// Every token keeps the text it was read from: the lexeme of a number holds
/// its digits, that of a label alphabetic characters, that of an operator its
/// symbol and that of an action its word, each after the lone braces (if any)
/// that stood before it in its block.
pub proof fn lemma_lexemes_are_token_text(input: Seq<char>)
    ensures
        tokenize_from(State::Start, Machine::initial(input)) matches Ok(tokens) ==> lexemes_ok(tokens),
{
    let m = Machine::initial(input);
    assert(lexemes_ok(m.tokens));
    lemma_loop_keeps_lexemes(State::Start, m);
}

} // verus!

verus! {

/// In a label, every alphabetic character is read onto the label: none of
/// them ends it.
proof fn lemma_label_run(m: Machine, k: nat)
    requires
        0 <= m.index,
        m.index + k <= m.chars.len(),
        m.current.column + k <= usize::MAX,
        forall|j: int| m.index <= j < m.index + k ==> alphabetic(#[trigger] m.chars[j]),
    ensures
        lex_loop(State::Label, m) == lex_loop(
            State::Label,
            Machine {
                stack: m.stack + m.chars.subrange(m.index, m.index + k),
                index: m.index + k,
                current: Location::at(m.current.line, (m.current.column + k) as usize),
                ..m
            },
        ),
    decreases k,
{
    if k == 0 {
        assert(m.stack + m.chars.subrange(m.index, m.index) =~= m.stack);
    } else {
        let ch = m.chars[m.index];
        assert(alphabetic(ch));
        assert(ch != '\n');
        assert(step(State::Label, m) == Ok::<(State, Machine), Seq<char>>((State::Label, m.push())));
        lemma_label_run(m.push(), (k - 1) as nat);
        assert(m.push().stack + m.chars.subrange(m.index + 1, m.index + k) =~= m.stack + m.chars.subrange(
            m.index,
            m.index + k,
        ));
    }
}

/// A block that holds one label: the whole run of alphabetic characters,
/// whatever their case, is one label lexeme, between the lexemes of the
/// block's braces.
pub proof fn lemma_label_is_one_lexeme(w: Seq<char>)
    requires
        w.len() > 0,
        w.len() <= usize::MAX / 16,
        forall|j: int| 0 <= j < w.len() ==> alphabetic(#[trigger] w[j]),
    ensures
        tokenize_from(State::Start, Machine::initial(seq!['{', '{', ' '] + w + seq![' ', '}', '}'])) == Ok::<
            Seq<Lexeme>,
            Seq<char>,
        >(
            seq![
                Lexeme { kind: TokenKind::Operator(Op::BlockOpen), text: seq!['{', '{'], location: Location::at(0, 0) },
                Lexeme { kind: TokenKind::Label, text: w, location: Location::at(0, 3) },
                Lexeme {
                    kind: TokenKind::Operator(Op::BlockClose),
                    text: seq!['}', '}'],
                    location: Location::at(0, (4 + w.len()) as usize),
                },
            ],
        ),
{
    let n: int = w.len() as int;
    let x = seq!['{', '{', ' '] + w + seq![' ', '}', '}'];
    assert(x.len() == n + 6);
    assert(x[0] == '{' && x[1] == '{' && x[2] == ' ');
    assert(x[3 + n] == ' ' && x[4 + n] == '}' && x[5 + n] == '}');
    assert forall|j: int| 0 <= j < n implies #[trigger] x[3 + j] == w[j] by {}
    let m0 = Machine::initial(x);
    assert(lex_loop(State::Start, m0) == lex_loop(State::OpenBlock, m0));
    assert(super::states::flush_text(m0) == m0);
    assert(lex_loop(State::OpenBlock, m0) == lex_loop(State::AcceptOpenBlock, m0));
    let m1 = super::states::operator(m0.push().push(), Op::BlockOpen);
    assert(lex_loop(State::AcceptOpenBlock, m0) == lex_loop(State::Block, m1));
    let m2 = m1.skip();
    assert(m1.peek() == ' ');
    assert(!alphabetic(' ') && !numeric(' '));
    assert(lex_loop(State::Block, m1) == lex_loop(State::Block, m2));
    let c0 = w[0];
    assert(m2.peek() == c0);
    assert(c0 != '{' && c0 != '}' && c0 != '!' && c0 != '=' && c0 != '|' && c0 != '&' && c0 != ','
        && c0 != '.' && c0 != ':' && c0 != '"' && c0 != '[' && c0 != ']' && c0 != '\n');
    let m3 = m2.push();
    assert(lex_loop(State::Block, m2) == lex_loop(State::Label, m3));
    assert forall|j: int| m3.index <= j < m3.index + (n - 1) implies alphabetic(#[trigger] m3.chars[j]) by {
        assert(x[3 + (j - 3)] == w[j - 3]);
    }
    lemma_label_run(m3, (n - 1) as nat);
    let m4 = Machine {
        stack: m3.stack + m3.chars.subrange(m3.index, m3.index + (n - 1)),
        index: m3.index + (n - 1),
        current: Location::at(m3.current.line, (m3.current.column + (n - 1)) as usize),
        ..m3
    };
    assert(m4.stack =~= w);
    assert(m4.index == 3 + n);
    assert(m4.peek() == ' ');
    let m5 = m4.accept(TokenKind::Label);
    assert(step(State::Label, m4) == Ok::<(State, Machine), Seq<char>>((State::Block, m5)));
    assert(lex_loop(State::Label, m4) == lex_loop(State::Block, m5));
    let m6 = m5.skip();
    assert(m5.peek() == ' ');
    assert(lex_loop(State::Block, m5) == lex_loop(State::Block, m6));
    assert(m6.peek() == '}');
    assert(lex_loop(State::Block, m6) == lex_loop(State::CloseBlockFromBlock, m6));
    assert(m6.lookahead_or_space() == '}');
    assert(super::states::flush_text(m6) == m6);
    assert(lex_loop(State::CloseBlockFromBlock, m6) == lex_loop(State::AcceptCloseBlock, m6));
    let m7 = super::states::operator(m6.push().push(), Op::BlockClose);
    assert(lex_loop(State::AcceptCloseBlock, m6) == lex_loop(State::Start, m7));
    assert(m7.index == x.len());
    assert(lex_loop(State::Start, m7) == Ok::<Machine, Seq<char>>(m7));
    assert(m0.push().push().stack =~= seq!['{', '{']);
    assert(m6.push().push().stack =~= seq!['}', '}']);
    assert(m7.tokens =~= seq![
        Lexeme { kind: TokenKind::Operator(Op::BlockOpen), text: seq!['{', '{'], location: Location::at(0, 0) },
        Lexeme { kind: TokenKind::Label, text: w, location: Location::at(0, 3) },
        Lexeme {
            kind: TokenKind::Operator(Op::BlockClose),
            text: seq!['}', '}'],
            location: Location::at(0, (4 + w.len()) as usize),
        },
    ]);
}

} // verus!
