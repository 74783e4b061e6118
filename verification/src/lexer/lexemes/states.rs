//! The states of the lexer that keeps lexemes. Each state looks at the
//! machine, moves it along and names the state to run next; `step` says what
//! each state does.
use vstd::prelude::*;

use crate::common::text::{
    char_is_alphabetic, char_is_numeric, char_is_whitespace, decimal_value, alphabetic,
    numeric, is_whitespace, parse_decimal, push_char, push_decimal, push_str, str_eq,
};
use crate::lexer::automata::located_error;
use crate::lexer::states::{
    action_named, escape_at_end_msg, label_digit_msg, number_letter_msg, number_range_msg,
    single_and_msg, unknown_character_msg,
};
use crate::tokens::{Action, Op};
use super::automata::{Machine, StackMachine};
use super::tokens::TokenKind;

verus! {

#[derive(Debug, PartialEq, Eq, Clone, Copy, Structural)]
pub enum State {
    Start,
    OpenBlock,
    CloseBlock,
    AcceptOpenBlock,
    AcceptCloseBlock,
    Block,
    OpenBlockFromBlock,
    CloseBlockFromBlock,
    BlockActionInequality,
    BlockAssignEquality,
    BlockStringLiteral,
    BlockAnd,
    BlockPipeOr,
    Label,
    Digit,
}

/// What a step of the lexer leads to: the next state and the machine, or an
/// error message.
pub type Step = Result<(State, Machine), Seq<char>>;

/// An error message: `msg` followed, when the machine is still inside the
/// input, by the location and the line where it stopped.
pub open spec fn report(m: Machine, msg: Seq<char>, underline: Seq<char>) -> Seq<char> {
    if m.eof() {
        msg
    } else {
        located_error(msg, m.chars, m.index, m.current, underline)
    }
}

pub open spec fn unknown_action_msg(stack: Seq<char>) -> Seq<char> {
    "Lexer<LABEL>: The expected action does not match a defined action - found: '"@ + stack + "' "@
}

/// Accepts the characters on the stack as a string literal, unless the stack is
/// empty.
pub open spec fn flush_text(m: Machine) -> Machine {
    if m.empty() {
        m
    } else {
        m.accept(TokenKind::StringLiteral)
    }
}

pub open spec fn operator(m: Machine, op: Op) -> Machine {
    m.accept(TokenKind::Operator(op))
}

/// One step of the lexer in state `s`.
pub open spec fn step(s: State, m: Machine) -> Step {
    let ch = m.peek();
    let la = m.lookahead_or_space();
    match s {
        State::Start => {
            if ch == '{' {
                Ok((State::OpenBlock, m))
            } else if ch == '}' {
                Ok((State::CloseBlock, m))
            } else {
                Ok((State::Start, m.push()))
            }
        },
        State::OpenBlock => {
            if la == '{' {
                Ok((State::AcceptOpenBlock, flush_text(m)))
            } else {
                Ok((State::Start, m.push()))
            }
        },
        State::CloseBlock => {
            if la == '}' {
                Ok((State::AcceptCloseBlock, flush_text(m)))
            } else {
                Ok((State::Start, m.push()))
            }
        },
        State::AcceptOpenBlock => Ok((State::Block, operator(m.push().push(), Op::BlockOpen))),
        State::AcceptCloseBlock => Ok((State::Start, operator(m.push().push(), Op::BlockClose))),
        State::Block => {
            if ch == '{' {
                Ok((State::OpenBlockFromBlock, m))
            } else if ch == '}' {
                Ok((State::CloseBlockFromBlock, m))
            } else if ch == '!' {
                Ok((State::BlockActionInequality, m))
            } else if ch == '=' {
                Ok((State::BlockAssignEquality, m))
            } else if ch == '|' {
                Ok((State::BlockPipeOr, m))
            } else if ch == '&' {
                Ok((State::BlockAnd, m))
            } else if ch == ',' {
                Ok((State::Block, operator(m.push(), Op::Comma)))
            } else if ch == '.' {
                Ok((State::Block, operator(m.push(), Op::Dot)))
            } else if ch == ':' {
                Ok((State::Block, operator(m.push(), Op::Each)))
            } else if ch == '"' {
                Ok((State::BlockStringLiteral, m.skip_current()))
            } else if ch == '[' {
                Ok((State::Block, operator(m.push(), Op::ClosureOpen)))
            } else if ch == ']' {
                Ok((State::Block, operator(m.push(), Op::ClosureClose)))
            } else if alphabetic(ch) {
                Ok((State::Label, m.push()))
            } else if numeric(ch) {
                Ok((State::Digit, m.push()))
            } else if is_whitespace(ch) {
                Ok((State::Block, m.skip()))
            } else {
                Err(report(m, unknown_character_msg(ch), "unknown character"@))
            }
        },
        State::OpenBlockFromBlock => {
            if la == '{' {
                Ok((State::AcceptOpenBlock, flush_text(m)))
            } else {
                Ok((State::Block, m.push()))
            }
        },
        State::CloseBlockFromBlock => {
            if la == '}' {
                Ok((State::AcceptCloseBlock, flush_text(m)))
            } else {
                Ok((State::Block, m.push()))
            }
        },
        State::BlockActionInequality => {
            if la == '=' {
                Ok((State::Block, operator(m.push().push(), Op::Inequality)))
            } else {
                Ok((State::Block, m.push().accept(TokenKind::Action(Action::End))))
            }
        },
        State::BlockAssignEquality => {
            if la == '=' {
                Ok((State::Block, operator(m.push().push(), Op::Equality)))
            } else {
                Ok((State::Block, operator(m.push(), Op::Assign)))
            }
        },
        State::BlockStringLiteral => {
            if ch == '"' {
                Ok((State::Block, m.skip_current().accept(TokenKind::StringLiteral)))
            } else if ch == '\\' {
                let m1 = m.skip_current();
                if m1.eof() {
                    Err(report(m1, escape_at_end_msg(), "expected a character"@))
                } else {
                    Ok((State::BlockStringLiteral, m1.push()))
                }
            } else {
                Ok((State::BlockStringLiteral, m.push()))
            }
        },
        State::BlockAnd => {
            if la == '&' {
                Ok((State::Block, operator(m.push().push(), Op::And)))
            } else {
                Err(report(m, single_and_msg(), "expected '&&'"@))
            }
        },
        State::BlockPipeOr => {
            if la == '|' {
                Ok((State::Block, operator(m.push().push(), Op::Or)))
            } else {
                Ok((State::Block, operator(m.push(), Op::Pipe)))
            }
        },
        State::Label => {
            if alphabetic(ch) {
                Ok((State::Label, m.push()))
            } else if ch == '!' && la != '=' {
                let m1 = m.push();
                match action_named(m1.stack) {
                    Some(a) => Ok((State::Block, m1.accept(TokenKind::Action(a)))),
                    None => Err(
                        report(
                            m1,
                            unknown_action_msg(m1.stack),
                            "expected one of the following defined actions: let!, write!, render!, or !."@,
                        ),
                    ),
                }
            } else if numeric(ch) {
                Err(report(m, label_digit_msg(ch, m.stack), "expected alphabetic character"@))
            } else {
                Ok((State::Block, m.accept(TokenKind::Label)))
            }
        },
        State::Digit => {
            if numeric(ch) {
                Ok((State::Digit, m.push()))
            } else if alphabetic(ch) {
                Err(report(m, number_letter_msg(ch, m.stack), "expected digit"@))
            } else {
                match decimal_value(m.stack) {
                    Some(n) if n <= usize::MAX => Ok(
                        (State::Block, m.accept(TokenKind::NumberLiteral(n as usize))),
                    ),
                    _ => Err(report(m, number_range_msg(m.stack), "expected a smaller number"@)),
                }
            }
        },
    }
}

/// A state in which the machine may stand over the given input: the two
/// accepting states need the two characters of the brace pair.
pub open spec fn state_ok(s: State, m: Machine) -> bool {
    (s == State::AcceptOpenBlock || s == State::AcceptCloseBlock) ==> m.index + 1 < m.chars.len()
}

pub open spec fn rank(s: State) -> nat {
    match s {
        State::AcceptOpenBlock | State::AcceptCloseBlock => 0,
        State::OpenBlock | State::CloseBlock | State::OpenBlockFromBlock
        | State::CloseBlockFromBlock | State::BlockActionInequality
        | State::BlockAssignEquality | State::BlockAnd | State::BlockPipeOr => 1,
        State::Start | State::Block | State::BlockStringLiteral => 2,
        State::Label | State::Digit => 3,
    }
}

/// Decreases with every step: a step reads at least one character, or moves
/// to a state of lower rank.
pub open spec fn measure(s: State, m: Machine) -> nat {
    if 0 <= m.index <= m.chars.len() {
        ((m.chars.len() - m.index) * 4 + rank(s)) as nat
    } else {
        0
    }
}

/// The result of running a state against what `step` says.
pub open spec fn outcome(r: Result<State, String>, expected: Step, after: Machine) -> bool {
    match expected {
        Ok((s, m)) => r == Ok::<State, String>(s) && after == m,
        Err(e) => r is Err && r->Err_0@ == e,
    }
}

/// A step reads on and keeps the machine within its limits; it adds at most
/// one token, and leaves the line where it was.
pub proof fn lemma_step(s: State, m: Machine)
    requires
        0 <= m.index < m.chars.len(),
    ensures
        step(s, m) matches Ok((s2, m2)) ==> {
            &&& m2.chars == m.chars
            &&& measure(s2, m2) < measure(s, m)
            &&& measure(s2, m2.newline()) < measure(s, m)
            &&& m2.current.line == m.current.line
            &&& m.tokens.len() <= m2.tokens.len() <= m.tokens.len() + 1
            &&& m2.tokens.take(m.tokens.len() as int) == m.tokens
            &&& (m.bounded() && state_ok(s, m)) ==> m2.bounded() && state_ok(s2, m2)
        },
{
    if step(s, m) is Ok {
        assert(step(s, m)->Ok_0.1.tokens.take(m.tokens.len() as int) =~= m.tokens);
    }
}

impl State {
    pub fn new() -> (s: State)
        ensures
            s == State::Start,
    {
        State::Start
    }

    /// Runs one step of the lexer.
    pub fn run(&self, stack: &mut StackMachine) -> (r: Result<State, String>)
        requires
            old(stack)@.bounded(),
            !old(stack)@.eof(),
            state_ok(*self, old(stack)@),
        ensures
            outcome(r, step(*self, old(stack)@), final(stack)@),
    {
        match self {
            State::Start => state_start(stack),
            State::OpenBlock => state_open_block(stack, State::Start),
            State::CloseBlock => state_close_block(stack, State::Start),
            State::AcceptOpenBlock => double_operator(stack, Op::BlockOpen, State::Block),
            State::AcceptCloseBlock => double_operator(stack, Op::BlockClose, State::Start),
            State::Block => state_block(stack),
            State::OpenBlockFromBlock => state_open_block(stack, State::Block),
            State::CloseBlockFromBlock => state_close_block(stack, State::Block),
            State::BlockActionInequality => state_block_action_inequality(stack),
            State::BlockAssignEquality => state_block_assign_equality(stack),
            State::BlockStringLiteral => state_block_string_literal(stack),
            State::BlockAnd => state_block_and(stack),
            State::BlockPipeOr => state_block_pipe_or(stack),
            State::Label => state_label(stack),
            State::Digit => state_digit(stack),
        }
    }

    /// `msg`, followed, while the machine is inside the input, by the location
    /// and the line of the input where it stopped.
    pub fn get_error_msg(stack: &mut StackMachine, msg: &str, underline_msg: &str) -> (s: String)
        requires
            old(stack)@.bounded(),
        ensures
            final(stack)@ == old(stack)@,
            s@ == report(old(stack)@, msg@, underline_msg@),
    {
        let mut s = String::new();
        push_str(&mut s, msg);
        if stack.eof() {
            return s;
        }
        let (loc, line) = stack.debug_line(underline_msg);
        push_str(&mut s, " On line [");
        push_decimal(&mut s, loc.line());
        push_str(&mut s, "; ");
        push_decimal(&mut s, loc.column());
        push_str(&mut s, "]:\n\t");
        push_str(&mut s, line.as_str());
        assert(s@ =~= report(stack@, msg@, underline_msg@));
        s
    }
}

fn lookahead_or_space(stack: &StackMachine) -> (c: char)
    requires
        0 <= stack@.index,
    ensures
        c == stack@.lookahead_or_space(),
{
    match stack.lookahead() {
        Some(c) => *c,
        None => ' ',
    }
}

fn state_start(stack: &mut StackMachine) -> (r: Result<State, String>)
    requires
        old(stack)@.bounded(),
        !old(stack)@.eof(),
    ensures
        outcome(r, step(State::Start, old(stack)@), final(stack)@),
{
    let ch = stack.peek();
    if ch == '{' {
        Ok(State::OpenBlock)
    } else if ch == '}' {
        Ok(State::CloseBlock)
    } else {
        stack.push();
        Ok(State::Start)
    }
}

/// `{` outside a block, or inside one when `back` is `State::Block`.
fn state_open_block(stack: &mut StackMachine, back: State) -> (r: Result<State, String>)
    requires
        old(stack)@.bounded(),
        !old(stack)@.eof(),
        back == State::Start || back == State::Block,
    ensures
        outcome(
            r,
            step(
                if back == State::Start {
                    State::OpenBlock
                } else {
                    State::OpenBlockFromBlock
                },
                old(stack)@,
            ),
            final(stack)@,
        ),
{
    if lookahead_or_space(stack) == '{' {
        // The text read so far ends where the block starts
        if !stack.empty() {
            stack.accept_token(TokenKind::StringLiteral);
        }
        Ok(State::AcceptOpenBlock)
    } else {
        stack.push();
        Ok(back)
    }
}

/// `}` outside a block, or inside one when `back` is `State::Block`.
fn state_close_block(stack: &mut StackMachine, back: State) -> (r: Result<State, String>)
    requires
        old(stack)@.bounded(),
        !old(stack)@.eof(),
        back == State::Start || back == State::Block,
    ensures
        outcome(
            r,
            step(
                if back == State::Start {
                    State::CloseBlock
                } else {
                    State::CloseBlockFromBlock
                },
                old(stack)@,
            ),
            final(stack)@,
        ),
{
    if lookahead_or_space(stack) == '}' {
        // The text read so far ends where the block closes
        if !stack.empty() {
            stack.accept_token(TokenKind::StringLiteral);
        }
        Ok(State::AcceptCloseBlock)
    } else {
        stack.push();
        Ok(back)
    }
}

fn single_operator(stack: &mut StackMachine, op: Op) -> (r: Result<State, String>)
    requires
        old(stack)@.bounded(),
        !old(stack)@.eof(),
    ensures
        r == Ok::<State, String>(State::Block),
        final(stack)@ == operator(old(stack)@.push(), op),
{
    stack.push();
    stack.accept_token(TokenKind::Operator(op));
    Ok(State::Block)
}

fn double_operator(stack: &mut StackMachine, op: Op, next: State) -> (r: Result<State, String>)
    requires
        old(stack)@.bounded(),
        old(stack)@.index + 1 < old(stack)@.chars.len(),
    ensures
        r == Ok::<State, String>(next),
        final(stack)@ == operator(old(stack)@.push().push(), op),
{
    stack.push();
    stack.push();
    stack.accept_token(TokenKind::Operator(op));
    Ok(next)
}

fn state_block(stack: &mut StackMachine) -> (r: Result<State, String>)
    requires
        old(stack)@.bounded(),
        !old(stack)@.eof(),
    ensures
        outcome(r, step(State::Block, old(stack)@), final(stack)@),
{
    let ch = stack.peek();
    if ch == '{' {
        Ok(State::OpenBlockFromBlock)
    } else if ch == '}' {
        Ok(State::CloseBlockFromBlock)
    } else if ch == '!' {
        Ok(State::BlockActionInequality)
    } else if ch == '=' {
        Ok(State::BlockAssignEquality)
    } else if ch == '|' {
        Ok(State::BlockPipeOr)
    } else if ch == '&' {
        Ok(State::BlockAnd)
    } else if ch == ',' {
        single_operator(stack, Op::Comma)
    } else if ch == '.' {
        single_operator(stack, Op::Dot)
    } else if ch == ':' {
        single_operator(stack, Op::Each)
    } else if ch == '"' {
        stack.skip_current();
        Ok(State::BlockStringLiteral)
    } else if ch == '[' {
        single_operator(stack, Op::ClosureOpen)
    } else if ch == ']' {
        single_operator(stack, Op::ClosureClose)
    } else if char_is_alphabetic(ch) {
        stack.push();
        Ok(State::Label)
    } else if char_is_numeric(ch) {
        stack.push();
        Ok(State::Digit)
    } else if char_is_whitespace(ch) {
        stack.skip();
        Ok(State::Block)
    } else {
        let mut msg = String::new();
        push_str(&mut msg, "Lexer<BLOCK>: Encountered unknown character '");
        push_char(&mut msg, ch);
        push_str(&mut msg, "'.");
        assert(msg@ =~= unknown_character_msg(ch));
        Err(State::get_error_msg(stack, msg.as_str(), "unknown character"))
    }
}

fn state_block_action_inequality(stack: &mut StackMachine) -> (r: Result<State, String>)
    requires
        old(stack)@.bounded(),
        !old(stack)@.eof(),
    ensures
        outcome(r, step(State::BlockActionInequality, old(stack)@), final(stack)@),
{
    if lookahead_or_space(stack) == '=' {
        double_operator(stack, Op::Inequality, State::Block)
    } else {
        stack.push();
        stack.accept_token(TokenKind::Action(Action::End));
        Ok(State::Block)
    }
}

fn state_block_assign_equality(stack: &mut StackMachine) -> (r: Result<State, String>)
    requires
        old(stack)@.bounded(),
        !old(stack)@.eof(),
    ensures
        outcome(r, step(State::BlockAssignEquality, old(stack)@), final(stack)@),
{
    if lookahead_or_space(stack) == '=' {
        double_operator(stack, Op::Equality, State::Block)
    } else {
        single_operator(stack, Op::Assign)
    }
}

fn state_block_string_literal(stack: &mut StackMachine) -> (r: Result<State, String>)
    requires
        old(stack)@.bounded(),
        !old(stack)@.eof(),
    ensures
        outcome(r, step(State::BlockStringLiteral, old(stack)@), final(stack)@),
{
    let ch = stack.peek();
    if ch == '"' {
        stack.skip_current();  // The closing double quote
        stack.accept_token(TokenKind::StringLiteral);
        Ok(State::Block)
    } else if ch == '\\' {
        stack.skip_current();  // The escape character
        if stack.eof() {
            let msg = State::get_error_msg(
                stack,
                "Lexer<STRING>: Expected a character after the escape character.",
                "expected a character",
            );
            return Err(msg);
        }
        stack.push();  // The escaped character
        Ok(State::BlockStringLiteral)
    } else {
        stack.push();
        Ok(State::BlockStringLiteral)
    }
}

fn state_block_and(stack: &mut StackMachine) -> (r: Result<State, String>)
    requires
        old(stack)@.bounded(),
        !old(stack)@.eof(),
    ensures
        outcome(r, step(State::BlockAnd, old(stack)@), final(stack)@),
{
    if lookahead_or_space(stack) == '&' {
        double_operator(stack, Op::And, State::Block)
    } else {
        Err(
            State::get_error_msg(
                stack,
                "Lexer<AND>: Expected Operator And(&&). A single '&' is not a valid token.",
                "expected '&&'",
            ),
        )
    }
}

fn state_block_pipe_or(stack: &mut StackMachine) -> (r: Result<State, String>)
    requires
        old(stack)@.bounded(),
        !old(stack)@.eof(),
    ensures
        outcome(r, step(State::BlockPipeOr, old(stack)@), final(stack)@),
{
    if lookahead_or_space(stack) == '|' {
        double_operator(stack, Op::Or, State::Block)
    } else {
        single_operator(stack, Op::Pipe)
    }
}

fn state_label(stack: &mut StackMachine) -> (r: Result<State, String>)
    requires
        old(stack)@.bounded(),
        !old(stack)@.eof(),
    ensures
        outcome(r, step(State::Label, old(stack)@), final(stack)@),
{
    let ch = stack.peek();
    if char_is_alphabetic(ch) {
        stack.push();
        Ok(State::Label)
    } else if ch == '!' && lookahead_or_space(stack) != '=' {
        stack.push();
        let name = stack.view_stack();
        let action = if str_eq(name, "let!") {
            Action::Let
        } else if str_eq(name, "write!") {
            Action::Write
        } else if str_eq(name, "render!") {
            Action::Render
        } else {
            let mut msg = String::new();
            push_str(&mut msg, "Lexer<LABEL>: The expected action does not match a defined action - found: '");
            push_str(&mut msg, stack.view_stack());
            push_str(&mut msg, "' ");
            assert(msg@ =~= unknown_action_msg(stack@.stack));
            return Err(
                State::get_error_msg(
                    stack,
                    msg.as_str(),
                    "expected one of the following defined actions: let!, write!, render!, or !.",
                ),
            );
        };
        stack.accept_token(TokenKind::Action(action));
        Ok(State::Block)
    } else if char_is_numeric(ch) {
        let mut msg = String::new();
        push_str(&mut msg, "Lexer<LABEL>: The expected label contains digit '");
        push_char(&mut msg, ch);
        push_str(&mut msg, "' with stack \"");
        push_str(&mut msg, stack.view_stack());
        push_str(&mut msg, "\".");
        assert(msg@ =~= label_digit_msg(ch, stack@.stack));
        Err(State::get_error_msg(stack, msg.as_str(), "expected alphabetic character"))
    } else {
        stack.accept_token(TokenKind::Label);
        Ok(State::Block)
    }
}

fn state_digit(stack: &mut StackMachine) -> (r: Result<State, String>)
    requires
        old(stack)@.bounded(),
        !old(stack)@.eof(),
    ensures
        outcome(r, step(State::Digit, old(stack)@), final(stack)@),
{
    let ch = stack.peek();
    if char_is_numeric(ch) {
        stack.push();
        Ok(State::Digit)
    } else if char_is_alphabetic(ch) {
        let mut msg = String::new();
        push_str(&mut msg, "Lexer<DIGIT>: The expected number contains invalid digit '");
        push_char(&mut msg, ch);
        push_str(&mut msg, "' with stack \"");
        push_str(&mut msg, stack.view_stack());
        push_str(&mut msg, "\".");
        assert(msg@ =~= number_letter_msg(ch, stack@.stack));
        Err(State::get_error_msg(stack, msg.as_str(), "expected digit"))
    } else {
        match parse_decimal(stack.view_stack()) {
            Some(number) => {
                stack.accept_token(TokenKind::NumberLiteral(number));
                Ok(State::Block)
            },
            None => {
                let mut msg = String::new();
                push_str(&mut msg, "Lexer<DIGIT>: The number \"");
                push_str(&mut msg, stack.view_stack());
                push_str(&mut msg, "\" is not an unsigned integer that fits in a usize.");
                assert(msg@ =~= number_range_msg(stack@.stack));
                Err(State::get_error_msg(stack, msg.as_str(), "expected a smaller number"))
            },
        }
    }
}

} // verus!
