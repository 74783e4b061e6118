//! The lexer: splits a template into text and the tokens of its code blocks.
use vstd::prelude::*;

pub mod automata;
pub mod lexemes;
pub mod properties;
pub mod states;

use crate::tokens::{Token, TokenView};
use automata::{Machine, StackMachine};
pub use states::State;
use states::{lemma_step, measure, state_ok, step};

verus! {

/// Runs the states from `s` until the input is read, moving the current
/// location to the next line after each step taken at a newline.
pub open spec fn lex_loop(s: State, m: Machine) -> Result<Machine, Seq<char>>
    decreases measure(s, m),
{
    if 0 <= m.index < m.chars.len() {
        match step(s, m) {
            Err(e) => Err(e),
            Ok((s2, m2)) => {
                proof {
                    lemma_step(s, m);
                }
                if m.peek() == '\n' {
                    lex_loop(s2, m2.newline())
                } else {
                    lex_loop(s2, m2)
                }
            },
        }
    } else {
        Ok(m)
    }
}

/// The tokens read, followed by whatever is left on the stack as text.
pub open spec fn finish(m: Machine) -> Seq<TokenView> {
    if m.empty() {
        m.tokens
    } else {
        m.tokens.push(TokenView::StringLiteral(m.stack, m.start))
    }
}

/// The tokens of a template, or the message of the error that stops the lexer.
pub open spec fn spec_run(input: Seq<char>) -> Result<Seq<TokenView>, Seq<char>> {
    match lex_loop(State::Start, Machine::initial(input)) {
        Ok(m) => Ok(finish(m)),
        Err(e) => Err(e),
    }
}

pub open spec fn views(tokens: Seq<Token>) -> Seq<TokenView> {
    tokens.map_values(|t: Token| t@)
}

/// Splits `input` into tokens: text outside code blocks becomes string
/// literals, and the contents of each `{{ .. }}` become labels, literals,
/// operators and actions.
pub fn run(input: &str) -> (r: Result<Vec<Token>, String>)
    requires
        input@.len() <= usize::MAX / 8,
    ensures
        match spec_run(input@) {
            Ok(tokens) => r is Ok && views(r->Ok_0@) == tokens,
            Err(e) => r is Err && r->Err_0@ == e,
        },
{
    let mut state = State::new();
    let mut stack = StackMachine::new(input);
    let ghost init = stack@;
    let ghost mut steps: int = 0;
    while !stack.eof()
        invariant
            lex_loop(state, stack@) == lex_loop(State::Start, init),
            init == Machine::initial(input@),
            stack@.chars == input@,
            stack@.bounded(),
            state_ok(state, stack@),
            0 <= steps,
            stack@.current.line <= steps,
            steps + measure(state, stack@) <= 4 * input@.len() + 4,
        decreases measure(state, stack@),
    {
        proof {
            lemma_step(state, stack@);
        }
        let at_newline = stack.peek() == '\n';
        let next = match state.run(&mut stack) {
            Ok(next) => next,
            Err(e) => return Err(e),
        };
        if at_newline {
            stack.newline();
        }
        state = next;
        proof {
            steps = steps + 1;
        }
    }

    // Whatever is left on the stack is text
    if !stack.empty() {
        let text = stack.view_stack().to_owned();
        let loc = stack.location();
        stack.accept_token(Token::StringLiteral(text, loc));
    }
    Ok(stack.get_tokens())
}

} // verus!
