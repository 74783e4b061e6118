//! A lexer that keeps, for every token, the text it was read from. It reads a
//! whole template at once, or one token at a time.
use vstd::prelude::*;

pub mod automata;
pub mod properties;
pub mod states;
pub mod tokens;

use automata::{Machine, StackMachine};
use states::{lemma_step, measure, state_ok, step, State};
use tokens::{Lexeme, Token, TokenKind};

verus! {

/// Runs the states from `s` until the input is read, moving the current
/// location to the next line after each step taken at a newline.
pub open spec fn lex_loop(s: State, m: Machine) -> Result<Machine, Seq<char>>
    decreases measure(s, m),
{
    if 0 <= m.index < m.chars.len() {
        match step(s, m) {
            Err(e) => Err(e),
            Ok((s2, m2)) => {
                proof {
                    lemma_step(s, m);
                }
                if m.peek() == '\n' {
                    lex_loop(s2, m2.newline())
                } else {
                    lex_loop(s2, m2)
                }
            },
        }
    } else {
        Ok(m)
    }
}

/// The tokens read, followed by whatever is left on the stack as text.
pub open spec fn finish(m: Machine) -> Seq<Lexeme> {
    if m.empty() {
        m.tokens
    } else {
        m.accept(TokenKind::StringLiteral).tokens
    }
}

/// The tokens of the rest of the input, or the message of the error that
/// stops the lexer.
pub open spec fn tokenize_from(s: State, m: Machine) -> Result<Seq<Lexeme>, Seq<char>> {
    match lex_loop(s, m) {
        Ok(end) => Ok(finish(end)),
        Err(e) => Err(e),
    }
}

/// Runs the states from `s` until a step leaves a token, and takes the last
/// token; past the end of the input, the rest of the stack (which may be
/// empty) is that token. Gives the state and the machine after it, or the
/// message of the error that stops the lexer.
pub open spec fn next_token(s: State, m: Machine) -> Result<(State, Machine, Lexeme), Seq<char>>
    decreases measure(s, m),
{
    if 0 <= m.index < m.chars.len() {
        match step(s, m) {
            Err(e) => Err(e),
            Ok((s2, m2)) => {
                proof {
                    lemma_step(s, m);
                }
                if m2.tokens.len() > 0 {
                    Ok((s2, m2.pop(), m2.tokens.last()))
                } else {
                    next_token(s2, m2)
                }
            },
        }
    } else {
        let m2 = m.accept(TokenKind::StringLiteral);
        Ok((s, m2.pop(), m2.tokens.last()))
    }
}

pub open spec fn lexemes(tokens: Seq<Token>) -> Seq<Lexeme> {
    tokens.map_values(|t: Token| t@)
}

pub struct Lexer {
    pub stack: StackMachine,
    state: State,
}

impl Lexer {
    pub closed spec fn state(&self) -> State {
        self.state
    }

    pub closed spec fn machine(&self) -> Machine {
        self.stack@
    }

    /// What the lexer needs to run: a machine within its limits, a state that
    /// can stand where the machine is, and room to count lines.
    pub open spec fn wf(&self) -> bool {
        &&& self.machine().bounded()
        &&& state_ok(self.state(), self.machine())
        &&& self.machine().current.line <= usize::MAX / 4
    }

    /// Reads the rest of the input: the tokens, or the error that stops the
    /// lexer.
    pub fn tokenize(self) -> (r: Result<Vec<Token>, String>)
        requires
            self.wf(),
        ensures
            match tokenize_from(self.state(), self.machine()) {
                Ok(tokens) => r is Ok && lexemes(r->Ok_0@) == tokens,
                Err(e) => r is Err && r->Err_0@ == e,
            },
    {
        let mut lexer = self;
        let ghost init_state = lexer.state;
        let ghost init = lexer.stack@;
        let ghost line0 = init.current.line;
        let ghost mut steps: int = 0;
        while !lexer.stack.eof()
            invariant
                lex_loop(lexer.state, lexer.stack@) == lex_loop(init_state, init),
                init == self.machine(),
                init_state == self.state(),
                lexer.stack@.chars == init.chars,
                init.bounded(),
                line0 <= usize::MAX / 4,
                lexer.stack@.bounded(),
                state_ok(lexer.state, lexer.stack@),
                0 <= steps,
                lexer.stack@.current.line <= line0 + steps,
                steps + measure(lexer.state, lexer.stack@) <= measure(init_state, init),
            decreases measure(lexer.state, lexer.stack@),
        {
            proof {
                lemma_step(lexer.state, lexer.stack@);
            }
            let at_newline = lexer.stack.peek() == '\n';
            let next = match lexer.state.run(&mut lexer.stack) {
                Ok(next) => next,
                Err(e) => return Err(e),
            };
            if at_newline {
                lexer.stack.newline();
            }
            lexer.state = next;
            proof {
                steps = steps + 1;
            }
        }

        // Whatever is left on the stack is text
        if !lexer.stack.empty() {
            lexer.stack.accept_token(TokenKind::StringLiteral);
        }
        Ok(lexer.stack.get_tokens())
    }

    /// Reads on until a token is complete and returns it; past the end of the
    /// input, returns what is left on the stack as text (possibly empty).
    pub fn get_token(&mut self) -> (r: Result<Token, String>)
        requires
            old(self).wf(),
        ensures
            match next_token(old(self).state(), old(self).machine()) {
                Ok((s, m, t)) => r is Ok && r->Ok_0@ == t && final(self).state() == s && final(self).machine() == m,
                Err(e) => r is Err && r->Err_0@ == e,
            },
            r is Ok ==> final(self).wf(),
    {
        let ghost init_state = self.state;
        let ghost init = self.stack@;
        while !self.stack.eof()
            invariant
                next_token(self.state, self.stack@) == next_token(init_state, init),
                init == old(self).machine(),
                init_state == old(self).state(),
                self.stack@.bounded(),
                state_ok(self.state, self.stack@),
                self.stack@.current.line == init.current.line,
                init.current.line <= usize::MAX / 4,
            decreases measure(self.state, self.stack@),
        {
            proof {
                lemma_step(self.state, self.stack@);
            }
            let next = match self.state.run(&mut self.stack) {
                Ok(next) => next,
                Err(e) => return Err(e),
            };
            self.state = next;
            match self.stack.get_token() {
                Some(t) => return Ok(t),
                None => {},
            }
        }

        // Whatever is left on the stack is the last token
        self.stack.accept_token(TokenKind::StringLiteral);
        match self.stack.get_token() {
            Some(t) => Ok(t),
            None => {
                assert(false);
                Err(String::new())
            },
        }
    }
}

// A lexer holds vectors, and no spec expression builds one; so `from` names
// no spec value, and says what it builds in its own `ensures`.
impl vstd::std_specs::convert::FromSpecImpl<&str> for Lexer {
    open spec fn obeys_from_spec() -> bool {
        false
    }

    open spec fn from_spec(v: &str) -> Lexer {
        arbitrary()
    }
}

impl vstd::std_specs::convert::FromSpecImpl<String> for Lexer {
    open spec fn obeys_from_spec() -> bool {
        false
    }

    open spec fn from_spec(v: String) -> Lexer {
        arbitrary()
    }
}

impl From<&str> for Lexer {
    fn from(string: &str) -> (lexer: Lexer)
        ensures
            lexer.machine() == Machine::initial(string@),
            lexer.state() == State::Start,
    {
        Lexer { stack: StackMachine::new(string), state: State::new() }
    }
}

impl From<String> for Lexer {
    fn from(string: String) -> (lexer: Lexer)
        ensures
            lexer.machine() == Machine::initial(string@),
            lexer.state() == State::Start,
    {
        Lexer { stack: StackMachine::new(string.as_str()), state: State::new() }
    }
}

} // verus!
