//! The stack machine of the lexer that keeps lexemes: it walks over the input,
//! collects the characters of the token being read on a stack and keeps the
//! tokens accepted so far, each with the characters it was read from.
use vstd::prelude::*;

use crate::common::Location;
use crate::common::text::{chars_of, push_char, string_of};
use crate::lexer::automata::{caret_line, caret_line_of, next_line, shifted};
use super::tokens::{Lexeme, Token, TokenKind};

verus! {

/// What a `StackMachine` holds.
pub struct Machine {
    pub chars: Seq<char>,
    pub index: int,
    pub stack: Seq<char>,
    pub tokens: Seq<Lexeme>,
    /// Where the token being read starts.
    pub start: Location,
    /// Where the machine is in the input.
    pub current: Location,
}

impl Machine {
    pub open spec fn initial(chars: Seq<char>) -> Machine {
        Machine {
            chars,
            index: 0,
            stack: Seq::empty(),
            tokens: Seq::empty(),
            start: Location::at(0, 0),
            current: Location::at(0, 0),
        }
    }

    pub open spec fn eof(self) -> bool {
        self.index >= self.chars.len()
    }

    pub open spec fn empty(self) -> bool {
        self.stack.len() == 0
    }

    pub open spec fn peek(self) -> char {
        self.chars[self.index]
    }

    /// The character after the current one, or a space past the end of the input.
    pub open spec fn lookahead_or_space(self) -> char {
        if self.index + 1 < self.chars.len() {
            self.chars[self.index + 1]
        } else {
            ' '
        }
    }

    pub open spec fn skip(self) -> Machine {
        Machine {
            index: self.index + 1,
            start: shifted(self.start),
            current: shifted(self.current),
            ..self
        }
    }

    pub open spec fn skip_current(self) -> Machine {
        Machine { index: self.index + 1, current: shifted(self.current), ..self }
    }

    pub open spec fn push(self) -> Machine {
        Machine {
            stack: self.stack.push(self.chars[self.index]),
            index: self.index + 1,
            current: shifted(self.current),
            ..self
        }
    }

    pub open spec fn newline(self) -> Machine {
        Machine { current: next_line(self.current), ..self }
    }

    /// Accepts the characters on the stack as a token of the given kind that
    /// starts at the start location.
    pub open spec fn accept(self, kind: TokenKind) -> Machine {
        Machine {
            tokens: self.tokens.push(Lexeme { kind, text: self.stack, location: self.start }),
            stack: Seq::empty(),
            start: self.current,
            ..self
        }
    }

    /// The machine without its last token.
    pub open spec fn pop(self) -> Machine {
        Machine { tokens: self.tokens.drop_last(), ..self }
    }

    /// The limits under which no column can overflow.
    pub open spec fn bounded(self) -> bool {
        &&& 0 <= self.index <= self.chars.len()
        &&& self.chars.len() <= usize::MAX / 8
        &&& self.current.column <= self.index
        &&& self.start.column <= self.index
        &&& self.start.line <= self.current.line
    }
}

pub struct StackMachine {
    chars: Vec<char>,
    index: usize,
    stack: String,
    tokens: Vec<Token>,
    // Where the token being read starts
    start: Location,
    // Where the machine is in the input
    current: Location,
}

impl View for StackMachine {
    type V = Machine;

    closed spec fn view(&self) -> Machine {
        Machine {
            chars: self.chars@,
            index: self.index as int,
            stack: self.stack@,
            tokens: self.tokens@.map_values(|t: Token| t@),
            start: self.start,
            current: self.current,
        }
    }
}

impl StackMachine {
    pub fn new(input: &str) -> (sm: StackMachine)
        ensures
            sm@ == Machine::initial(input@),
    {
        let sm = StackMachine {
            chars: chars_of(input),
            index: 0,
            stack: String::new(),
            tokens: Vec::new(),
            start: Location::new(0, 0),
            current: Location::new(0, 0),
        };
        assert(sm@.tokens == Seq::<Lexeme>::empty());
        sm
    }

    /// The whole input.
    pub fn as_string(&self) -> (s: String)
        ensures
            s@ == self@.chars,
    {
        string_of(&self.chars)
    }

    pub fn view_stack(&self) -> (s: &str)
        ensures
            s@ == self@.stack,
    {
        self.stack.as_str()
    }

    pub fn peek(&self) -> (c: char)
        requires
            !self@.eof(),
            0 <= self@.index,
        ensures
            c == self@.peek(),
    {
        self.chars[self.index]
    }

    pub fn lookahead(&self) -> (c: Option<&char>)
        requires
            0 <= self@.index,
        ensures
            c is Some <==> self@.index + 1 < self@.chars.len(),
            c matches Some(ch) ==> *ch == self@.chars[self@.index + 1],
    {
        if self.index < self.chars.len() && self.index + 1 < self.chars.len() {
            Some(&self.chars[self.index + 1])
        } else {
            None
        }
    }

    pub fn skip(&mut self)
        requires
            old(self)@.index < usize::MAX,
            old(self)@.start.column < usize::MAX,
            old(self)@.current.column < usize::MAX,
        ensures
            final(self)@ == old(self)@.skip(),
    {
        self.index = self.index + 1;
        self.start.shift();
        self.current.shift();
    }

    /// Skips the current character and moves only the current location; the
    /// start of the token being read stays where it is.
    pub fn skip_current(&mut self)
        requires
            old(self)@.index < usize::MAX,
            old(self)@.current.column < usize::MAX,
        ensures
            final(self)@ == old(self)@.skip_current(),
    {
        self.index = self.index + 1;
        self.current.shift();
    }

    pub fn push(&mut self)
        requires
            old(self)@.bounded(),
            !old(self)@.eof(),
        ensures
            final(self)@ == old(self)@.push(),
    {
        let ch = self.chars[self.index];
        push_char(&mut self.stack, ch);
        self.index = self.index + 1;
        self.current.shift();
    }

    pub fn newline(&mut self)
        requires
            old(self)@.current.line < usize::MAX,
        ensures
            final(self)@ == old(self)@.newline(),
    {
        self.current.newline();
    }

    /// Takes the characters off the stack.
    fn consume_stack(&mut self) -> (consumed: String)
        ensures
            consumed@ == old(self)@.stack,
            final(self)@ == (Machine { stack: Seq::empty(), ..old(self)@ }),
    {
        let consumed = self.stack.clone();
        self.stack = String::new();
        consumed
    }

    pub fn accept_token(&mut self, kind: TokenKind)
        ensures
            final(self)@ == old(self)@.accept(kind),
    {
        let lexeme = self.consume_stack();
        let t = Token::new(kind, lexeme, self.start);
        self.tokens.push(t);
        self.start = self.current;
        assert(self@.tokens =~= old(self)@.accept(kind).tokens);
    }

    /// Takes the last token accepted, if there is one.
    pub fn get_token(&mut self) -> (t: Option<Token>)
        ensures
            old(self)@.tokens.len() == 0 ==> t is None && final(self)@ == old(self)@,
            old(self)@.tokens.len() > 0 ==> t is Some && t.unwrap()@ == old(self)@.tokens.last()
                && final(self)@ == old(self)@.pop(),
    {
        let t = self.tokens.pop();
        proof {
            if old(self)@.tokens.len() > 0 {
                assert(self@.tokens =~= old(self)@.tokens.drop_last());
            } else {
                assert(self@.tokens =~= old(self)@.tokens);
            }
        }
        t
    }

    pub fn get_tokens(self) -> (tokens: Vec<Token>)
        ensures
            tokens@.map_values(|t: Token| t@) == self@.tokens,
    {
        self.tokens
    }

    pub fn empty(&self) -> (b: bool)
        ensures
            b == self@.empty(),
    {
        self.stack.as_str().is_empty()
    }

    pub fn eof(&self) -> (b: bool)
        ensures
            b == self@.eof(),
    {
        self.index >= self.chars.len()
    }

    /// The current location, and the line of the input that holds it followed
    /// by a caret under the current column and `underline_msg`.
    pub fn debug_line(&self, underline_msg: &str) -> (r: (Location, String))
        requires
            !self@.eof(),
            self@.bounded(),
        ensures
            r.0 == self@.current,
            r.1@ == caret_line(self@.chars, self@.index, self@.current.column as nat, underline_msg@),
    {
        (self.current, caret_line_of(&self.chars, self.index, self.current.column, underline_msg))
    }
}

} // verus!
