//! The stack machine that the lexer's states drive: it walks over the input one
//! character at a time, collects the characters of the token being read on a
//! stack and keeps the tokens accepted so far.
use vstd::prelude::*;

use crate::common::Location;
use crate::common::text::{chars_of, push_char, push_str, decimal};
use crate::tokens::{Token, TokenView};

verus! {

/// What a `StackMachine` holds.
pub struct Machine {
    pub chars: Seq<char>,
    pub index: int,
    pub stack: Seq<char>,
    pub tokens: Seq<TokenView>,
    /// Where the token being read starts.
    pub start: Location,
    /// Where the machine is in the input.
    pub current: Location,
}

pub open spec fn shifted(loc: Location) -> Location {
    Location::at(loc.line, (loc.column + 1) as usize)
}

pub open spec fn next_line(loc: Location) -> Location {
    Location::at((loc.line + 1) as usize, 0)
}

impl Machine {
    pub open spec fn initial(chars: Seq<char>) -> Machine {
        Machine {
            chars,
            index: 0,
            stack: Seq::empty(),
            tokens: Seq::empty(),
            start: Location::at(0, 0),
            current: Location::at(0, 0),
        }
    }

    pub open spec fn eof(self) -> bool {
        self.index >= self.chars.len()
    }

    pub open spec fn empty(self) -> bool {
        self.stack.len() == 0
    }

    pub open spec fn peek(self) -> char {
        self.chars[self.index]
    }

    /// The character after the current one, or a space past the end of the input.
    pub open spec fn lookahead_or_space(self) -> char {
        if self.index + 1 < self.chars.len() {
            self.chars[self.index + 1]
        } else {
            ' '
        }
    }

    pub open spec fn skip(self) -> Machine {
        Machine {
            index: self.index + 1,
            start: shifted(self.start),
            current: shifted(self.current),
            ..self
        }
    }

    pub open spec fn skip_current(self) -> Machine {
        Machine { index: self.index + 1, current: shifted(self.current), ..self }
    }

    pub open spec fn push(self) -> Machine {
        Machine {
            stack: self.stack.push(self.chars[self.index]),
            index: self.index + 1,
            current: shifted(self.current),
            ..self
        }
    }

    pub open spec fn newline(self) -> Machine {
        Machine { current: next_line(self.current), ..self }
    }

    pub open spec fn accept(self, token: TokenView) -> Machine {
        Machine {
            tokens: self.tokens.push(token),
            stack: Seq::empty(),
            start: self.current,
            ..self
        }
    }

    /// The limits under which no location can overflow: every column is at most
    /// the number of characters read so far, and the input is far shorter than
    /// the largest `usize`.
    pub open spec fn bounded(self) -> bool {
        &&& 0 <= self.index <= self.chars.len()
        &&& self.chars.len() <= usize::MAX / 8
        &&& self.current.column <= self.index
        &&& self.start.column <= self.index
        &&& self.start.line <= self.current.line
    }
}

/// Where the line that holds position `i` starts: `i` itself when the character
/// there is a newline, and otherwise the position after the closest newline
/// before `i` (or the start of the input).
pub open spec fn line_start(chars: Seq<char>, i: int) -> int
    decreases i,
{
    if i <= 0 || chars[i] == '\n' || chars[i - 1] == '\n' {
        if i <= 0 { 0 } else { i }
    } else {
        line_start(chars, i - 1)
    }
}

/// The first position at or after `j` that holds a newline, or the end of the
/// input.
pub open spec fn line_end(chars: Seq<char>, j: int) -> int
    decreases chars.len() - j,
{
    if j >= chars.len() || chars[j] == '\n' {
        j
    } else {
        line_end(chars, j + 1)
    }
}

pub open spec fn spaces(n: nat) -> Seq<char>
    decreases n,
{
    if n == 0 { Seq::empty() } else { spaces((n - 1) as nat).push(' ') }
}

/// The line of the input that holds position `index`, a newline and a tab,
/// then a caret under `column` followed by `underline`.
pub open spec fn caret_line(chars: Seq<char>, index: int, column: nat, underline: Seq<char>) -> Seq<char> {
    let s = line_start(chars, index);
    chars.subrange(s, line_end(chars, s)) + seq!['\n', '\t'] + spaces(column) + seq!['^', ' '] + underline
}

/// `msg`, the location and the caret line of an error at position `index`.
pub open spec fn located_error(
    msg: Seq<char>,
    chars: Seq<char>,
    index: int,
    at: Location,
    underline: Seq<char>,
) -> Seq<char> {
    msg + " On line ["@ + decimal(at.line as nat) + "; "@ + decimal(at.column as nat) + "]:\n\t"@
        + caret_line(chars, index, at.column as nat, underline)
}

/// The line of the current position, a newline and a tab, then a caret under
/// the current column followed by `underline`.
pub open spec fn debug_line_text(m: Machine, underline: Seq<char>) -> Seq<char> {
    caret_line(m.chars, m.index, m.current.column as nat, underline)
}

pub open spec fn error_text(m: Machine, msg: Seq<char>, underline: Seq<char>) -> Seq<char> {
    located_error(msg, m.chars, m.index, m.current, underline)
}

pub proof fn lemma_line_start(chars: Seq<char>, i: int)
    requires
        0 <= i < chars.len(),
    ensures
        0 <= line_start(chars, i) <= i,
    decreases i,
{
    if !(i <= 0 || chars[i] == '\n' || chars[i - 1] == '\n') {
        lemma_line_start(chars, i - 1);
    }
}

pub proof fn lemma_line_end(chars: Seq<char>, j: int)
    requires
        0 <= j <= chars.len(),
    ensures
        j <= line_end(chars, j) <= chars.len(),
    decreases chars.len() - j,
{
    if !(j >= chars.len() || chars[j] == '\n') {
        lemma_line_end(chars, j + 1);
    }
}

pub struct StackMachine {
    chars: Vec<char>,
    index: usize,
    stack: String,
    tokens: Vec<Token>,
    // Where the token being read starts
    start: Location,
    // Where the machine is in the input
    current: Location,
}

impl View for StackMachine {
    type V = Machine;

    closed spec fn view(&self) -> Machine {
        Machine {
            chars: self.chars@,
            index: self.index as int,
            stack: self.stack@,
            tokens: self.tokens@.map_values(|t: Token| t@),
            start: self.start,
            current: self.current,
        }
    }
}

impl StackMachine {
    pub fn new(input: &str) -> (sm: StackMachine)
        ensures
            sm@ == Machine::initial(input@),
    {
        let sm = StackMachine {
            chars: chars_of(input),
            index: 0,
            stack: String::new(),
            tokens: Vec::new(),
            start: Location::new(0, 0),
            current: Location::new(0, 0),
        };
        assert(sm@.tokens == Seq::<TokenView>::empty());
        sm
    }

    pub fn view_stack(&self) -> (s: &str)
        ensures
            s@ == self@.stack,
    {
        self.stack.as_str()
    }

    pub fn peek(&self) -> (c: char)
        requires
            !self@.eof(),
            0 <= self@.index,
        ensures
            c == self@.peek(),
    {
        self.chars[self.index]
    }

    pub fn lookahead(&self) -> (c: Option<&char>)
        requires
            0 <= self@.index,
        ensures
            c is Some <==> self@.index + 1 < self@.chars.len(),
            c matches Some(ch) ==> *ch == self@.chars[self@.index + 1],
    {
        if self.index < self.chars.len() && self.index + 1 < self.chars.len() {
            Some(&self.chars[self.index + 1])
        } else {
            None
        }
    }

    pub fn skip(&mut self)
        requires
            old(self)@.index < usize::MAX,
            old(self)@.start.column < usize::MAX,
            old(self)@.current.column < usize::MAX,
        ensures
            final(self)@ == old(self)@.skip(),
    {
        self.index = self.index + 1;
        self.start.shift();
        self.current.shift();
    }

    /// Skips the current character and moves only the current location; the
    /// start of the token being read stays where it is.
    pub fn skip_current(&mut self)
        requires
            old(self)@.index < usize::MAX,
            old(self)@.current.column < usize::MAX,
        ensures
            final(self)@ == old(self)@.skip_current(),
    {
        self.index = self.index + 1;
        self.current.shift();
    }

    pub fn push(&mut self)
        requires
            old(self)@.bounded(),
            !old(self)@.eof(),
        ensures
            final(self)@ == old(self)@.push(),
    {
        let ch = self.chars[self.index];
        push_char(&mut self.stack, ch);
        self.index = self.index + 1;
        self.current.shift();
    }

    pub fn newline(&mut self)
        requires
            old(self)@.current.line < usize::MAX,
        ensures
            final(self)@ == old(self)@.newline(),
    {
        self.current.newline();
    }

    pub fn location(&self) -> (loc: Location)
        ensures
            loc == self@.start,
    {
        self.start
    }

    pub fn accept_token(&mut self, token: Token)
        ensures
            final(self)@ == old(self)@.accept(token@),
    {
        self.tokens.push(token);
        self.stack = String::new();
        self.start = self.current;
        assert(self@.tokens =~= old(self)@.tokens.push(token@));
    }

    pub fn get_tokens(self) -> (tokens: Vec<Token>)
        ensures
            tokens@.map_values(|t: Token| t@) == self@.tokens,
    {
        self.tokens
    }

    pub fn empty(&self) -> (b: bool)
        ensures
            b == self@.empty(),
    {
        self.stack.as_str().is_empty()
    }

    pub fn eof(&self) -> (b: bool)
        ensures
            b == self@.eof(),
    {
        self.index >= self.chars.len()
    }

    /// The current location, and the line of the input that holds it followed
    /// by a caret under the current column and `underline_msg`.
    pub fn debug_line(&self, underline_msg: &str) -> (r: (Location, String))
        requires
            !self@.eof(),
            self@.bounded(),
        ensures
            r.0 == self@.current,
            r.1@ == debug_line_text(self@, underline_msg@),
    {
        (self.current, caret_line_of(&self.chars, self.index, self.current.column, underline_msg))
    }
}

/// The line of `chars` that holds position `index`, a newline and a tab, then
/// a caret under `column` followed by `underline_msg`.
pub fn caret_line_of(chars: &Vec<char>, index: usize, column: usize, underline_msg: &str) -> (line: String)
    requires
        index < chars.len(),
    ensures
        line@ == caret_line(chars@, index as int, column as nat, underline_msg@),
{
    let ghost cs = chars@;
    let mut i = index;
    let mut line = String::new();

    // Back up to the first character of the line
    proof {
        lemma_line_start(cs, index as int);
    }
    while i > 0 && chars[i] != '\n' && chars[i - 1] != '\n'
        invariant
            0 <= i < chars.len(),
            cs == chars@,
            index < chars.len(),
            line_start(cs, i as int) == line_start(cs, index as int),
        decreases i,
    {
        i = i - 1;
    }
    let start = i;
    assert(start == line_start(cs, index as int));

    // Collect every character until a newline or the end of the input
    proof {
        lemma_line_end(cs, start as int);
    }
    while i < chars.len() && chars[i] != '\n'
        invariant
            start <= i <= chars.len(),
            cs == chars@,
            line_end(cs, i as int) == line_end(cs, start as int),
            line@ == cs.subrange(start as int, i as int),
        decreases chars.len() - i,
    {
        push_char(&mut line, chars[i]);
        i = i + 1;
        assert(line@ =~= cs.subrange(start as int, i as int));
    }
    assert(i == line_end(cs, start as int));

    // Underline the location of the error
    push_char(&mut line, '\n');
    push_char(&mut line, '\t');
    let mut k: usize = 0;
    let ghost before = line@;
    while k < column
        invariant
            k <= column,
            line@ == before + spaces(k as nat),
        decreases column - k,
    {
        push_char(&mut line, ' ');
        k = k + 1;
    }
    push_char(&mut line, '^');
    push_char(&mut line, ' ');
    push_str(&mut line, underline_msg);
    assert(line@ =~= caret_line(cs, index as int, column as nat, underline_msg@));
    line
}

} // verus!

verus! {

/// One of the calls that change a machine.
pub enum Move {
    Push,
    Skip,
    SkipCurrent,
    Newline,
    Accept(TokenView),
}

impl Machine {
    /// The machine after one call.
    pub open spec fn moved(self, mv: Move) -> Machine {
        match mv {
            Move::Push => self.push(),
            Move::Skip => self.skip(),
            Move::SkipCurrent => self.skip_current(),
            Move::Newline => self.newline(),
            Move::Accept(t) => self.accept(t),
        }
    }

    /// The machine after the calls, in order.
    pub open spec fn after(self, moves: Seq<Move>) -> Machine
        decreases moves.len(),
    {
        if moves.len() == 0 {
            self
        } else {
            self.moved(moves[0]).after(moves.drop_first())
        }
    }

    /// The machine after `k` pushes.
    pub open spec fn pushed(self, k: nat) -> Machine
        decreases k,
    {
        if k == 0 {
            self
        } else {
            self.push().pushed((k - 1) as nat)
        }
    }
}

/// The tokens that the calls accept, in order.
pub open spec fn accepted(moves: Seq<Move>) -> Seq<TokenView>
    decreases moves.len(),
{
    if moves.len() == 0 {
        Seq::empty()
    } else {
        let rest = accepted(moves.drop_first());
        match moves[0] {
            Move::Accept(t) => seq![t] + rest,
            _ => rest,
        }
    }
}

/// How many of the calls read a character: pushes and skips.
pub open spec fn consumed(moves: Seq<Move>) -> nat
    decreases moves.len(),
{
    if moves.len() == 0 {
        0
    } else {
        let rest = consumed(moves.drop_first());
        match moves[0] {
            Move::Push | Move::Skip | Move::SkipCurrent => rest + 1,
            _ => rest,
        }
    }
}

/// Pushed characters accumulate on the stack in the order of the input.
pub proof fn lemma_pushes_accumulate(m: Machine, k: nat)
    requires
        0 <= m.index,
        m.index + k <= m.chars.len(),
    ensures
        m.pushed(k).stack == m.stack + m.chars.subrange(m.index, m.index + k),
        m.pushed(k).index == m.index + k,
        m.pushed(k).chars == m.chars,
        m.pushed(k).tokens == m.tokens,
    decreases k,
{
    if k > 0 {
        let m1 = m.push();
        lemma_pushes_accumulate(m1, (k - 1) as nat);
        assert(m.stack + m.chars.subrange(m.index, m.index + k) =~= m1.stack + m1.chars.subrange(
            m1.index,
            m1.index + (k - 1),
        ));
    } else {
        assert(m.stack + m.chars.subrange(m.index, m.index) =~= m.stack);
    }
}

/// From a fresh machine, `k` pushes leave the first `k` characters of the
/// input on the stack.
pub proof fn lemma_fresh_pushes(s: Seq<char>, k: nat)
    requires
        k <= s.len(),
    ensures
        Machine::initial(s).pushed(k).stack == s.take(k as int),
{
    lemma_pushes_accumulate(Machine::initial(s), k);
    assert(Seq::<char>::empty() + s.subrange(0, k as int) =~= s.take(k as int));
}

/// The machine keeps every accepted token, in the order of acceptance, and
/// nothing else: the other calls leave the tokens alone.
pub proof fn lemma_tokens_are_accepted(m: Machine, moves: Seq<Move>)
    ensures
        m.after(moves).tokens == m.tokens + accepted(moves),
    decreases moves.len(),
{
    if moves.len() == 0 {
        assert(m.tokens + Seq::<TokenView>::empty() =~= m.tokens);
    } else {
        let m1 = m.moved(moves[0]);
        lemma_tokens_are_accepted(m1, moves.drop_first());
        match moves[0] {
            Move::Accept(t) => {
                assert(m.tokens + (seq![t] + accepted(moves.drop_first())) =~= m.tokens.push(t) + accepted(
                    moves.drop_first(),
                ));
            },
            _ => {},
        }
    }
}

/// Each push and each skip reads one character, and nothing else moves the
/// machine along the input; so a fresh machine is at the end of its input
/// exactly when it has read as many characters as the input holds.
pub proof fn lemma_reads_reach_end(s: Seq<char>, moves: Seq<Move>)
    ensures
        Machine::initial(s).after(moves).index == consumed(moves),
        Machine::initial(s).after(moves).eof() <==> consumed(moves) >= s.len(),
{
    lemma_index_moves(Machine::initial(s), moves);
}

proof fn lemma_index_moves(m: Machine, moves: Seq<Move>)
    ensures
        m.after(moves).index == m.index + consumed(moves),
        m.after(moves).chars == m.chars,
    decreases moves.len(),
{
    if moves.len() > 0 {
        lemma_index_moves(m.moved(moves[0]), moves.drop_first());
    }
}

} // verus!
