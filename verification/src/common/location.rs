use vstd::prelude::*;

verus! {

/// A position in a template: a zero-based line and a zero-based column
/// (counted in characters).
#[derive(Debug, PartialEq, Eq, Clone, Copy, Structural)]
pub struct Location {
    pub line: usize,
    pub column: usize,
}

impl Location {
    pub open spec fn at(line: usize, column: usize) -> Location {
        Location { line, column }
    }

    pub fn new(line: usize, column: usize) -> (loc: Location)
        ensures
            loc == Location::at(line, column),
    {
        Location { line, column }
    }

    /// Moves to the start of the next line.
    pub fn newline(&mut self)
        requires
            old(self).line < usize::MAX,
        ensures
            *final(self) == Location::at((old(self).line + 1) as usize, 0),
    {
        self.line = self.line + 1;
        self.column = 0;
    }

    /// Moves one column to the right.
    pub fn shift(&mut self)
        requires
            old(self).column < usize::MAX,
        ensures
            *final(self) == Location::at(old(self).line, (old(self).column + 1) as usize),
    {
        self.column = self.column + 1;
    }

    pub fn line(&self) -> (l: usize)
        ensures
            l == self.line,
    {
        self.line
    }

    pub fn column(&self) -> (c: usize)
        ensures
            c == self.column,
    {
        self.column
    }
}

impl vstd::std_specs::convert::FromSpecImpl<(usize, usize)> for Location {
    open spec fn obeys_from_spec() -> bool {
        true
    }

    open spec fn from_spec(v: (usize, usize)) -> Location {
        Location::at(v.0, v.1)
    }
}

impl From<(usize, usize)> for Location {
    fn from(pair: (usize, usize)) -> (loc: Location) {
        Location { line: pair.0, column: pair.1 }
    }
}

} // verus!
