use vstd::prelude::*;

verus! {

/// The level of the file itself: no scope is open.
pub const FILE_SCOPE: usize = 0;

/// How deep the analysis is in nested scopes, and whether a scope was just
/// closed.
pub struct Scope {
    pub level: usize,
    pub was_closed: bool,
}

impl Scope {
    pub fn new() -> (s: Scope)
        ensures
            s.level == FILE_SCOPE,
            !s.was_closed,
    {
        Scope { level: FILE_SCOPE, was_closed: false }
    }

    pub fn level(&self) -> (l: usize)
        ensures
            l == self.level,
    {
        self.level
    }

    pub fn open(&mut self)
        requires
            old(self).level < usize::MAX,
        ensures
            final(self).level == old(self).level + 1,
            final(self).was_closed == old(self).was_closed,
    {
        self.level = self.level + 1;
    }

    pub fn close(&mut self)
        requires
            old(self).level > FILE_SCOPE,
        ensures
            final(self).level == old(self).level - 1,
            final(self).was_closed,
    {
        self.level = self.level - 1;
        self.was_closed = true;
    }

    /// Whether a scope was closed since the last call.
    pub fn was_closed(&mut self) -> (b: bool)
        ensures
            b == old(self).was_closed,
            final(self).level == old(self).level,
            !final(self).was_closed,
    {
        if self.was_closed {
            self.was_closed = false;
            true
        } else {
            false
        }
    }
}

} // verus!
