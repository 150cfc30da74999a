//! A cheap, clonable cursor over a sequence of characters.  Cloning the
//! cursor and later discarding the clone is how the lexer and the parser
//! speculate: a clone reads ahead without committing the original.

use vstd::prelude::*;

verus! {

/// A cursor over a vector of characters.  `pos` counts the items already
/// produced, so the next item produced is `items[pos]`; `current` caches
/// what the most recent call of `next` produced.
#[derive(Debug, Clone)]
pub struct CurrentIterator {
    pub items: Vec<char>,
    pub pos: usize,
    pub current: Option<char>,
}

impl CurrentIterator {
    /// The cursor is within bounds.
    pub open spec fn wf(self) -> bool {
        self.pos <= self.items@.len()
    }

    pub fn new(items: Vec<char>) -> (r: CurrentIterator)
        ensures
            r.items@ == items@,
            r.pos == 0,
            r.current is None,
            r.wf(),
    {
        CurrentIterator { items, pos: 0, current: None }
    }

    /// The item the most recent call of `next` produced: `None` before the
    /// first call, and `None` again once `next` has run off the end.
    pub fn current(&self) -> (r: Option<char>)
        ensures
            r == self.current,
    {
        self.current
    }

    /// Produces the next item and advances, or returns `None` at the end;
    /// either way the result is remembered for `current`.
    pub fn next(&mut self) -> (r: Option<char>)
        requires
            old(self).wf(),
        ensures
            final(self).items@ == old(self).items@,
            final(self).wf(),
            final(self).current == r,
            old(self).pos < old(self).items@.len() ==> {
                &&& r == Some(old(self).items@[old(self).pos as int])
                &&& final(self).pos == old(self).pos + 1
            },
            old(self).pos >= old(self).items@.len() ==> {
                &&& r is None
                &&& final(self).pos == old(self).pos
            },
    {
        if self.pos < self.items.len() {
            let c = self.items[self.pos];
            self.pos = self.pos + 1;
            self.current = Some(c);
            Some(c)
        } else {
            self.current = None;
            None
        }
    }
}

} // verus!
