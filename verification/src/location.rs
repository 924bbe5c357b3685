//! Source locations of parsed items.

use vstd::prelude::*;

verus! {

/// The span of input consumed by a successfully parsed item: the cursor index
/// at which the parse began and the index just past the last consumed
/// character.
#[derive(Clone, Copy, PartialEq, Eq, Structural, Debug)]
pub struct ItemLocation {
    pub start: usize,
    pub end: usize,
}

impl ItemLocation {
    pub fn new(start: usize, end: usize) -> (r: ItemLocation)
        ensures
            r.start == start,
            r.end == end,
    {
        ItemLocation { start, end }
    }

    /// The number of characters the span covers.
    pub fn len(&self) -> (r: usize)
        requires
            self.start <= self.end,
        ensures
            r == self.end - self.start,
    {
        self.end - self.start
    }
}

} // verus!
