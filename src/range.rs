use vstd::prelude::*;

verus! {

/// A selection span: `anchor` is the fixed end, `head` the active (cursor) end.
#[derive(Clone, Copy, Debug, PartialEq, Eq, Structural)]
pub struct Range {
    pub anchor: usize,
    pub head: usize,
}

impl Range {
    pub fn new(anchor: usize, head: usize) -> (r: Range)
        ensures
            r.anchor == anchor,
            r.head == head,
    {
        Range { anchor, head }
    }

    pub fn point(pos: usize) -> (r: Range)
        ensures
            r.anchor == pos,
            r.head == pos,
    {
        Range { anchor: pos, head: pos }
    }

    /// Number of characters between the two ends.
    pub open spec fn width(self) -> int {
        if self.head >= self.anchor {
            self.head - self.anchor
        } else {
            self.anchor - self.head
        }
    }
}

/// How a motion treats the selection it starts from.
#[derive(Clone, Copy, Debug, PartialEq, Eq, Structural)]
pub enum Movement {
    /// The motion replaces the selection.
    Move,
    /// The motion grows or shrinks the selection, keeping its anchor side.
    Extend,
}

} // verus!
