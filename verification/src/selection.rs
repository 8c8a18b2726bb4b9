//! The region selection dragged over the full-screen capture. Pointer
//! positions are measured by the host UI; here a position is any value `P`.

use vstd::prelude::*;

verus! {

/// A region selection: whether a drag is in progress, the corner where it
/// started and the corner that follows the pointer.
pub struct Selection<P> {
    pub selecting: bool,
    pub start: P,
    pub end: P,
}

impl<P> Selection<P> {
    /// No drag in progress; both corners at `start` and `end`.
    pub fn new(start: P, end: P) -> (s: Self)
        ensures
            !s.selecting,
            s.start == start,
            s.end == end,
    {
        Selection { selecting: false, start, end }
    }

    /// The pointer hovers at `pos`: during a drag the far corner follows it.
    pub fn track_pointer(&mut self, pos: P)
        ensures
            final(self).selecting == old(self).selecting,
            final(self).start == old(self).start,
            final(self).end == if old(self).selecting { pos } else { old(self).end },
    {
        if self.selecting {
            self.end = pos;
        }
    }

    /// A drag starts at `pos`: the selection restarts from there, while the far
    /// corner stays where it was until the pointer is next tracked.
    pub fn begin(&mut self, pos: P)
        ensures
            final(self).selecting,
            final(self).start == pos,
            final(self).end == old(self).end,
    {
        self.selecting = true;
        self.start = pos;
    }

    /// The drag is released: the selection is done and its corners are kept for
    /// cropping.
    pub fn release(&mut self)
        ensures
            !final(self).selecting,
            final(self).start == old(self).start,
            final(self).end == old(self).end,
    {
        self.selecting = false;
    }
}

} // verus!
