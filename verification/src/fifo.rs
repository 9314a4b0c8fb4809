//! A bounded first-in-first-out byte queue backed by a fixed array, standing
//! for a peripheral's hardware buffer.

use vstd::prelude::*;

verus! {

/// Number of slots in every hardware queue of the peripheral models.
pub const FIFO_DEPTH: usize = 4;

/// A queue of at most `FIFO_DEPTH` bytes. Its view is the queued bytes, the
/// oldest first.
#[derive(Clone, Copy, Debug)]
pub struct Fifo {
    slots: [u8; 4],
    len: usize,
}

impl View for Fifo {
    type V = Seq<u8>;

    closed spec fn view(&self) -> Seq<u8> {
        self.slots@.subrange(0, self.len as int)
    }
}

impl Fifo {
    /// The occupancy never exceeds the depth.
    pub closed spec fn wf(&self) -> bool {
        self.len <= FIFO_DEPTH
    }

    /// A well-formed queue holds between zero and `FIFO_DEPTH` bytes.
    pub proof fn lemma_occupancy_bounded(&self)
        requires
            self.wf(),
        ensures
            0 <= self@.len() <= FIFO_DEPTH,
    {
    }

    pub fn new() -> (fifo: Fifo)
        ensures
            fifo.wf(),
            fifo@ == Seq::<u8>::empty(),
    {
        Fifo { slots: [0; 4], len: 0 }
    }

    pub fn len(&self) -> (n: usize)
        requires
            self.wf(),
        ensures
            n == self@.len(),
            n <= FIFO_DEPTH,
    {
        self.len
    }

    pub fn is_empty(&self) -> (b: bool)
        requires
            self.wf(),
        ensures
            b == (self@.len() == 0),
    {
        self.len == 0
    }

    pub fn is_full(&self) -> (b: bool)
        requires
            self.wf(),
        ensures
            b == (self@.len() == FIFO_DEPTH),
    {
        self.len == FIFO_DEPTH
    }

    /// Appends `byte` behind the bytes already queued.
    pub fn push(&mut self, byte: u8)
        requires
            old(self).wf(),
            old(self)@.len() < FIFO_DEPTH,
        ensures
            final(self).wf(),
            final(self)@ == old(self)@.push(byte),
    {
        self.slots[self.len] = byte;
        self.len = self.len + 1;
        assert(self@ =~= old(self)@.push(byte));
    }

    /// Removes and returns the oldest byte; the others keep their order.
    pub fn pop(&mut self) -> (byte: u8)
        requires
            old(self).wf(),
            old(self)@.len() > 0,
        ensures
            final(self).wf(),
            byte == old(self)@[0],
            final(self)@ == old(self)@.drop_first(),
    {
        let byte = self.slots[0];
        let mut i: usize = 1;
        while i < self.len
            invariant
                1 <= i <= self.len <= FIFO_DEPTH,
                self.len == old(self).len,
                forall|j: int| 0 <= j < i - 1 ==> self.slots@[j] == old(self).slots@[j + 1],
                forall|j: int| i - 1 <= j < FIFO_DEPTH ==> self.slots@[j] == old(self).slots@[j],
            decreases self.len - i,
        {
            self.slots[i - 1] = self.slots[i];
            i = i + 1;
        }
        self.len = self.len - 1;
        assert(self@ =~= old(self)@.drop_first());
        byte
    }
}

} // verus!
