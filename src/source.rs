//! The source reader: the bytes being scanned and the read cursor.
use vstd::prelude::*;
use crate::scan::peek;

verus! {

/// An immutable byte buffer and the position of the first byte not yet
/// consumed.
pub struct Source {
    bytes: Vec<u8>,
    pos: usize,
}

impl Source {
    pub closed spec fn bytes(&self) -> Seq<u8> {
        self.bytes@
    }

    pub closed spec fn pos(&self) -> int {
        self.pos as int
    }

    /// The cursor lies within the buffer, and every offset fits in `u32`.
    pub open spec fn wf(&self) -> bool {
        0 <= self.pos() <= self.bytes().len() <= u32::MAX
    }

    pub fn new(text: &[u8]) -> (r: Source)
        requires
            text@.len() <= u32::MAX,
        ensures
            r.bytes() == text@,
            r.pos() == 0,
            r.wf(),
    {
        let mut bytes: Vec<u8> = Vec::with_capacity(text.len());
        let mut i: usize = 0;
        while i < text.len()
            invariant
                i <= text@.len(),
                bytes@ == text@.subrange(0, i as int),
            decreases text@.len() - i,
        {
            bytes.push(text[i]);
            i = i + 1;
        }
        assert(bytes@ == text@);
        Source { bytes, pos: 0 }
    }

    /// The cursor as a byte offset.
    pub fn offset(&self) -> (r: u32)
        requires
            self.wf(),
        ensures
            r == self.pos(),
    {
        self.pos as u32
    }

    /// The cursor as an index.
    pub fn position(&self) -> (r: usize)
        ensures
            r == self.pos(),
    {
        self.pos
    }

    pub fn len(&self) -> (r: usize)
        ensures
            r == self.bytes().len(),
    {
        self.bytes.len()
    }

    /// The byte at `k`, or 0 at or past the end.
    pub fn peek_at(&self, k: usize) -> (r: u8)
        ensures
            r == peek(self.bytes(), k as int),
    {
        if k < self.bytes.len() {
            self.bytes[k]
        } else {
            0
        }
    }

    /// Moves the cursor forward to the absolute offset `pos`.
    pub fn advance_to(&mut self, pos: usize)
        requires
            old(self).pos() <= pos <= old(self).bytes().len(),
        ensures
            final(self).bytes() == old(self).bytes(),
            final(self).pos() == pos,
    {
        self.pos = pos;
    }

    /// Moves the cursor back by exactly `n` bytes.
    pub fn back(&mut self, n: usize)
        requires
            n <= old(self).pos(),
        ensures
            final(self).bytes() == old(self).bytes(),
            final(self).pos() == old(self).pos() - n,
    {
        self.pos = self.pos - n;
    }
}

} // verus!
