use vstd::prelude::*;
use crate::kind::Kind;

verus! {

/// A classified unit of lexical output: its kind and the half-open byte
/// range `[start, end)` it covers in the source.
#[derive(Clone, Copy, Debug, PartialEq, Eq, Structural)]
pub struct Token {
    pub kind: Kind,
    pub start: u32,
    pub end: u32,
}

impl Token {
    pub open spec fn width(self) -> int {
        self.end - self.start
    }

    /// Byte width of the token.
    pub fn len(&self) -> (r: u32)
        requires
            self.start <= self.end,
        ensures
            r == self.width(),
    {
        self.end - self.start
    }
}

} // verus!
