//! The compiled token pattern: the pair of delimiter strings, held as bytes
//! and matched literally, with the token key captured non-greedily between
//! them.

use vstd::prelude::*;

verus! {

/// A token-matching pattern. A token is the shortest span of bytes that
/// starts with `before`, ends with `after`, and wraps the token key between
/// them. Both delimiters are taken literally, byte for byte.
pub struct Pattern {
    pub before: Vec<u8>,
    pub after: Vec<u8>,
}

impl Pattern {
    /// A pattern is well-formed when the delimiters are not both empty;
    /// otherwise the empty token would match everywhere without consuming
    /// anything.
    pub open spec fn wf(self) -> bool {
        self.before@.len() + self.after@.len() >= 1
    }

    /// Compile the two delimiter strings into a pattern. Construction never
    /// fails; no byte of either delimiter is treated specially.
    pub fn new(before: Vec<u8>, after: Vec<u8>) -> (p: Pattern)
        ensures
            p.before@ == before@,
            p.after@ == after@,
    {
        Pattern { before, after }
    }
}

} // verus!
