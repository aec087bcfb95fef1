use vstd::prelude::*;

verus! {

/// A span of source text inside one translation unit.
///
/// Syntax nodes are shared between many owners in a compiler, so units and
/// nodes are addressed by stable integer handles rather than by pointers;
/// a `Location` names its compilation unit through such a handle and keeps
/// the first and last character positions of the span.
#[derive(Clone, Copy, PartialEq, Eq, Structural, Hash, Debug)]
pub struct Location {
    /// Handle of the compilation unit this span belongs to.
    pub compilation_unit: u64,
    /// Position of the first character of the span.
    pub first_offset: usize,
    /// Position one past the last character of the span.
    pub last_offset: usize,
}

impl Location {
    /// A span never ends before it starts.
    pub open spec fn wf(&self) -> bool {
        self.first_offset <= self.last_offset
    }

    /// Number of characters the span covers.
    pub fn character_count(&self) -> (r: usize)
        requires
            self.wf(),
        ensures
            r == self.last_offset - self.first_offset,
    {
        self.last_offset - self.first_offset
    }
}

/// A comment collected while scanning a compilation unit's source.
#[derive(Debug)]
pub struct Comment {
    /// Whether the comment used the multi-line form.
    pub multiline: bool,
    /// The comment's text, without its delimiters.
    pub content: String,
    /// Where the comment stands in the source.
    pub location: Location,
}

} // verus!
