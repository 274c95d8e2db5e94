use vstd::prelude::*;

verus! {

/// A source position: 1-based line and column of a character in the input
/// text.
#[derive(Clone, Copy, Debug, PartialEq, Eq, Structural)]
pub struct Position {
    pub line: usize,
    pub col: usize,
}

impl Position {
    pub fn new(line: usize, col: usize) -> (r: Self)
        ensures
            r.line == line,
            r.col == col,
    {
        Self { line, col }
    }

    /// Lexicographic order on (line, column): the order in which positions
    /// occur in the source text.
    pub open spec fn spec_le(self, other: Self) -> bool {
        self.line < other.line || (self.line == other.line && self.col <= other.col)
    }
}

} // verus!
