use vstd::prelude::*;

use crate::position::Position;

verus! {

/// The 1-based line number of the character at index `i` of `s`: one more
/// than the number of newline characters strictly before `i`.
pub open spec fn spec_line_at(s: Seq<char>, i: int) -> int
    decreases i,
{
    if i <= 0 {
        1
    } else {
        spec_line_at(s, i - 1) + if s[i - 1] == '\n' {
            1int
        } else {
            0int
        }
    }
}

/// The 1-based column of the character at index `i` of `s`: columns restart
/// at 1 just after each newline character.
pub open spec fn spec_col_at(s: Seq<char>, i: int) -> int
    decreases i,
{
    if i <= 0 {
        1
    } else if s[i - 1] == '\n' {
        1
    } else {
        spec_col_at(s, i - 1) + 1
    }
}

/// The position of the character at index `i` of `s`.
pub open spec fn spec_pos_at(s: Seq<char>, i: int) -> Position {
    Position { line: spec_line_at(s, i) as usize, col: spec_col_at(s, i) as usize }
}

/// Line and column at an index are at least 1 and at most `i + 1`.
pub proof fn lemma_pos_bounds(s: Seq<char>, i: int)
    requires
        0 <= i,
    ensures
        1 <= spec_line_at(s, i) <= i + 1,
        1 <= spec_col_at(s, i) <= i + 1,
    decreases i,
{
    if i > 0 {
        lemma_pos_bounds(s, i - 1);
    }
}

/// Walking forward through the text never makes the (line, column) pair
/// smaller in lexicographic order.
pub proof fn lemma_pos_monotonic(s: Seq<char>, i: int, j: int)
    requires
        0 <= i <= j,
    ensures
        spec_line_at(s, i) <= spec_line_at(s, j),
        spec_line_at(s, i) == spec_line_at(s, j) ==> spec_col_at(s, i) <= spec_col_at(s, j),
    decreases j - i,
{
    if i < j {
        lemma_pos_monotonic(s, i, j - 1);
        lemma_pos_bounds(s, j - 1);
    }
}

/// A cursor over an in-memory source text: the current character, one
/// character of lookahead, and the 1-based position of the current character.
/// Once exhausted it stays exhausted.
pub struct SourceCursor {
    pub text: String,
    pub idx: usize,
    pub line: usize,
    pub col: usize,
}

impl SourceCursor {
    /// The cursor's line and column agree with the position computed from the
    /// text prefix before the current index.
    pub open spec fn inv(self) -> bool {
        &&& self.idx <= self.text@.len()
        &&& self.text@.len() < usize::MAX
        &&& self.line == spec_line_at(self.text@, self.idx as int)
        &&& self.col == spec_col_at(self.text@, self.idx as int)
    }

    pub open spec fn spec_remaining(self) -> int {
        self.text@.len() - self.idx
    }

    pub fn new(text: String) -> (r: Self)
        requires
            text@.len() < usize::MAX,
        ensures
            r.inv(),
            r.text@ == text@,
            r.idx == 0,
    {
        Self { text, idx: 0, line: 1, col: 1 }
    }

    /// The current character, or `None` once the text is exhausted.
    pub fn current(&self) -> (r: Option<char>)
        requires
            self.inv(),
        ensures
            r == if self.idx < self.text@.len() {
                Some(self.text@[self.idx as int])
            } else {
                Option::<char>::None
            },
    {
        if self.idx < self.text.as_str().unicode_len() {
            Some(self.text.as_str().get_char(self.idx))
        } else {
            None
        }
    }

    /// One character of lookahead past the current one.
    pub fn peek(&self) -> (r: Option<char>)
        requires
            self.inv(),
        ensures
            r == if self.idx + 1 < self.text@.len() {
                Some(self.text@[self.idx as int + 1])
            } else {
                Option::<char>::None
            },
    {
        if self.idx + 1 < self.text.as_str().unicode_len() {
            Some(self.text.as_str().get_char(self.idx + 1))
        } else {
            None
        }
    }

    /// The position of the current character.
    pub fn position(&self) -> (r: Position)
        requires
            self.inv(),
        ensures
            r == spec_pos_at(self.text@, self.idx as int),
    {
        Position { line: self.line, col: self.col }
    }

    /// Move one character forward and return the new current character;
    /// at the end of the text the cursor does not move.
    pub fn advance(&mut self) -> (r: Option<char>)
        requires
            old(self).inv(),
        ensures
            final(self).inv(),
            final(self).text@ == old(self).text@,
            old(self).idx < old(self).text@.len() ==> final(self).idx == old(self).idx + 1,
            old(self).idx >= old(self).text@.len() ==> final(self).idx == old(self).idx,
            r == if final(self).idx < final(self).text@.len() {
                Some(final(self).text@[final(self).idx as int])
            } else {
                Option::<char>::None
            },
    {
        let len = self.text.as_str().unicode_len();
        if self.idx < len {
            let c = self.text.as_str().get_char(self.idx);
            proof {
                lemma_pos_bounds(self.text@, self.idx as int);
            }
            if c == '\n' {
                self.line = self.line + 1;
                self.col = 1;
            } else {
                self.col = self.col + 1;
            }
            self.idx = self.idx + 1;
        }
        self.current()
    }

    /// The text between two indices, as an owned string.
    pub fn substring(&self, from: usize, to: usize) -> (r: String)
        requires
            self.inv(),
            from <= to <= self.text@.len(),
        ensures
            r@ == self.text@.subrange(from as int, to as int),
    {
        self.text.as_str().substring_char(from, to).to_owned()
    }
}

} // verus!
