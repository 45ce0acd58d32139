//! The selected part of the text.

use vstd::prelude::*;

verus! {

/// An inclusive text range, addressed by absolute line (0 is the oldest of scrollback) and column.
#[derive(Clone, Copy, PartialEq, Eq, Structural, Debug)]
pub struct SelectionRange {
    pub start_line: usize,
    pub start_col: usize,
    pub end_line: usize,
    pub end_col: usize,
}

/// Does one position come no later than another, in reading order?
pub open spec fn no_later(a: (int, int), b: (int, int)) -> bool {
    a.0 < b.0 || (a.0 == b.0 && a.1 <= b.1)
}

impl SelectionRange {
    /// Where the range starts.
    pub open spec fn start(self) -> (int, int) {
        (self.start_line as int, self.start_col as int)
    }

    /// Where the range ends.
    pub open spec fn end(self) -> (int, int) {
        (self.end_line as int, self.end_col as int)
    }

    /// Is a position within the range? Positions are compared in reading order.
    pub open spec fn covers(self, line: int, col: int) -> bool {
        no_later(self.start(), (line, col)) && no_later((line, col), self.end())
    }

    /// Is a position within the range?
    pub fn contains(&self, line: usize, col: usize) -> (r: bool)
        ensures
            r == self.covers(line as int, col as int),
    {
        if line < self.start_line || line > self.end_line {
            return false;
        }
        if self.start_line == self.end_line {
            return col >= self.start_col && col <= self.end_col;
        }
        if line == self.start_line {
            return col >= self.start_col;
        }
        if line == self.end_line {
            return col <= self.end_col;
        }
        true
    }
}

/// A range that starts no later than it ends covers both of its ends, and with two positions every
/// position between them.
pub proof fn selections_have_no_gaps(s: SelectionRange, a: (int, int), b: (int, int), p: (int, int))
    requires
        no_later(s.start(), s.end()),
        s.covers(a.0, a.1),
        s.covers(b.0, b.1),
        no_later(a, p),
        no_later(p, b),
    ensures
        s.covers(s.start().0, s.start().1),
        s.covers(s.end().0, s.end().1),
        s.covers(p.0, p.1),
{
}

/// The lines strictly between the first and the last are covered whole.
pub proof fn inner_lines_are_covered_whole(s: SelectionRange, line: int, col: int)
    requires
        s.start_line < line < s.end_line,
    ensures
        s.covers(line, col),
{
}

} // verus!
