//! Selecting text with the mouse.

use vstd::prelude::*;

use crate::render::selection::no_later;
use crate::render::SelectionRange;
use crate::term::Term;

verus! {

/// A selection: where it was begun, and where the mouse is.
#[derive(Clone, Copy, PartialEq, Eq, Debug)]
pub struct Selection {
    /// Absolute line and column.
    pub anchor: (usize, usize),
    pub head: (usize, usize),
    /// The button is still held.
    pub active: bool,
}

/// A position as plain numbers.
pub open spec fn place(p: (usize, usize)) -> (int, int) {
    (p.0 as int, p.1 as int)
}

/// The range between two positions. A position stands before the cell it points at, so the last
/// cell of the range is one to the left of the later one; in the first column it is that one.
pub open spec fn range_between(a: (usize, usize), b: (usize, usize)) -> Option<SelectionRange> {
    if a == b {
        None
    } else {
        let (start, end) = if no_later(place(a), place(b)) {
            (a, b)
        } else {
            (b, a)
        };
        Some(
            SelectionRange {
                start_line: start.0,
                start_col: start.1,
                end_line: end.0,
                end_col: if end.1 == 0 {
                    0
                } else {
                    (end.1 - 1) as usize
                },
            },
        )
    }
}

/// Are two cells the same?
pub fn same_cell(a: (usize, usize), b: (usize, usize)) -> (r: bool)
    ensures
        r == (a == b),
{
    a.0 == b.0 && a.1 == b.1
}

impl Selection {
    /// The cells that are selected; none if the mouse is where it was.
    pub fn range(&self) -> (r: Option<SelectionRange>)
        ensures
            r == range_between(self.anchor, self.head),
    {
        let (a, b) = (self.anchor, self.head);
        if same_cell(a, b) {
            return None;
        }
        let (start, end) = if a.0 < b.0 || (a.0 == b.0 && a.1 <= b.1) {
            (a, b)
        } else {
            (b, a)
        };
        Some(
            SelectionRange {
                start_line: start.0,
                start_col: start.1,
                end_line: end.0,
                end_col: if end.1 == 0 {
                    0
                } else {
                    end.1 - 1
                },
            },
        )
    }
}

/// The text that is selected.
pub fn selection_text(selection: &Option<Selection>, term: &Term) -> (s: Option<String>)
    requires
        term.wf(),
    ensures
        match *selection {
            Some(sel) => match range_between(sel.anchor, sel.head) {
                Some(r) => s is Some && s->0@ == term@.text_range(r.start(), r.end()),
                None => s is None,
            },
            None => s is None,
        },
{
    match selection {
        Some(sel) => match sel.range() {
            Some(r) => Some(term.text_range(r.start_line, r.start_col, r.end_line, r.end_col)),
            None => None,
        },
        None => None,
    }
}

/// Dragging from one place to another selects what dragging back does.
pub proof fn selections_have_no_direction(a: (usize, usize), b: (usize, usize))
    ensures
        range_between(a, b) == range_between(b, a),
{
}

/// A drag to the right along a line selects the cells from the first place up to, but not with, the
/// second.
pub proof fn selections_end_before_the_mouse(a: (usize, usize), b: (usize, usize), col: int)
    requires
        a.0 == b.0,
        a.1 < b.1,
    ensures
        range_between(a, b) is Some,
        range_between(a, b)->0.covers(a.0 as int, col) <==> a.1 <= col < b.1,
{
}

} // verus!
