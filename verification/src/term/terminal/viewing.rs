//! Size, viewport and text.

use vstd::prelude::*;

use super::super::cell::{Cell, CellFlags};
use super::super::cursor::Cursor;
use super::super::grid::{
    at_least_one, lemma_reflowed_on_screen, max_cols, max_lines, trimmed_count, Grid,
};
use super::super::mode::TermMode;
use super::super::model::min;
use super::motion::lesser;
use super::{default_tabs, Term};
use crate::text::push_all;

verus! {

/// Resize the screen in use and the other one; answer where the cursor then is.
fn resize_screens(
    grid: &mut Grid,
    inactive: &mut Grid,
    on_alt: bool,
    cols: usize,
    rows: usize,
    cursor: &Cursor,
) -> (at: (usize, usize))
    requires
        old(grid).wf(),
        old(inactive).wf(),
        1 <= cols <= max_cols(),
        1 <= rows,
        cols != old(grid)@.cols || rows != old(grid)@.rows,
        rows + old(grid)@.max_scrollback <= max_lines(),
        rows + old(inactive)@.max_scrollback <= max_lines(),
    ensures
        final(grid).wf(),
        final(inactive).wf(),
        final(grid)@.cols == cols,
        final(grid)@.rows == rows,
        final(inactive)@.cols == cols,
        final(inactive)@.rows == rows,
        at.0 < cols,
        at.1 < rows,
        final(grid)@ == (if on_alt {
            old(grid)@.resized(cols as int, rows as int, cursor.pen)
        } else {
            old(grid)@.reflowed(cols as int, rows as int)
        }),
        final(inactive)@ == (if on_alt {
            old(inactive)@.reflowed(cols as int, rows as int)
        } else {
            old(inactive)@.resized(cols as int, rows as int, cursor.pen)
        }),
        (at.0 as int, at.1 as int) == (if on_alt {
            (min(cursor.x as int, cols - 1), min(cursor.y as int, rows - 1))
        } else {
            old(grid)@.reflowed_position(cursor.x as int, cursor.y as int, cols as int, rows as int)
        }),
{
    let at: (usize, usize) = (cursor.x, cursor.y);
    if on_alt {
        grid.resize(cols, rows, &cursor.pen);
        let _ = inactive.reflow(cols, rows, &cursor.pen, at);
        (lesser(cursor.x, cols - 1), lesser(cursor.y, rows - 1))
    } else {
        proof {
            lemma_reflowed_on_screen(
                grid@,
                cursor.x as int,
                cursor.y as int,
                cols as int,
                rows as int,
            );
        }
        let moved = grid.reflow(cols, rows, &cursor.pen, at);
        inactive.resize(cols, rows, &cursor.pen);
        moved
    }
}

impl Term {
    /// Take another size.
    ///
    /// The alternate screen belongs to a full-screen application that will redraw it from scratch.
    /// Re-wrapping it would only scramble a frame that is about to be replaced, so it is resized
    /// plainly; the primary screen, which holds the user's history, is reflowed.
    pub fn resize(&mut self, cols: usize, rows: usize)
        requires
            old(self).wf(),
            cols <= max_cols(),
            at_least_one(rows) + old(self)@.grid.max_scrollback <= max_lines(),
            at_least_one(rows) + old(self)@.inactive.max_scrollback <= max_lines(),
        ensures
            final(self).wf(),
            final(self)@ == old(self)@.resized(at_least_one(cols), at_least_one(rows)),
    {
        let cols: usize = if cols < 1 {
            1
        } else {
            cols
        };
        let rows: usize = if rows < 1 {
            1
        } else {
            rows
        };
        if cols == self.cols() && rows == self.rows() {
            return ;
        }
        let on_alt = self.mode.contains(TermMode::ALT_SCREEN);
        let (x, y) = resize_screens(
            &mut self.grid,
            &mut self.inactive,
            on_alt,
            cols,
            rows,
            &self.cursor,
        );
        self.cursor.x = x;
        self.cursor.y = y;
        self.tabs = default_tabs(cols);
        self.scroll_top = 0;
        self.scroll_bot = rows - 1;
        self.cursor.wrap_pending = false;
        self.dirty = true;
    }

    /// Move the viewport `delta` lines (positive scrolls towards history).
    pub fn scroll_display(&mut self, delta: isize)
        requires
            old(self).wf(),
        ensures
            final(self).wf(),
            final(self)@ == old(self)@.scroll_display(delta as int),
    {
        if self.grid.scroll_display(delta) {
            self.dirty = true;
        }
    }

    /// Bring the viewport back to the live screen.
    pub fn scroll_to_bottom(&mut self)
        requires
            old(self).wf(),
        ensures
            final(self).wf(),
            final(self)@ == old(self)@.scroll_display(-old(self)@.grid.display_offset),
    {
        if self.grid.scroll_to_bottom() {
            self.dirty = true;
        }
    }

    /// Append the text of some cells.
    fn push_text(&self, s: &mut String, cells: &[Cell])
        ensures
            final(s)@ == old(s)@ + self@.text_of(cells@),
    {
        let ghost before = s@;
        let mut i: usize = 0;
        assert(cells@.take(0) =~= Seq::<Cell>::empty());
        while i < cells.len()
            invariant
                i <= cells@.len(),
                s@ == before + self@.text_of(cells@.take(i as int)),
            decreases cells@.len() - i,
        {
            let ghost so_far = s@;
            let c = cells[i];
            proof {
                assert(cells@.take(i + 1).drop_last() =~= cells@.take(i as int));
                assert(cells@.take(i + 1).last() == c);
            }
            if !c.flags.contains(CellFlags::WIDE_SPACER) {
                let chars = self.characters(&c);
                push_all(s, chars.as_slice());
                assert(s@ =~= before + (self@.text_of(cells@.take(i as int)) + chars@));
            }
            i += 1;
        }
        assert(cells@.take(i as int) =~= cells@);
    }

    /// The text of a line without its trailing blanks, for clipboard use.
    pub fn line_text(&self, absolute: usize) -> (s: String)
        requires
            self.wf(),
        ensures
            s@ == self@.line_text(absolute as int),
    {
        let row = self.grid.line(absolute);
        let n: usize = row.trimmed_len();
        let cells = &row.cells()[0..n];
        assert(cells@ =~= row@.cells.take(n as int));
        let mut s = String::new();
        self.push_text(&mut s, cells);
        assert(s@ =~= self@.line_text(absolute as int));
        s
    }

    /// Text between two absolute positions, inclusive.
    ///
    /// Lines joined by autowrap are emitted without a newline: the user selected one logical line,
    /// so that is what lands on the clipboard.
    pub fn text_range(
        &self,
        start_line: usize,
        start_col: usize,
        end_line: usize,
        end_col: usize,
    ) -> (s: String)
        requires
            self.wf(),
            end_col < usize::MAX,
        ensures
            s@ == self@.text_range(
                (start_line as int, start_col as int),
                (end_line as int, end_col as int),
            ),
    {
        let total: usize = self.grid.total_lines();
        let mut out = String::new();
        if start_line >= total {
            return out;
        }
        let last: usize = lesser(end_line, total - 1);
        let ghost start = (start_line as int, start_col as int);
        let ghost end = (last as int, end_col as int);
        let mut line: usize = start_line;
        while line <= last
            invariant
                self.wf(),
                end_col < usize::MAX,
                total == self@.grid.total(),
                last < total,
                total <= max_lines(),
                start == (start_line as int, start_col as int),
                end == (last as int, end_col as int),
                start_line <= line <= max_lines(),
                line <= last + 1 || line == start_line,
                out@ == self@.lines_text(start, end, line as int),
            decreases last + 1 - line,
        {
            let ghost so_far = out@;
            self.push_line_part(&mut out, line, (start_line, start_col), (last, end_col));
            line += 1;
        }
        out
    }

    /// Append what one line contributes to a range of text.
    fn push_line_part(
        &self,
        out: &mut String,
        line: usize,
        start: (usize, usize),
        end: (usize, usize),
    )
        requires
            self.wf(),
            end.1 < usize::MAX,
        ensures
            final(out)@ == old(out)@ + self@.line_part(
                line as int,
                (start.0 as int, start.1 as int),
                (end.0 as int, end.1 as int),
            ),
    {
        let ghost before = out@;
        let row = self.grid.line(line);
        let cells = row.cells();
        let from: usize = if line == start.0 {
            start.1
        } else {
            0
        };
        let to: usize = if line == end.0 {
            lesser(end.1 + 1, cells.len())
        } else {
            cells.len()
        };
        let ghost mut part: Seq<char> = Seq::empty();
        if from < to {
            // Trailing blanks on a line are padding, not content, except on the last line of the
            // selection, where the user chose the extent.
            let slice = &cells[from..to];
            let keep: usize = if line == end.0 {
                slice.len()
            } else {
                trimmed_count(slice)
            };
            let kept = &slice[0..keep];
            proof {
                assert(slice@ =~= row@.cells.subrange(from as int, to as int));
                assert(kept@ =~= slice@.take(keep as int));
                assert(slice@.take(slice@.len() as int) =~= slice@);
                part = self@.text_of(kept@);
            }
            self.push_text(out, kept);
        }
        assert(out@ =~= before + part);
        // A wrapped line continues into the next one; no break belongs here.
        if line != end.0 && !row.is_wrapped() {
            out.push('\n');
            assert(out@ =~= before + part.push('\n'));
        }
    }
}

} // verus!
