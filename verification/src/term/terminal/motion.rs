//! Moving the cursor, and changing screens.

use vstd::prelude::*;

use super::super::cell::Pen;
use super::super::cursor::{Cursor, CursorShape};
use super::super::grid::max_cols;
use super::super::mode::TermMode;
use super::super::model::{back_tab_column, min, stop_before, stop_from, tab_column, TermView};
use super::{default_tabs, Term};

verus! {

/// The smaller of two numbers.
pub(crate) fn lesser(a: usize, b: usize) -> (m: usize)
    ensures
        m == min(a as int, b as int),
{
    if b < a {
        b
    } else {
        a
    }
}

impl Term {
    /// Topmost and bottommost addressable rows, respecting DECOM.
    pub(super) fn bounds(&self) -> (b: (usize, usize))
        requires
            self.wf(),
        ensures
            (b.0 as int, b.1 as int) == self@.bounds(),
    {
        if self.mode.contains(TermMode::ORIGIN) {
            (self.scroll_top, self.scroll_bot)
        } else {
            (0, self.rows() - 1)
        }
    }

    pub(super) fn goto(&mut self, x: usize, y: usize)
        requires
            old(self).wf(),
            y <= u16::MAX,
        ensures
            final(self).wf(),
            final(self)@ == old(self)@.goto(x as int, y as int),
    {
        let (top, bot) = self.bounds();
        self.cursor.x = lesser(x, self.cols() - 1);
        self.cursor.y = lesser(top + y, bot);
        self.cursor.wrap_pending = false;
        self.dirty = true;
    }

    pub(super) fn move_up(&mut self, n: usize)
        requires
            old(self).wf(),
        ensures
            final(self).wf(),
            final(self)@ == old(self)@.move_up(n as int),
    {
        let (top, _) = self.bounds();
        let y: usize = self.cursor.y;
        self.cursor.y = if y < n || y - n < top {
            top
        } else {
            y - n
        };
        self.cursor.wrap_pending = false;
    }

    pub(super) fn move_down(&mut self, n: usize)
        requires
            old(self).wf(),
            n <= u16::MAX,
        ensures
            final(self).wf(),
            final(self)@ == old(self)@.move_down(n as int),
    {
        let (_, bot) = self.bounds();
        self.cursor.y = lesser(self.cursor.y + n, bot);
        self.cursor.wrap_pending = false;
    }

    pub(super) fn move_left(&mut self, n: usize)
        requires
            old(self).wf(),
        ensures
            final(self).wf(),
            final(self)@ == old(self)@.move_left(n as int),
    {
        let x: usize = self.cursor.x;
        self.cursor.x = if x < n {
            0
        } else {
            x - n
        };
        self.cursor.wrap_pending = false;
    }

    pub(super) fn move_right(&mut self, n: usize)
        requires
            old(self).wf(),
            n <= u16::MAX,
        ensures
            final(self).wf(),
            final(self)@ == old(self)@.move_right(n as int),
    {
        self.cursor.x = lesser(self.cursor.x + n, self.cols() - 1);
        self.cursor.wrap_pending = false;
    }

    pub(super) fn tab(&mut self, n: usize)
        requires
            old(self).wf(),
        ensures
            final(self).wf(),
            final(self)@ == old(self)@.tab(n as int),
    {
        let cols: usize = self.cols();
        let count: usize = if n < 1 {
            1
        } else {
            n
        };
        let start: usize = self.cursor.x;
        let mut at: usize = start;
        let mut done: usize = 0;
        while done < count
            invariant
                self.wf(),
                cols == self@.cols(),
                done <= count,
                0 <= at <= max_cols(),
                at == tab_column(self@.tabs, start as int, done as nat),
            decreases count - done,
        {
            let mut x: usize = at + 1;
            while x < cols && !self.tabs[x]
                invariant
                    self.wf(),
                    cols == self@.cols(),
                    at + 1 <= x,
                    x <= cols || x == at + 1,
                    stop_from(self@.tabs, x as int) == stop_from(self@.tabs, at + 1),
                decreases cols - x,
            {
                x += 1;
            }
            at = lesser(x, cols - 1);
            done += 1;
        }
        self.cursor.x = at;
        self.cursor.wrap_pending = false;
    }

    pub(super) fn back_tab(&mut self, n: usize)
        requires
            old(self).wf(),
        ensures
            final(self).wf(),
            final(self)@ == old(self)@.back_tab(n as int),
    {
        let cols: usize = self.cols();
        let count: usize = if n < 1 {
            1
        } else {
            n
        };
        let start: usize = self.cursor.x;
        let mut at: usize = start;
        let mut done: usize = 0;
        while done < count
            invariant
                self.wf(),
                cols == self@.cols(),
                done <= count,
                0 <= at <= max_cols(),
                at == back_tab_column(self@.tabs, start as int, done as nat),
            decreases count - done,
        {
            let from: usize = lesser(at, cols);
            let mut x: usize = from;
            while x > 0 && !self.tabs[x - 1]
                invariant
                    self.wf(),
                    cols == self@.cols(),
                    x <= from <= cols,
                    stop_before(self@.tabs, x as int) == stop_before(self@.tabs, from as int),
                decreases x,
            {
                x -= 1;
            }
            if x > 0 {
                x -= 1;
            }
            at = x;
            done += 1;
        }
        self.cursor.x = at;
        self.cursor.wrap_pending = false;
    }

    pub(super) fn save_cursor(&mut self)
        requires
            old(self).wf(),
        ensures
            final(self).wf(),
            final(self)@ == old(self)@.save_cursor(),
    {
        self.saved_cursor = self.cursor;
    }

    pub(super) fn restore_cursor(&mut self)
        requires
            old(self).wf(),
        ensures
            final(self).wf(),
            final(self)@ == old(self)@.restore_cursor(),
    {
        self.cursor = self.saved_cursor;
    }

    pub(super) fn set_alt_screen(&mut self, enable: bool, save_restore: bool)
        requires
            old(self).wf(),
        ensures
            final(self).wf(),
            final(self)@ == old(self)@.set_alt_screen(enable, save_restore),
    {
        proof {
            reveal(TermView::set_alt_screen);
        }
        let on_alt = self.mode.contains(TermMode::ALT_SCREEN);
        if enable == on_alt {
            return ;
        }
        core::mem::swap(&mut self.grid, &mut self.inactive);
        self.mode = self.mode.set(TermMode::ALT_SCREEN, enable);
        if enable {
            let pen = self.cursor.pen;
            self.grid.clear_all(&pen);
            if save_restore {
                self.saved_cursor = self.cursor;
                self.cursor = Cursor::home(pen);
            }
        } else {
            self.saved_cursor_alt = self.cursor;
            if save_restore {
                self.cursor = self.saved_cursor;
            }
        }
        self.grid.damage_all();
        self.dirty = true;
    }

    pub(super) fn full_reset(&mut self)
        requires
            old(self).wf(),
        ensures
            final(self).wf(),
            final(self)@ == old(self)@.full_reset(),
    {
        proof {
            reveal(TermView::full_reset);
            reveal(TermView::set_alt_screen);
        }
        let rows: usize = self.rows();
        let cols: usize = self.cols();
        self.set_alt_screen(false, false);
        self.cursor = Cursor::default();
        self.saved_cursor = Cursor::default();
        self.mode = TermMode::default();
        self.cursor_shape = CursorShape::Block;
        self.cursor_blinks = true;
        self.scroll_top = 0;
        self.scroll_bot = rows - 1;
        self.tabs = default_tabs(cols);
        self.clusters.clear();
        self.underline_colors.clear();
        let pen = Pen::default();
        self.grid.clear_all(&pen);
        self.grid.clear_history();
        self.inactive.clear_all(&pen);
        self.dirty = true;
    }
}

} // verus!
