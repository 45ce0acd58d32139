//! Erasing and editing.

use vstd::prelude::*;

use super::super::cell::Cell;
use super::super::grid::lemma_wrap_is_mod;
use super::super::model::TermView;
use super::motion::lesser;
use super::Term;

verus! {

impl Term {
    pub(super) fn erase_in_line(&mut self, mode: u16)
        requires
            old(self).wf(),
        ensures
            final(self).wf(),
            final(self)@ == old(self)@.erase_in_line(mode),
    {
        let x: usize = self.cursor.x;
        let y: usize = self.cursor.y;
        let cols: usize = self.cols();
        let blank = Cell::blank(&self.cursor.pen);
        let (from, to): (usize, usize) = match mode {
            1 => (0, lesser(x + 1, cols)),
            2 => (0, cols),
            _ => (lesser(x, cols), cols),
        };
        proof {
            lemma_wrap_is_mod(y as int, self@.grid.cap());
        }
        let row = self.grid.row_mut(y);
        row.fill(from, to, blank);
        row.set_wrapped(false);
        self.dirty = true;
    }

    /// Cursor to end of screen.
    fn erase_below(&mut self)
        requires
            old(self).wf(),
        ensures
            final(self).wf(),
            final(self)@ == old(self)@.erase_below(),
    {
        let y: usize = self.cursor.y;
        let blank = Cell::blank(&self.cursor.pen);
        self.erase_in_line(0);
        self.grid.fill_lines(y + 1, self.rows(), blank);
    }

    /// Beginning of screen to cursor.
    fn erase_above(&mut self)
        requires
            old(self).wf(),
        ensures
            final(self).wf(),
            final(self)@ == old(self)@.erase_above(),
    {
        let blank = Cell::blank(&self.cursor.pen);
        self.grid.fill_lines(0, self.cursor.y, blank);
        self.erase_in_line(1);
    }

    pub(super) fn erase_in_display(&mut self, mode: u16)
        requires
            old(self).wf(),
        ensures
            final(self).wf(),
            final(self)@ == old(self)@.erase_in_display(mode),
    {
        proof {
            reveal(TermView::erase_in_display);
        }
        let pen = self.cursor.pen;
        match mode {
            0 => {
                self.erase_below();
            },
            1 => {
                self.erase_above();
            },
            // Whole screen.
            2 => {
                self.grid.clear_all(&pen);
            },
            // Whole screen and scrollback.
            3 => {
                self.grid.clear_all(&pen);
                self.grid.clear_history();
            },
            _ => {},
        }
        self.grid.damage_all();
        self.dirty = true;
    }

    pub(super) fn erase_chars(&mut self, n: usize)
        requires
            old(self).wf(),
            n <= u16::MAX,
        ensures
            final(self).wf(),
            final(self)@ == old(self)@.erase_chars(n as int),
    {
        let x: usize = self.cursor.x;
        let y: usize = self.cursor.y;
        let cols: usize = self.cols();
        let n: usize = if n < 1 {
            1
        } else {
            n
        };
        let blank = Cell::blank(&self.cursor.pen);
        proof {
            lemma_wrap_is_mod(y as int, self@.grid.cap());
        }
        self.grid.row_mut(y).fill(lesser(x, cols), lesser(x + n, cols), blank);
        self.dirty = true;
    }

    /// Take `n` characters out at the cursor. The rest of the line moves left, and blanks come in
    /// at the right margin.
    pub fn delete_chars(&mut self, n: usize)
        requires
            old(self).wf(),
        ensures
            final(self).wf(),
            final(self)@ == old(self)@.delete_chars(n as int),
    {
        let x: usize = self.cursor.x;
        let y: usize = self.cursor.y;
        let cols: usize = self.cols();
        if x >= cols {
            return ;
        }
        let n: usize = if n < 1 {
            1
        } else {
            n
        };
        let n: usize = lesser(n, cols - x);
        let blank = Cell::blank(&self.cursor.pen);
        proof {
            lemma_wrap_is_mod(y as int, self@.grid.cap());
        }
        self.grid.row_mut(y).close_up(x, n, blank);
        self.dirty = true;
    }

    pub(super) fn insert_lines(&mut self, n: usize)
        requires
            old(self).wf(),
        ensures
            final(self).wf(),
            final(self)@ == old(self)@.insert_lines(n as int),
    {
        if self.cursor.y < self.scroll_top || self.cursor.y > self.scroll_bot {
            return ;
        }
        let pen = self.cursor.pen;
        let n: usize = if n < 1 {
            1
        } else {
            n
        };
        self.grid.scroll_down(self.cursor.y, self.scroll_bot, n, &pen);
        self.cursor.x = 0;
        self.dirty = true;
    }

    pub(super) fn delete_lines(&mut self, n: usize)
        requires
            old(self).wf(),
        ensures
            final(self).wf(),
            final(self)@ == old(self)@.delete_lines(n as int),
    {
        if self.cursor.y < self.scroll_top || self.cursor.y > self.scroll_bot {
            return ;
        }
        let pen = self.cursor.pen;
        let n: usize = if n < 1 {
            1
        } else {
            n
        };
        self.grid.scroll_up(self.cursor.y, self.scroll_bot, n, &pen);
        self.cursor.x = 0;
        self.dirty = true;
    }
}

} // verus!
