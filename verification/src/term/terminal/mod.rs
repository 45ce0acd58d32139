//! The terminal itself.

mod bulk;
mod dispatch;
mod editing;
mod motion;
mod rendition;
mod viewing;

use vstd::prelude::*;

use super::cell::{lemma_tag_is_top_bit, Cell, CellFlags, CLUSTER_TAG};
use super::color::Color;
use super::cursor::{Cursor, CursorShape, CursorState, CursorView};
use super::grid::{at_least_one, lemma_wrap_is_mod, max_cols, max_lines, Grid};
use super::mode::TermMode;
use super::model::{default_tab_stops, min, TermView};

verus! {

pub struct Term {
    grid: Grid,
    /// The screen that is not shown.
    inactive: Grid,
    cursor: Cursor,
    saved_cursor: Cursor,
    saved_cursor_alt: Cursor,
    pub mode: TermMode,
    cursor_shape: CursorShape,
    cursor_blinks: bool,
    /// Inclusive scroll region, viewport-relative.
    scroll_top: usize,
    scroll_bot: usize,
    tabs: Vec<bool>,
    /// Grapheme clusters that do not fit in a cell's single scalar.
    clusters: Vec<Vec<char>>,
    /// Underline colours referenced by `Cell::underline`, biased by one.
    underline_colors: Vec<Color>,
    /// Bytes to send back (device reports and the like).
    replies: Vec<u8>,
    pub title: Option<String>,
    /// Incremented whenever the title changes.
    pub title_revision: u64,
    pub bell_revision: u64,
    /// One-shot flag telling that the escape-sequence parser returned to its ground state.
    ground_signal: bool,
    /// Set whenever anything visible changed.
    dirty: bool,
}

/// The contents of a list of clusters.
pub open spec fn char_views(s: Seq<Vec<char>>) -> Seq<Seq<char>> {
    Seq::new(s.len(), |i: int| s[i]@)
}

/// The contents of a title.
pub open spec fn title_view(title: Option<String>) -> Option<Seq<char>> {
    match title {
        Some(s) => Some(s@),
        None => None,
    }
}

impl View for Term {
    type V = TermView;

    closed spec fn view(&self) -> TermView {
        TermView {
            grid: self.grid@,
            inactive: self.inactive@,
            cursor: self.cursor@,
            saved_cursor: self.saved_cursor@,
            saved_cursor_alt: self.saved_cursor_alt@,
            mode: self.mode,
            cursor_shape: self.cursor_shape,
            cursor_blinks: self.cursor_blinks,
            scroll_top: self.scroll_top as int,
            scroll_bot: self.scroll_bot as int,
            tabs: self.tabs@,
            clusters: char_views(self.clusters@),
            underline_colors: self.underline_colors@,
            replies: self.replies@,
            title: title_view(self.title),
            title_revision: self.title_revision,
            bell_revision: self.bell_revision,
            ground_signal: self.ground_signal,
            dirty: self.dirty,
        }
    }
}

impl Term {
    /// Both screens are in order.
    pub closed spec fn screens_ok(&self) -> bool {
        self.grid.wf() && self.inactive.wf()
    }

    /// Every operation keeps this.
    pub open spec fn wf(&self) -> bool {
        self.screens_ok() && self@.wf()
    }

    pub fn new(cols: usize, rows: usize, scrollback: usize) -> (t: Term)
        requires
            cols <= max_cols(),
            rows + scrollback <= max_lines(),
            1 + scrollback <= max_lines(),
        ensures
            t.wf(),
            t@ == TermView::fresh(at_least_one(cols), at_least_one(rows), scrollback as int),
    {
        let cols: usize = if cols < 1 {
            1
        } else {
            cols
        };
        let rows: usize = if rows < 1 {
            1
        } else {
            rows
        };
        let t = Term {
            grid: Grid::new(cols, rows, scrollback),
            // The alternate screen never has scrollback, by definition.
            inactive: Grid::new(cols, rows, 0),
            cursor: Cursor::default(),
            saved_cursor: Cursor::default(),
            saved_cursor_alt: Cursor::default(),
            mode: TermMode::default(),
            cursor_shape: CursorShape::Block,
            cursor_blinks: true,
            scroll_top: 0,
            scroll_bot: rows - 1,
            tabs: default_tabs(cols),
            clusters: Vec::new(),
            underline_colors: Vec::new(),
            replies: Vec::new(),
            title: None,
            title_revision: 0,
            bell_revision: 0,
            ground_signal: false,
            dirty: true,
        };
        assert(t@ =~= TermView::fresh(cols as int, rows as int, scrollback as int));
        t
    }

    pub fn grid(&self) -> (g: &Grid)
        requires
            self.wf(),
        ensures
            g.wf(),
            g@ == self@.grid,
    {
        &self.grid
    }

    /// The screen in use, for changing. Its size has to stay as it is.
    pub fn grid_mut(&mut self) -> (g: &mut Grid)
        requires
            old(self).wf(),
        ensures
            g.wf(),
            g@ == old(self)@.grid,
            final(self)@ == old(self)@.with_grid(final(g)@),
            final(g).wf() && final(g)@.cols == g@.cols && final(g)@.rows == g@.rows
                ==> final(self).wf(),
    {
        &mut self.grid
    }

    pub fn cols(&self) -> (n: usize)
        ensures
            n == self@.cols(),
    {
        self.grid.cols()
    }

    pub fn rows(&self) -> (n: usize)
        ensures
            n == self@.rows(),
    {
        self.grid.rows()
    }

    /// The cluster that a tagged cell word names.
    pub fn cluster(&self, idx: u32) -> (c: Option<&[char]>)
        ensures
            match c {
                Some(s) => (idx % CLUSTER_TAG) < self@.clusters.len() && s@
                    == self@.clusters[(idx % CLUSTER_TAG) as int],
                None => (idx % CLUSTER_TAG) >= self@.clusters.len(),
            },
    {
        assert(idx & !0x8000_0000u32 == idx % 0x8000_0000) by (bit_vector);
        let i: usize = (idx & !CLUSTER_TAG) as usize;
        if i < self.clusters.len() {
            Some(self.clusters[i].as_slice())
        } else {
            None
        }
    }

    /// The colour that `Cell::underline` names; zero names none.
    pub fn underline_color(&self, idx: u16) -> (c: Option<Color>)
        ensures
            c == (if 1 <= idx <= self@.underline_colors.len() {
                Some(self@.underline_colors[idx - 1])
            } else {
                None
            }),
    {
        if idx == 0 {
            None
        } else if (idx as usize) <= self.underline_colors.len() {
            Some(self.underline_colors[idx as usize - 1])
        } else {
            None
        }
    }

    /// Everything a renderer needs about the cursor. It is hidden while the user is reading
    /// scrollback: it refers to the live screen, which is not what they are looking at.
    pub fn cursor_state(&self) -> (s: CursorState)
        requires
            self.wf(),
        ensures
            s.x == min(self@.cursor.x, self@.cols() - 1),
            s.y == self@.cursor.y,
            s.shape == self@.cursor_shape,
            s.visible == (self@.on(TermMode::SHOW_CURSOR) && self@.grid.display_offset == 0),
            s.blinking == self@.cursor_blinks,
    {
        let last: usize = self.cols() - 1;
        CursorState {
            x: if self.cursor.x < last {
                self.cursor.x
            } else {
                last
            },
            y: self.cursor.y,
            shape: self.cursor_shape,
            visible: self.mode.contains(TermMode::SHOW_CURSOR) && self.grid.display_offset() == 0,
            blinking: self.cursor_blinks,
        }
    }

    /// The modes in force.
    pub fn modes(&self) -> (m: TermMode)
        ensures
            m == self@.mode,
    {
        self.mode
    }

    /// Put other modes in force.
    pub fn put_modes(&mut self, mode: TermMode)
        requires
            old(self).wf(),
        ensures
            final(self).wf(),
            final(self)@ == (TermView { mode, ..old(self)@ }),
    {
        self.mode = mode;
    }

    /// The title that the application wants its window to have.
    pub fn title(&self) -> (t: Option<&str>)
        ensures
            match t {
                Some(s) => self@.title == Some(s@),
                None => self@.title is None,
            },
    {
        match &self.title {
            Some(s) => Some(s.as_str()),
            None => None,
        }
    }

    /// A count that goes up whenever the title is set.
    pub fn title_revision(&self) -> (n: u64)
        ensures
            n == self@.title_revision,
    {
        self.title_revision
    }

    /// A count that goes up whenever the bell rings.
    pub fn bell_revision(&self) -> (n: u64)
        ensures
            n == self@.bell_revision,
    {
        self.bell_revision
    }

    /// Did anything visible change? Asking clears the mark.
    pub fn take_dirty(&mut self) -> (d: bool)
        requires
            old(self).wf(),
        ensures
            final(self).wf(),
            d == old(self)@.dirty,
            final(self)@ == (TermView { dirty: false, ..old(self)@ }),
    {
        let d = self.dirty;
        self.dirty = false;
        d
    }

    pub fn is_dirty(&self) -> (d: bool)
        ensures
            d == self@.dirty,
    {
        self.dirty
    }

    /// The bytes to send back, which are then no longer waiting.
    pub fn take_replies(&mut self) -> (bytes: Vec<u8>)
        requires
            old(self).wf(),
        ensures
            final(self).wf(),
            bytes@ == old(self)@.replies,
            final(self)@ == (TermView { replies: Seq::empty(), ..old(self)@ }),
    {
        let mut bytes: Vec<u8> = Vec::new();
        core::mem::swap(&mut bytes, &mut self.replies);
        bytes
    }

    pub fn has_replies(&self) -> (r: bool)
        ensures
            r == (self@.replies.len() > 0),
    {
        self.replies.len() > 0
    }

    /// Is the escape-sequence parser back in its ground state? Asking clears the mark.
    pub fn take_ground_signal(&mut self) -> (s: bool)
        requires
            old(self).wf(),
        ensures
            final(self).wf(),
            s == old(self)@.ground_signal,
            final(self)@ == (TermView { ground_signal: false, ..old(self)@ }),
    {
        let s = self.ground_signal;
        self.ground_signal = false;
        s
    }

    // ---------------------------------------------------------------------
    // Character output
    // ---------------------------------------------------------------------

    /// Linefeed without honouring LNM; used internally by wrapping.
    fn linefeed_raw(&mut self)
        requires
            old(self).wf(),
        ensures
            final(self).wf(),
            final(self)@ == old(self)@.linefeed(),
    {
        proof {
            reveal(TermView::linefeed);
        }
        if self.cursor.y == self.scroll_bot {
            let pen = self.cursor.pen;
            self.grid.scroll_up(self.scroll_top, self.scroll_bot, 1, &pen);
        } else if self.cursor.y + 1 < self.rows() {
            self.cursor.y += 1;
        }
    }

    fn reverse_index(&mut self)
        requires
            old(self).wf(),
        ensures
            final(self).wf(),
            final(self)@ == old(self)@.reverse_index(),
    {
        proof {
            reveal(TermView::reverse_index);
        }
        if self.cursor.y == self.scroll_top {
            let pen = self.cursor.pen;
            self.grid.scroll_down(self.scroll_top, self.scroll_bot, 1, &pen);
        } else if self.cursor.y > 0 {
            self.cursor.y -= 1;
        }
    }

    fn wrap_line(&mut self)
        requires
            old(self).wf(),
        ensures
            final(self).wf(),
            final(self)@ == old(self)@.wrapped(),
    {
        proof {
            reveal(TermView::wrapped);
        }
        let y: usize = self.cursor.y;
        proof {
            lemma_wrap_is_mod(y as int, self@.grid.cap());
        }
        self.grid.row_mut(y).set_wrapped(true);
        self.cursor.x = 0;
        self.cursor.wrap_pending = false;
        self.linefeed_raw();
    }

    /// Leave the last column of the line to a double-width character that does not fit there.
    fn leave_gap(&mut self)
        requires
            old(self).wf(),
        ensures
            final(self).wf(),
            final(self)@ == old(self)@.gapped(),
    {
        let y: usize = self.cursor.y;
        proof {
            lemma_wrap_is_mod(y as int, self@.grid.cap());
        }
        self.grid.row_mut(y).leave_gap();
    }

    /// Put `n` blanks in at column `x` of line `y`, pushing the rest of the line to the right.
    pub fn shift_right(&mut self, x: usize, y: usize, n: usize)
        requires
            old(self).wf(),
        ensures
            final(self).wf(),
            final(self)@ == old(self)@.shifted_right(x as int, y as int, n as int),
    {
        proof {
            reveal(TermView::shifted_right);
        }
        let cols: usize = self.cols();
        if x >= cols {
            return ;
        }
        let n: usize = if n < cols - x {
            n
        } else {
            cols - x
        };
        let blank = Cell::blank(&self.cursor.pen);
        proof {
            lemma_wrap_is_mod(y as int, self@.grid.cap());
        }
        self.grid.row_mut(y).open(x, n, blank);
    }

    fn put_char(&mut self, c: char, width: usize)
        requires
            old(self).wf(),
            width <= 3,
        ensures
            final(self).wf(),
            final(self)@ == old(self)@.put_char(c, width as int),
    {
        proof {
            reveal(TermView::put_char);
            lemma_wrapped_keeps(self@);
        }
        let cols: usize = self.cols();
        if self.cursor.wrap_pending {
            self.wrap_line();
        }
        // A wide character that will not fit in the last column moves to the next line rather
        // than being split. What it leaves there is no part of the text.
        if width == 2 && self.cursor.x + 1 >= cols {
            if self.mode.contains(TermMode::AUTOWRAP) {
                self.leave_gap();
                self.wrap_line();
            } else {
                return ;
            }
        }
        self.place(c, width);
    }

    /// Write a character where the cursor is, and move the cursor on.
    fn place(&mut self, c: char, width: usize)
        requires
            old(self).wf(),
            width <= 3,
        ensures
            final(self).wf(),
            final(self)@ == old(self)@.placed(c, width as int),
    {
        self.draw(c, width);
        self.advance(width);
    }

    /// Write a character where the cursor is.
    fn draw(&mut self, c: char, width: usize)
        requires
            old(self).wf(),
            width <= 3,
        ensures
            final(self).wf(),
            final(self)@ == old(self)@.drawn(c, width as int),
    {
        proof {
            reveal(TermView::drawn);
            reveal(TermView::shifted_right);
        }
        let x: usize = self.cursor.x;
        let y: usize = self.cursor.y;
        let pen = self.cursor.pen;
        if self.mode.contains(TermMode::INSERT) {
            self.shift_right(x, y, width);
        }
        let mut cell = Cell {
            ch: c as u32,
            fg: pen.fg,
            bg: pen.bg,
            flags: pen.flags,
            underline: pen.underline,
        };
        if width == 2 {
            cell.flags = cell.flags.with(CellFlags::WIDE);
        }
        self.grid.set_cell(x, y, cell);
        if width == 2 {
            let mut spacer = cell;
            spacer.ch = 0;
            spacer.flags = spacer.flags.without(CellFlags::WIDE).with(CellFlags::WIDE_SPACER);
            self.grid.set_cell(x + 1, y, spacer);
        }
    }

    /// Move the cursor on by `width` columns.
    fn advance(&mut self, width: usize)
        requires
            old(self).wf(),
            width <= 3,
        ensures
            final(self).wf(),
            final(self)@ == old(self)@.advanced(width as int),
    {
        let cols: usize = self.cols();
        let next: usize = self.cursor.x + width;
        if next >= cols {
            self.cursor.x = cols - 1;
            if self.mode.contains(TermMode::AUTOWRAP) {
                self.cursor.wrap_pending = true;
            }
        } else {
            self.cursor.x = next;
        }
    }

    /// Attach a zero-width mark to the cell the cursor just left.
    fn combine_with_previous(&mut self, mark: char)
        requires
            old(self).wf(),
        ensures
            final(self).wf(),
            final(self)@ == old(self)@.combined(mark),
    {
        proof {
            reveal(TermView::combined);
        }
        let y: usize = self.cursor.y;
        // The character written last is behind the cursor, unless a wrap is pending, in which case
        // the cursor is still sitting on it.
        let mut x: usize = self.cursor.x;
        if !self.cursor.wrap_pending {
            if x == 0 {
                return ;
            }
            x -= 1;
        }
        // Step back over the filler half of a wide character.
        let cur = self.grid.cell(x, y);
        if cur.flags.contains(CellFlags::WIDE_SPACER) && x > 0 {
            x -= 1;
        }
        let cell = self.grid.cell(x, y);
        let mut chars = self.characters(&cell);
        // Bound the cluster: pathological input should not grow without limit.
        if chars.len() >= 8 {
            return ;
        }
        let ghost base = self@.clusters;
        chars.push(mark);
        let ghost joined = chars@;
        self.clusters.push(chars);
        assert(self@.clusters =~= base.push(joined));
        let idx: u32 = (self.clusters.len() - 1) as u32 | CLUSTER_TAG;
        let mut updated = cell;
        updated.ch = idx;
        self.grid.set_cell(x, y, updated);
        self.dirty = true;
    }

    /// The characters that a cell shows.
    fn characters(&self, cell: &Cell) -> (chars: Vec<char>)
        ensures
            chars@ == self@.characters(*cell),
    {
        proof {
            lemma_tag_is_top_bit(cell.ch);
        }
        if cell.ch & CLUSTER_TAG != 0 {
            match self.cluster(cell.ch) {
                Some(c) => {
                    let mut v: Vec<char> = Vec::new();
                    v.extend_from_slice(c);
                    assert(v@ =~= c@);
                    v
                },
                None => Vec::new(),
            }
        } else {
            let c: char = match cell.scalar() {
                Some(c) => c,
                None => ' ',
            };
            let mut v: Vec<char> = Vec::new();
            v.push(c);
            assert(v@ =~= seq![c]);
            v
        }
    }
}

/// Wrapping keeps the size, the modes and the pen, and leaves the cursor in the first column with
/// no wrap pending.
proof fn lemma_wrapped_keeps(v: TermView)
    ensures
        v.wrapped().cols() == v.cols(),
        v.wrapped().mode == v.mode,
        v.wrapped().cursor == (CursorView {
            x: 0,
            y: v.wrapped().cursor.y,
            wrap_pending: false,
            ..v.cursor
        }),
        v.wrapped().dirty == v.dirty,
        v.grid.display_offset == 0 ==> v.wrapped().grid.display_offset == 0,
{
    reveal(TermView::wrapped);
    reveal(TermView::linefeed);
}

fn default_tabs(cols: usize) -> (tabs: Vec<bool>)
    ensures
        tabs@ == default_tab_stops(cols as int),
{
    let mut tabs: Vec<bool> = Vec::with_capacity(cols);
    while tabs.len() < cols
        invariant
            tabs@.len() <= cols,
            forall|i: int| 0 <= i < tabs@.len() ==> #[trigger] tabs@[i] == (i % 8 == 0 && i != 0),
        decreases cols - tabs@.len(),
    {
        let i: usize = tabs.len();
        tabs.push(i % 8 == 0 && i != 0);
    }
    assert(tabs@ =~= default_tab_stops(cols as int));
    tabs
}

} // verus!
