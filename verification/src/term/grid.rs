//! The character grid and its scrollback.
//!
//! Storage is a ring of rows. Scrolling the full screen advances an index and clears exactly one
//! row per line, and the lines that leave the screen land in scrollback without being copied.
//! Scrolling inside margins exchanges row handles, never the cells behind them.
//!
//! Every row carries a `dirty` flag, so that a renderer converts only what changed.

use vstd::prelude::*;

use super::cell::{blank_of, Cell, CellFlags, Pen};
use super::reflow::{
    cell_views, drop_padding, finished_lines, is_padding, joined, lemma_position_in_row,
    logical_lines, open_line, push_split, row_take, split_all, split_position, split_rows,
};

verus! {

/// One line of the grid.
pub struct Row {
    cells: Vec<Cell>,
    /// Set when this line continues into the next one by autowrap.
    pub wrapped: bool,
    /// Content changed since the renderer last consumed this row.
    pub dirty: bool,
    /// Set when the last cell is a gap: nothing was written there, because a double-width character
    /// did not fit, which starts the next line instead. Writing the cell ends that.
    gap: bool,
}

/// What a line of the grid holds.
#[verifier::ext_equal]
pub ghost struct RowView {
    pub cells: Seq<Cell>,
    pub wrapped: bool,
    pub dirty: bool,
    /// The last cell is not part of the text: a double-width character did not fit there.
    pub gap: bool,
}

impl View for Row {
    type V = RowView;

    closed spec fn view(&self) -> RowView {
        RowView { cells: self.cells@, wrapped: self.wrapped, dirty: self.dirty, gap: self.gap }
    }
}

impl RowView {
    /// The line with one cell replaced.
    pub open spec fn with_cell(self, x: int, c: Cell) -> RowView {
        RowView {
            cells: self.cells.update(x, c),
            dirty: true,
            gap: self.gap && x != self.cells.len() - 1,
            ..self
        }
    }

    /// The line with the cells of `[from, to)` replaced by `c`.
    pub open spec fn filled(self, from: int, to: int, c: Cell) -> RowView {
        RowView {
            cells: Seq::new(
                self.cells.len(),
                |i: int|
                    if from <= i < to {
                        c
                    } else {
                        self.cells[i]
                    },
            ),
            dirty: true,
            gap: self.gap && !(from <= self.cells.len() - 1 < to),
            ..self
        }
    }

    /// The line with `n` copies of `c` put in at `x`; as many cells leave at the right.
    pub open spec fn opened(self, x: int, n: int, c: Cell) -> RowView {
        RowView {
            cells: Seq::new(
                self.cells.len(),
                |i: int|
                    if i < x {
                        self.cells[i]
                    } else if i < x + n {
                        c
                    } else {
                        self.cells[i - n]
                    },
            ),
            dirty: true,
            gap: false,
            ..self
        }
    }

    /// The line with the `n` cells at `x` taken out; as many copies of `c` come in at the right.
    pub open spec fn closed_up(self, x: int, n: int, c: Cell) -> RowView {
        RowView {
            cells: Seq::new(
                self.cells.len(),
                |i: int|
                    if i < x {
                        self.cells[i]
                    } else if i + n < self.cells.len() {
                        self.cells[i + n]
                    } else {
                        c
                    },
            ),
            dirty: true,
            gap: false,
            ..self
        }
    }

    /// The line with a run of bytes written from column `x` on, each in its own copy of `ink`.
    pub open spec fn lettered(self, x: int, bytes: Seq<u8>, ink: Cell) -> RowView {
        RowView {
            cells: Seq::new(
                self.cells.len(),
                |i: int|
                    if x <= i < x + bytes.len() {
                        Cell { ch: bytes[i - x] as u32, ..ink }
                    } else {
                        self.cells[i]
                    },
            ),
            dirty: true,
            gap: self.gap && x + bytes.len() != self.cells.len(),
            ..self
        }
    }

    /// The line with its last cell left to a double-width character that does not fit: a gap,
    /// unless something is there.
    pub open spec fn gapped(self) -> RowView {
        RowView { gap: is_padding(self.cells.last()), ..self }
    }

    /// The number of cells up to and including the last one that is not empty.
    pub open spec fn trimmed(self) -> int {
        used_len(self.cells)
    }
}

/// The length of `cells` without its trailing empty cells.
pub open spec fn used_len(cells: Seq<Cell>) -> int
    decreases cells.len(),
{
    if cells.len() > 0 && cells.last().ch == 0 {
        used_len(cells.drop_last())
    } else {
        cells.len() as int
    }
}

/// A fresh line.
pub open spec fn empty_row(cols: int) -> RowView {
    RowView {
        cells: Seq::new(cols as nat, |i: int| Cell::empty()),
        wrapped: false,
        dirty: true,
        gap: false,
    }
}

/// A line erased with `pen`.
pub open spec fn blank_row(cols: int, pen: Pen) -> RowView {
    RowView {
        cells: Seq::new(cols as nat, |i: int| blank_of(pen)),
        wrapped: false,
        dirty: true,
        gap: false,
    }
}

/// A line cut or padded to `cols` cells.
pub open spec fn resized_row(r: RowView, cols: int, pen: Pen) -> RowView {
    RowView {
        cells: Seq::new(
            cols as nat,
            |i: int|
                if i < r.cells.len() {
                    r.cells[i]
                } else {
                    blank_of(pen)
                },
        ),
        wrapped: r.wrapped,
        dirty: true,
        gap: r.gap && cols == r.cells.len(),
    }
}

impl Clone for Row {
    fn clone(&self) -> (r: Row)
        ensures
            r@ == self@,
    {
        let cells = self.cells.clone();
        assert(cells@ =~= self.cells@);
        Row { cells, wrapped: self.wrapped, dirty: self.dirty, gap: self.gap }
    }
}

impl Row {
    pub(crate) fn new(cols: usize) -> (r: Row)
        ensures
            r@ == empty_row(cols as int),
    {
        let cells = vec![Cell::empty(); cols];
        assert(cells@ =~= empty_row(cols as int).cells);
        Row { cells, wrapped: false, dirty: true, gap: false }
    }

    /// A line of `cols` cells that starts with `content`. One that continues into the next and is
    /// not full has a gap.
    pub(crate) fn holding(cols: usize, content: &[Cell], wrapped: bool) -> (r: Row)
        requires
            content@.len() <= cols,
        ensures
            r@ == padded_row(content@, cols as int, wrapped),
    {
        let mut cells: Vec<Cell> = Vec::with_capacity(cols);
        cells.extend_from_slice(content);
        assert(cells@ =~= content@);
        cells.resize(cols, Cell::empty());
        assert(cells@ =~= padded_row(content@, cols as int, wrapped).cells);
        Row { cells, wrapped, dirty: true, gap: wrapped && content.len() < cols }
    }

    pub fn cells(&self) -> (s: &[Cell])
        ensures
            s@ == self@.cells,
    {
        self.cells.as_slice()
    }

    /// Mutable access to the cells, which marks the line dirty.
    pub fn cells_mut(&mut self) -> (s: &mut [Cell])
        ensures
            s@ == old(self)@.cells,
            final(s)@.len() == old(self)@.cells.len() ==> final(self)@ == (RowView {
                cells: final(s)@,
                wrapped: old(self)@.wrapped,
                dirty: true,
                gap: false,
            }),
    {
        self.dirty = true;
        self.gap = false;
        self.cells.as_mut_slice()
    }

    /// Replace the cells of `[from, to)` by `c`.
    pub(crate) fn fill(&mut self, from: usize, to: usize, c: Cell)
        requires
            from <= to <= old(self)@.cells.len(),
        ensures
            final(self)@ == old(self)@.filled(from as int, to as int, c),
    {
        let ghost before = self@;
        self.dirty = true;
        if from < to && to == self.cells.len() {
            self.gap = false;
        }
        let ghost gap = self.gap;
        let mut i: usize = from;
        while i < to
            invariant
                from <= i <= to <= self.cells@.len(),
                self@ == (RowView { gap, ..before.filled(from as int, i as int, c) }),
                before.cells.len() == self.cells@.len(),
            decreases to - i,
        {
            self.cells.set(i, c);
            i += 1;
            assert(self@ =~= (RowView { gap, ..before.filled(from as int, i as int, c) }));
        }
    }

    /// Mark whether the line continues into the next one.
    pub fn set_wrapped(&mut self, wrapped: bool)
        ensures
            final(self)@ == (RowView { wrapped, ..old(self)@ }),
    {
        self.wrapped = wrapped;
    }

    /// Mark the line as changed since it was drawn, or as drawn.
    pub fn set_dirty(&mut self, dirty: bool)
        ensures
            final(self)@ == (RowView { dirty, ..old(self)@ }),
    {
        self.dirty = dirty;
    }

    /// Did the line change since it was drawn?
    pub fn is_dirty(&self) -> (r: bool)
        ensures
            r == self@.dirty,
    {
        self.dirty
    }

    /// Leave the last cell to a double-width character that does not fit.
    pub(crate) fn leave_gap(&mut self)
        requires
            old(self)@.cells.len() > 0,
        ensures
            final(self)@ == old(self)@.gapped(),
    {
        let last = self.cells[self.cells.len() - 1];
        self.gap = last.ch == 0 && !last.flags.contains(CellFlags::WIDE_SPACER);
    }

    /// The cells that belong to the text of the line: all of them but a gap.
    pub(crate) fn text_cells(&self) -> (s: &[Cell])
        ensures
            s@ == joined(self@),
    {
        let n: usize = self.cells.len();
        if self.wrapped && self.gap && n > 1 {
            let s = &self.cells.as_slice()[0..n - 1];
            assert(s@ =~= self.cells@.drop_last());
            s
        } else {
            self.cells.as_slice()
        }
    }

    /// Does the line continue into the next one?
    pub fn is_wrapped(&self) -> (r: bool)
        ensures
            r == self@.wrapped,
    {
        self.wrapped
    }

    /// Replace one cell.
    pub(crate) fn put(&mut self, x: usize, c: Cell)
        requires
            x < old(self)@.cells.len(),
        ensures
            final(self)@ == old(self)@.with_cell(x as int, c),
    {
        if x == self.cells.len() - 1 {
            self.gap = false;
        }
        self.cells.set(x, c);
        self.dirty = true;
    }

    /// Write a run of bytes from column `x` on, each in its own copy of `ink`.
    pub(crate) fn letter(&mut self, x: usize, bytes: &[u8], ink: Cell)
        requires
            x + bytes@.len() <= old(self)@.cells.len(),
        ensures
            final(self)@ == old(self)@.lettered(x as int, bytes@, ink),
    {
        let ghost before = self@;
        self.dirty = true;
        let cols: usize = self.cells.len();
        if x + bytes.len() == cols {
            self.gap = false;
        }
        let mut i: usize = 0;
        while i < bytes.len()
            invariant
                i <= bytes@.len(),
                x + bytes@.len() <= self.cells@.len(),
                cols == self.cells@.len(),
                self.cells@.len() == before.cells.len(),
                self.wrapped == before.wrapped,
                self.dirty,
                self.gap == (before.gap && x + bytes@.len() != before.cells.len()),
                forall|j: int|
                    0 <= j < self.cells@.len() ==> #[trigger] self.cells@[j] == (if x <= j < x + i {
                        Cell { ch: bytes@[j - x] as u32, ..ink }
                    } else {
                        before.cells[j]
                    }),
            decreases bytes@.len() - i,
        {
            let mut c = ink;
            c.ch = bytes[i] as u32;
            self.cells.set(x + i, c);
            i += 1;
        }
        assert(self@ =~= before.lettered(x as int, bytes@, ink));
    }

    /// Put `n` copies of `c` in at `x`, pushing the rest of the line to the right.
    pub(crate) fn open(&mut self, x: usize, n: usize, c: Cell)
        requires
            x + n <= old(self)@.cells.len(),
        ensures
            final(self)@ == old(self)@.opened(x as int, n as int, c),
    {
        let ghost before = self@;
        let mut i: usize = self.cells.len();
        while i > x + n
            invariant
                x + n <= i <= self.cells@.len(),
                self.cells@.len() == before.cells.len(),
                self.wrapped == before.wrapped,
                forall|j: int| 0 <= j < i ==> #[trigger] self.cells@[j] == before.cells[j],
                forall|j: int|
                    i <= j < self.cells@.len() ==> #[trigger] self.cells@[j] == before.cells[j - n],
            decreases i,
        {
            i -= 1;
            let moved = self.cells[i - n];
            self.cells.set(i, moved);
        }
        self.fill(x, x + n, c);
        self.gap = false;
        assert(self@ =~= before.opened(x as int, n as int, c));
    }

    /// Take the `n` cells at `x` out, pulling the rest of the line to the left.
    pub(crate) fn close_up(&mut self, x: usize, n: usize, c: Cell)
        requires
            x + n <= old(self)@.cells.len(),
        ensures
            final(self)@ == old(self)@.closed_up(x as int, n as int, c),
    {
        let ghost before = self@;
        let len: usize = self.cells.len();
        let mut i: usize = x;
        while i < len - n
            invariant
                x <= i <= len - n,
                n <= len,
                len == self.cells@.len(),
                self.cells@.len() == before.cells.len(),
                self.wrapped == before.wrapped,
                forall|j: int| 0 <= j < x ==> #[trigger] self.cells@[j] == before.cells[j],
                forall|j: int| x <= j < i ==> #[trigger] self.cells@[j] == before.cells[j + n],
                forall|j: int| i <= j < len ==> #[trigger] self.cells@[j] == before.cells[j],
            decreases len - i,
        {
            let moved = self.cells[i + n];
            self.cells.set(i, moved);
            i += 1;
        }
        self.fill(len - n, len, c);
        self.gap = false;
        assert(self@ =~= before.closed_up(x as int, n as int, c));
    }

    /// Reset to blanks carrying `pen`'s colours.
    fn reset(&mut self, pen: &Pen)
        ensures
            final(self)@ == blank_row(old(self)@.cells.len() as int, *pen),
    {
        let n: usize = self.cells.len();
        self.fill(0, n, Cell::blank(pen));
        self.wrapped = false;
        self.gap = false;
        assert(self@ =~= blank_row(n as int, *pen));
    }

    fn resize(&mut self, cols: usize, pen: &Pen)
        ensures
            final(self)@ == resized_row(old(self)@, cols as int, *pen),
    {
        let ghost before = self@;
        self.gap = self.gap && cols == self.cells.len();
        self.cells.resize(cols, Cell::blank(pen));
        self.dirty = true;
        assert(self@ =~= resized_row(before, cols as int, *pen));
    }

    /// Index of the last non-blank cell, plus one. Used to trim trailing whitespace when copying
    /// text out.
    pub fn trimmed_len(&self) -> (n: usize)
        ensures
            n == self@.trimmed(),
            n <= self@.cells.len(),
    {
        trimmed_count(self.cells.as_slice())
    }
}

/// The length of `cells` without its trailing empty cells.
pub(crate) fn trimmed_count(cells: &[Cell]) -> (n: usize)
    ensures
        n == used_len(cells@),
        n <= cells@.len(),
{
    let mut n: usize = cells.len();
    assert(cells@.take(n as int) =~= cells@);
    while n > 0 && cells[n - 1].ch == 0
        invariant
            n <= cells@.len(),
            used_len(cells@.take(n as int)) == used_len(cells@),
        decreases n,
    {
        assert(cells@.take(n as int).drop_last() =~= cells@.take(n - 1));
        n -= 1;
    }
    assert(n > 0 ==> cells@.take(n as int).last() == cells@[n - 1]);
    n
}

/// A line of `cols` cells: `content`, then empty cells. Where it continues into the next line, it
/// is short of a cell only for a gap.
pub open spec fn padded_row(content: Seq<Cell>, cols: int, wrapped: bool) -> RowView {
    RowView {
        cells: Seq::new(
            cols as nat,
            |i: int|
                if i < content.len() {
                    content[i]
                } else {
                    Cell::empty()
                },
        ),
        wrapped,
        dirty: true,
        gap: wrapped && content.len() < cols,
    }
}

/// Position `i` counted round a ring of `cap` places: `i` modulo `cap`.
///
/// The first three cases only spell out what the last one says near the ring itself.
pub open spec fn wrap(i: int, cap: int) -> int {
    if 0 <= i < cap {
        i
    } else if -cap <= i < 0 {
        i + cap
    } else if cap <= i < 2 * cap {
        i - cap
    } else {
        i % cap
    }
}

/// Wrapping is taking the remainder.
pub proof fn lemma_wrap_is_mod(i: int, cap: int)
    requires
        cap > 0,
    ensures
        wrap(i, cap) == i % cap,
        0 <= wrap(i, cap) < cap,
{
    vstd::arithmetic::div_mod::lemma_mod_bound(i, cap);
    if 0 <= i < cap {
        vstd::arithmetic::div_mod::lemma_small_mod(i as nat, cap as nat);
    } else if -cap <= i < 0 {
        vstd::arithmetic::div_mod::lemma_small_mod((i + cap) as nat, cap as nat);
        vstd::arithmetic::div_mod::lemma_mod_add_multiples_vanish(i, cap);
    } else if cap <= i < 2 * cap {
        vstd::arithmetic::div_mod::lemma_small_mod((i - cap) as nat, cap as nat);
        vstd::arithmetic::div_mod::lemma_mod_sub_multiples_vanish(i, cap);
    }
}

/// The largest number of columns: a line of 16-byte cells has to fit in memory.
pub open spec fn max_cols() -> int {
    isize::MAX as int / 16
}

/// The largest number of lines, scrollback included: their 32-byte handles have to fit in memory.
pub open spec fn max_lines() -> int {
    isize::MAX as int / 32
}

/// What a grid holds.
///
/// `ring` lists every stored line, the first line of the live screen first: the live screen is
/// `ring[0 .. rows]`, and scrollback ends at the ring's far end, its newest line last.
#[verifier::ext_equal]
pub ghost struct GridView {
    pub cols: int,
    pub rows: int,
    /// Maximum number of lines retained above the screen.
    pub max_scrollback: int,
    pub ring: Seq<RowView>,
    /// How many lines of scrollback there are.
    pub history: int,
    /// Lines scrolled up from the live screen.
    pub display_offset: int,
    /// Every row has to be drawn again.
    pub full_damage: bool,
}

impl GridView {
    /// The number of lines stored.
    pub open spec fn cap(self) -> int {
        self.rows + self.max_scrollback
    }

    pub open spec fn wf(self) -> bool {
        &&& 1 <= self.cols <= max_cols()
        &&& 1 <= self.rows
        &&& 0 <= self.max_scrollback
        &&& self.cap() <= max_lines()
        &&& self.ring.len() == self.cap()
        &&& forall|i: int| 0 <= i < self.cap() ==> (#[trigger] self.ring[i]).cells.len() == self.cols
        &&& 0 <= self.history <= self.max_scrollback
        &&& 0 <= self.display_offset <= self.history
    }

    /// The grid of a fresh terminal.
    pub open spec fn fresh(cols: int, rows: int, max_scrollback: int) -> GridView {
        GridView {
            cols,
            rows,
            max_scrollback,
            ring: Seq::new((rows + max_scrollback) as nat, |i: int| empty_row(cols)),
            history: 0,
            display_offset: 0,
            full_damage: true,
        }
    }

    /// Line `y` of the live screen.
    pub open spec fn live(self, y: int) -> RowView {
        self.ring[wrap(y, self.cap())]
    }

    /// Line `y` of what is shown, which may reach into scrollback.
    pub open spec fn shown(self, y: int) -> RowView {
        self.ring[wrap(y - self.display_offset, self.cap())]
    }

    /// Line `i` counted from the oldest line of scrollback.
    pub open spec fn line(self, i: int) -> RowView {
        self.ring[wrap(i - self.history, self.cap())]
    }

    /// Scrollback and screen together.
    pub open spec fn total(self) -> int {
        self.history + self.rows
    }

    /// Every line from the oldest of scrollback to the last of the screen.
    pub open spec fn lines(self) -> Seq<RowView> {
        Seq::new(self.total() as nat, |i: int| self.line(i))
    }

    /// The grid with line `y` of the live screen replaced.
    pub open spec fn with_live(self, y: int, r: RowView) -> GridView {
        GridView { ring: self.ring.update(wrap(y, self.cap()), r), ..self }
    }

    /// The grid with the lines `[from, to)` of the live screen filled with `c`.
    pub open spec fn with_lines_filled(self, from: int, to: int, c: Cell) -> GridView {
        GridView {
            ring: Seq::new(
                self.ring.len(),
                |i: int|
                    if from <= i < to {
                        self.ring[i].filled(0, self.cols, c)
                    } else {
                        self.ring[i]
                    },
            ),
            ..self
        }
    }

    /// Writing one cell of the live screen; a column off the right edge is ignored.
    pub open spec fn set_cell(self, x: int, y: int, c: Cell) -> GridView {
        if x < self.cols {
            self.with_live(y, self.live(y).with_cell(x, c))
        } else {
            self
        }
    }

    /// Scrolling the whole screen up by `n <= rows`: the ring turns, what leaves the screen is the
    /// newest history, and `n` blank lines come in at the bottom.
    pub open spec fn ring_scrolled(self, n: int, pen: Pen) -> GridView {
        let history = if self.history + n < self.max_scrollback {
            self.history + n
        } else {
            self.max_scrollback
        };
        GridView {
            ring: Seq::new(
                self.ring.len(),
                |i: int|
                    if self.rows - n <= i < self.rows {
                        blank_row(self.cols, pen)
                    } else {
                        self.ring[wrap(i + n, self.cap())]
                    },
            ),
            history,
            display_offset: if self.display_offset == 0 {
                0
            } else if self.display_offset + n < history {
                self.display_offset + n
            } else {
                history
            },
            ..self
        }
    }

    /// Scrolling the lines `[top, bottom]` up by `n`, within the screen.
    pub open spec fn region_up(self, top: int, bottom: int, n: int, pen: Pen) -> GridView {
        GridView {
            ring: Seq::new(
                self.ring.len(),
                |i: int|
                    if top <= i <= bottom {
                        if i + n <= bottom {
                            self.ring[i + n]
                        } else {
                            blank_row(self.cols, pen)
                        }
                    } else {
                        self.ring[i]
                    },
            ),
            ..self
        }
    }

    /// Scrolling the lines `[top, bottom]` down by `n`, within the screen.
    pub open spec fn region_down(self, top: int, bottom: int, n: int, pen: Pen) -> GridView {
        GridView {
            ring: Seq::new(
                self.ring.len(),
                |i: int|
                    if top <= i <= bottom {
                        if top <= i - n {
                            self.ring[i - n]
                        } else {
                            blank_row(self.cols, pen)
                        }
                    } else {
                        self.ring[i]
                    },
            ),
            ..self
        }
    }

    /// Is `[top, bottom]` a region of the screen that a scroll by `n` moves?
    pub open spec fn scrolls(self, top: int, bottom: int, n: int) -> bool {
        n != 0 && top <= bottom < self.rows
    }

    pub open spec fn scroll_up(self, top: int, bottom: int, n: int, pen: Pen) -> GridView {
        let n1 = if n < bottom - top + 1 {
            n
        } else {
            bottom - top + 1
        };
        if !self.scrolls(top, bottom, n) {
            self
        } else if top == 0 && bottom == self.rows - 1 {
            GridView { full_damage: true, ..self.ring_scrolled(n1, pen) }
        } else {
            GridView { full_damage: true, ..self.region_up(top, bottom, n1, pen) }
        }
    }

    pub open spec fn scroll_down(self, top: int, bottom: int, n: int, pen: Pen) -> GridView {
        let n1 = if n < bottom - top + 1 {
            n
        } else {
            bottom - top + 1
        };
        if !self.scrolls(top, bottom, n) {
            self
        } else {
            GridView { full_damage: true, ..self.region_down(top, bottom, n1, pen) }
        }
    }

    /// Where moving the viewport by `delta` leaves it.
    pub open spec fn moved_offset(self, delta: int) -> int {
        let to = self.display_offset + delta;
        if to < 0 {
            0
        } else if to > self.history {
            self.history
        } else {
            to
        }
    }

    pub open spec fn scroll_display(self, delta: int) -> GridView {
        let to = self.moved_offset(delta);
        GridView {
            display_offset: to,
            full_damage: self.full_damage || to != self.display_offset,
            ..self
        }
    }

    pub open spec fn scroll_to_bottom(self) -> GridView {
        self.scroll_display(-self.display_offset)
    }

    pub open spec fn clear_all(self, pen: Pen) -> GridView {
        GridView {
            ring: Seq::new(
                self.ring.len(),
                |i: int|
                    if i < self.rows {
                        blank_row(self.cols, pen)
                    } else {
                        self.ring[i]
                    },
            ),
            full_damage: true,
            ..self
        }
    }

    pub open spec fn clear_history(self) -> GridView {
        GridView { history: 0, display_offset: 0, full_damage: true, ..self }
    }

    pub open spec fn damage_all(self) -> GridView {
        GridView { full_damage: true, ..self }
    }

    /// A full redraw, if one was due, no longer is.
    pub open spec fn damage_taken(self) -> GridView {
        GridView { full_damage: false, ..self }
    }

    /// A grid of the given size that holds `lines`, or the newest of them if there are too many.
    /// The screen is the last `rows` lines, or all of them and empty lines below.
    pub open spec fn rebuilt(self, lines: Seq<RowView>, cols: int, rows: int) -> GridView {
        let cap = rows + self.max_scrollback;
        let kept = if lines.len() > cap {
            lines.skip(lines.len() - cap)
        } else {
            lines
        };
        let history = if kept.len() > rows {
            kept.len() - rows
        } else {
            0
        };
        GridView {
            cols,
            rows,
            max_scrollback: self.max_scrollback,
            ring: Seq::new(
                cap as nat,
                |i: int|
                    {
                        let at = wrap(i + history, cap);
                        if at < kept.len() {
                            kept[at]
                        } else {
                            empty_row(cols)
                        }
                    },
            ),
            history,
            display_offset: 0,
            full_damage: true,
        }
    }

    /// The same lines at another size, each cut or padded.
    #[verifier::opaque]
    pub open spec fn resized(self, cols: int, rows: int, pen: Pen) -> GridView {
        if cols == self.cols && rows == self.rows {
            self
        } else {
            self.rebuilt(
                Seq::new(self.total() as nat, |i: int| resized_row(self.line(i), cols, pen)),
                cols,
                rows,
            )
        }
    }

    /// The same logical lines at another width. The screen is the last `rows` of the rows that
    /// hold them, and lines beyond the scrollback limit are gone.
    #[verifier::opaque]
    pub open spec fn reflowed(self, cols: int, rows: int) -> GridView {
        if cols == self.cols && rows == self.rows {
            self
        } else {
            self.rebuilt(split_all(logical_lines(self.lines()), cols), cols, rows)
        }
    }

    /// The logical line and the offset in it of a position on the screen; a row below the screen
    /// counts as the last row.
    pub open spec fn logical_position(self, x: int, y: int) -> (int, int) {
        let y = if y < self.rows {
            y
        } else {
            self.rows - 1
        };
        let before = self.lines().take(self.history + y);
        (finished_lines(before).len() as int, open_line(before).len() + x)
    }

    /// Where a position on the screen is after `reflowed`: on the cell it was on, or on the edge of
    /// the screen that is nearest to it.
    #[verifier::opaque]
    pub open spec fn reflowed_position(self, x: int, y: int, cols: int, rows: int) -> (int, int) {
        if cols == self.cols && rows == self.rows {
            (x, y)
        } else {
            let logical = logical_lines(self.lines());
            let (line, off) = self.logical_position(x, y);
            let above = split_all(logical.take(line), cols).len();
            let (col, row) = split_position(logical[line], 0, cols, off);
            let count = split_all(logical, cols).len();
            let left = if count > rows {
                count - rows
            } else {
                0
            };
            (col, clamped(above + row - left, 0, rows - 1))
        }
    }
}

/// `n` brought between `lo` and `hi`.
pub open spec fn clamped(n: int, lo: int, hi: int) -> int {
    if n < lo {
        lo
    } else if n > hi {
        hi
    } else {
        n
    }
}

/// A grid of cells with scrollback.
pub struct Grid {
    cols: usize,
    rows: usize,
    /// Maximum number of lines retained above the viewport.
    max_scrollback: usize,
    /// Ring of `rows + max_scrollback` lines.
    storage: Vec<Row>,
    /// Ring index of the first line of the live screen.
    top: usize,
    /// How many scrollback lines currently sit above `top`.
    history: usize,
    /// Lines scrolled up from the live viewport, 0..=history.
    display_offset: usize,
    /// Set when every row must be drawn again.
    full_damage: bool,
}

/// The contents of a run of rows.
pub open spec fn row_views(rows: Seq<Row>) -> Seq<RowView> {
    Seq::new(rows.len(), |i: int| rows[i]@)
}

impl View for Grid {
    type V = GridView;

    closed spec fn view(&self) -> GridView {
        GridView {
            cols: self.cols as int,
            rows: self.rows as int,
            max_scrollback: self.max_scrollback as int,
            ring: Seq::new(
                self.storage@.len(),
                |i: int| self.storage@[wrap(self.top + i, self.storage@.len() as int)]@,
            ),
            history: self.history as int,
            display_offset: self.display_offset as int,
            full_damage: self.full_damage,
        }
    }
}

impl Grid {
    /// The top of the live screen lies in the ring.
    pub closed spec fn ring_ok(&self) -> bool {
        self.top < self.storage@.len()
    }

    /// Every operation keeps this.
    pub open spec fn wf(&self) -> bool {
        self.ring_ok() && self@.wf()
    }

    pub fn new(cols: usize, rows: usize, max_scrollback: usize) -> (g: Grid)
        requires
            cols <= max_cols(),
            max_scrollback + rows <= max_lines(),
            max_scrollback + 1 <= max_lines(),
        ensures
            g.wf(),
            g@ == GridView::fresh(at_least_one(cols), at_least_one(rows), max_scrollback as int),
    {
        let cols: usize = if cols < 1 {
            1
        } else {
            cols
        };
        let rows: usize = if rows < 1 {
            1
        } else {
            rows
        };
        let cap: usize = rows + max_scrollback;
        let mut storage: Vec<Row> = Vec::with_capacity(cap);
        while storage.len() < cap
            invariant
                storage@.len() <= cap,
                forall|i: int| 0 <= i < storage@.len() ==> (#[trigger] storage@[i])@ == empty_row(
                    cols as int,
                ),
            decreases cap - storage@.len(),
        {
            storage.push(Row::new(cols));
        }
        let g = Grid {
            cols,
            rows,
            max_scrollback,
            storage,
            top: 0,
            history: 0,
            display_offset: 0,
            full_damage: true,
        };
        assert(g@ =~= GridView::fresh(cols as int, rows as int, max_scrollback as int));
        g
    }

    pub fn cols(&self) -> (n: usize)
        ensures
            n == self@.cols,
    {
        self.cols
    }

    pub fn rows(&self) -> (n: usize)
        ensures
            n == self@.rows,
    {
        self.rows
    }

    fn cap(&self) -> (n: usize)
        ensures
            n == self@.ring.len(),
            n == self.storage@.len(),
    {
        self.storage.len()
    }

    pub fn history_len(&self) -> (n: usize)
        ensures
            n == self@.history,
    {
        self.history
    }

    pub fn display_offset(&self) -> (n: usize)
        ensures
            n == self@.display_offset,
    {
        self.display_offset
    }

    /// Is a full redraw due? Asking clears the mark.
    pub fn take_full_damage(&mut self) -> (due: bool)
        requires
            old(self).wf(),
        ensures
            final(self).wf(),
            due == old(self)@.full_damage,
            final(self)@ == old(self)@.damage_taken(),
    {
        let due = self.full_damage;
        self.full_damage = false;
        due
    }

    pub fn damage_all(&mut self)
        requires
            old(self).wf(),
        ensures
            final(self).wf(),
            final(self)@ == old(self)@.damage_all(),
    {
        self.full_damage = true;
    }

    /// Where in `storage` the line lies that is `k` places after the top of the live screen.
    fn slot(&self, k: usize) -> (i: usize)
        requires
            self.wf(),
            k < self@.ring.len(),
        ensures
            i == wrap(self.top + k, self.storage@.len() as int),
            i < self.storage@.len(),
            self.storage@[i as int]@ == self@.ring[k as int],
    {
        let cap: usize = self.cap();
        if self.top < cap - k {
            self.top + k
        } else {
            self.top - (cap - k)
        }
    }

    /// How far after the top of the live screen viewport line `y` lies, accounting for the
    /// scrollback offset.
    fn ring_index(&self, y: usize) -> (k: usize)
        requires
            self.wf(),
        ensures
            k == wrap(y - self@.display_offset, self@.cap()),
            k < self@.ring.len(),
    {
        self.back_from(y, self.display_offset)
    }

    /// How far after the top of the live screen the line lies that is `back` lines above line `y`.
    fn back_from(&self, y: usize, back: usize) -> (k: usize)
        requires
            self.wf(),
            back < self@.cap(),
        ensures
            k == wrap(y - back, self@.cap()),
            k < self@.ring.len(),
    {
        let cap: usize = self.cap();
        let y1: usize = y % cap;
        proof {
            lemma_wrap_is_mod(y - back, cap as int);
            lemma_wrap_is_mod(y1 - back, cap as int);
            vstd::arithmetic::div_mod::lemma_sub_mod_noop_right(y as int, back as int, cap as int);
            vstd::arithmetic::div_mod::lemma_sub_mod_noop(y as int, back as int, cap as int);
            vstd::arithmetic::div_mod::lemma_sub_mod_noop(y1 as int, back as int, cap as int);
            vstd::arithmetic::div_mod::lemma_small_mod(y1 as nat, cap as nat);
        }
        if back <= y1 {
            y1 - back
        } else {
            y1 + (cap - back)
        }
    }

    /// How far after the top of the live screen *live* line `y` lies, ignoring any scrollback
    /// offset. All writes go through here: output must land on the real screen even while the user
    /// is looking at history.
    fn live_index(&self, y: usize) -> (k: usize)
        requires
            self.wf(),
        ensures
            k == wrap(y as int, self@.cap()),
            k < self@.ring.len(),
    {
        self.back_from(y, 0)
    }

    pub fn row(&self, y: usize) -> (r: &Row)
        requires
            self.wf(),
        ensures
            r@ == self@.shown(y as int),
    {
        let i: usize = self.slot(self.ring_index(y));
        &self.storage[i]
    }

    /// The line of the live screen, for writing.
    pub fn row_mut(&mut self, y: usize) -> (r: &mut Row)
        requires
            old(self).wf(),
        ensures
            r@ == old(self)@.live(y as int),
            final(self)@ == old(self)@.with_live(y as int, final(r)@),
            final(r)@.cells.len() == old(self)@.cols ==> final(self).wf(),
    {
        let k: usize = self.live_index(y);
        let i: usize = self.slot(k);
        proof {
            self.lemma_one_slot(k as int, i as int);
        }
        &mut self.storage[i]
    }

    /// Changing one slot of the storage changes one line of the ring.
    proof fn lemma_one_slot(self, k: int, i: int)
        requires
            self.wf(),
            0 <= k < self@.ring.len(),
            i == wrap(self.top + k, self.storage@.len() as int),
        ensures
            forall|g: Grid|
                #![trigger g.storage@]
                {
                    &&& g.cols == self.cols
                    &&& g.rows == self.rows
                    &&& g.max_scrollback == self.max_scrollback
                    &&& g.top == self.top
                    &&& g.history == self.history
                    &&& g.display_offset == self.display_offset
                    &&& g.full_damage == self.full_damage
                    &&& g.storage@.len() == self.storage@.len()
                    &&& forall|j: int|
                        0 <= j < self.storage@.len() && j != i ==> g.storage@[j] == self.storage@[j]
                } ==> g@ == (GridView { ring: self@.ring.update(k, g.storage@[i]@), ..self@ }),
    {
        assert forall|g: Grid|
            #![trigger g.storage@]
            {
                &&& g.cols == self.cols
                &&& g.rows == self.rows
                &&& g.max_scrollback == self.max_scrollback
                &&& g.top == self.top
                &&& g.history == self.history
                &&& g.display_offset == self.display_offset
                &&& g.full_damage == self.full_damage
                &&& g.storage@.len() == self.storage@.len()
                &&& forall|j: int|
                    0 <= j < self.storage@.len() && j != i ==> g.storage@[j] == self.storage@[j]
            } implies g@ == (GridView { ring: self@.ring.update(k, g.storage@[i]@), ..self@ }) by {
            assert(g@.ring =~= self@.ring.update(k, g.storage@[i]@));
        }
    }

    /// Read-only access to a line by absolute position, where 0 is the oldest scrollback line and
    /// `history + rows - 1` is the bottom of the screen.
    pub fn line(&self, absolute: usize) -> (r: &Row)
        requires
            self.wf(),
        ensures
            r@ == self@.line(absolute as int),
    {
        let k: usize = self.back_from(absolute, self.history);
        let i: usize = self.slot(k);
        &self.storage[i]
    }

    pub fn total_lines(&self) -> (n: usize)
        requires
            self.wf(),
        ensures
            n == self@.total(),
    {
        self.history + self.rows
    }

    /// The cell shown at `(x, y)`; a column off the right edge reads the last one.
    pub fn cell(&self, x: usize, y: usize) -> (c: Cell)
        requires
            self.wf(),
        ensures
            c == self@.shown(y as int).cells[if x < self@.cols {
                x as int
            } else {
                self@.cols - 1
            }],
    {
        let k: usize = self.ring_index(y);
        assert(self@.ring[k as int].cells.len() == self@.cols);
        let cells = self.row(y).cells();
        if x < self.cols {
            cells[x]
        } else {
            cells[self.cols - 1]
        }
    }

    /// Write a cell of the live screen; a column off the right edge is ignored.
    pub fn set_cell(&mut self, x: usize, y: usize, c: Cell)
        requires
            old(self).wf(),
        ensures
            final(self).wf(),
            final(self)@ == old(self)@.set_cell(x as int, y as int, c),
    {
        if x < self.cols {
            let k: usize = self.live_index(y);
            assert(self@.ring[k as int].cells.len() == self@.cols);
            self.row_mut(y).put(x, c);
        }
    }

    /// Mark a live row dirty without touching its contents.
    pub fn touch(&mut self, y: usize)
        requires
            old(self).wf(),
        ensures
            final(self).wf(),
            final(self)@ == (if y < old(self)@.rows {
                old(self)@.with_live(
                    y as int,
                    (RowView { dirty: true, ..old(self)@.live(y as int) }),
                )
            } else {
                old(self)@
            }),
    {
        if y < self.rows {
            let k: usize = self.live_index(y);
            assert(self@.ring[k as int].cells.len() == self@.cols);
            let r = self.row_mut(y);
            r.dirty = true;
        }
    }
}

impl Grid {
    /// Scroll lines `[top, bottom]` (inclusive, viewport-relative) up by `n`, filling from the
    /// bottom with blanks.
    ///
    /// When the region covers the whole screen this is the ring advance, and the lines that leave
    /// enter scrollback. Otherwise rows move within the region and what leaves it is discarded.
    pub fn scroll_up(&mut self, top: usize, bottom: usize, n: usize, pen: &Pen)
        requires
            old(self).wf(),
        ensures
            final(self).wf(),
            final(self)@ == old(self)@.scroll_up(top as int, bottom as int, n as int, *pen),
    {
        if n == 0 || top > bottom || bottom >= self.rows {
            return ;
        }
        let span: usize = bottom - top + 1;
        let n: usize = if n < span {
            n
        } else {
            span
        };
        if top == 0 && bottom == self.rows - 1 {
            self.scroll_up_ring(n, pen);
        } else {
            self.scroll_up_region(top, bottom, n, pen);
        }
        self.full_damage = true;
    }

    fn scroll_up_ring(&mut self, n: usize, pen: &Pen)
        requires
            old(self).wf(),
            n <= old(self)@.rows,
        ensures
            final(self).wf(),
            final(self)@ == old(self)@.ring_scrolled(n as int, *pen),
    {
        let ghost before = self@;
        let offset: usize = self.display_offset;
        self.display_offset = 0;
        let mut done: usize = 0;
        assert(self@ =~= (GridView { display_offset: 0, ..before.ring_scrolled(0, *pen) }));
        while done < n
            invariant
                done <= n <= before.rows,
                before.wf(),
                self.wf(),
                self@ == (GridView { display_offset: 0, ..before.ring_scrolled(done as int, *pen) }),
            decreases n - done,
        {
            let ghost prev = self@;
            let cap: usize = self.cap();
            // The line leaving the top of the viewport becomes history.
            if self.history < self.max_scrollback {
                self.history += 1;
            }
            self.top = if self.top + 1 < cap {
                self.top + 1
            } else {
                0
            };
            assert(self@.ring =~= Seq::new(
                prev.ring.len(),
                |i: int| prev.ring[wrap(i + 1, prev.cap())],
            ));
            // The line rotating in at the bottom is the one that just fell out of the far end of
            // the ring; recycle it.
            let bottom: usize = self.rows - 1;
            assert(self@.ring[bottom as int].cells.len() == self@.cols);
            self.row_mut(bottom).reset(pen);
            done += 1;
            assert(self@ =~= (GridView { display_offset: 0, ..before.ring_scrolled(done as int, *pen)
            }));
        }
        // Following the live screen keeps the user pinned to the bottom; if they have scrolled
        // back, hold their position by growing the offset until it meets the history limit.
        if offset > 0 {
            self.display_offset = if n < self.history && offset < self.history - n {
                offset + n
            } else {
                self.history
            };
        }
    }

    /// Exchange two lines of the live screen.
    fn exchange(&mut self, a: usize, b: usize)
        requires
            old(self).wf(),
            a < b < old(self)@.rows,
        ensures
            final(self).wf(),
            final(self)@ == (GridView {
                ring: old(self)@.ring.update(a as int, old(self)@.ring[b as int]).update(
                    b as int,
                    old(self)@.ring[a as int],
                ),
                ..old(self)@
            }),
    {
        let i: usize = self.slot(a);
        let j: usize = self.slot(b);
        let ghost before = *self;
        let mut held = Row { cells: Vec::new(), wrapped: false, dirty: true, gap: false };
        core::mem::swap(&mut held, &mut self.storage[i]);
        core::mem::swap(&mut held, &mut self.storage[j]);
        core::mem::swap(&mut held, &mut self.storage[i]);
        assert(self@.ring =~= before@.ring.update(a as int, before@.ring[b as int]).update(
            b as int,
            before@.ring[a as int],
        ));
    }

    /// Blank the lines `[from, to)` of the live screen.
    fn blank_lines(&mut self, from: usize, to: usize, pen: &Pen)
        requires
            old(self).wf(),
            from <= to <= old(self)@.rows,
        ensures
            final(self).wf(),
            final(self)@ == (GridView {
                ring: Seq::new(
                    old(self)@.ring.len(),
                    |i: int|
                        if from <= i < to {
                            blank_row(old(self)@.cols, *pen)
                        } else {
                            old(self)@.ring[i]
                        },
                ),
                ..old(self)@
            }),
    {
        let ghost before = self@;
        let mut y: usize = from;
        assert(self@.ring =~= Seq::new(
            before.ring.len(),
            |i: int|
                if from <= i < y {
                    blank_row(before.cols, *pen)
                } else {
                    before.ring[i]
                },
        ));
        while y < to
            invariant
                from <= y <= to <= before.rows,
                before.wf(),
                self.wf(),
                self@ == (GridView {
                    ring: Seq::new(
                        before.ring.len(),
                        |i: int|
                            if from <= i < y {
                                blank_row(before.cols, *pen)
                            } else {
                                before.ring[i]
                            },
                    ),
                    ..before
                }),
            decreases to - y,
        {
            assert(self@.ring[y as int].cells.len() == self@.cols);
            self.row_mut(y).reset(pen);
            y += 1;
            assert(self@.ring =~= Seq::new(
                before.ring.len(),
                |i: int|
                    if from <= i < y {
                        blank_row(before.cols, *pen)
                    } else {
                        before.ring[i]
                    },
            ));
        }
    }

    /// Fill the lines `[from, to)` of the live screen with `c`.
    pub(crate) fn fill_lines(&mut self, from: usize, to: usize, c: Cell)
        requires
            old(self).wf(),
        ensures
            final(self).wf(),
            final(self)@ == old(self)@.with_lines_filled(from as int, to as int, c),
    {
        let ghost before = self@;
        let cols: usize = self.cols;
        let end: usize = if to < self.cap() {
            to
        } else {
            self.cap()
        };
        let mut y: usize = from;
        assert(self@ =~= before.with_lines_filled(from as int, y as int, c));
        while y < end
            invariant
                from <= y,
                y <= end || y == from,
                end <= before.cap(),
                before.wf(),
                self.wf(),
                cols == before.cols,
                self@ == before.with_lines_filled(from as int, y as int, c),
            decreases end - y,
        {
            assert(self@.ring[y as int].cells.len() == self@.cols);
            self.row_mut(y).fill(0, cols, c);
            y += 1;
            assert(self@ =~= before.with_lines_filled(from as int, y as int, c));
        }
        assert(self@ =~= before.with_lines_filled(from as int, to as int, c));
    }

    fn scroll_up_region(&mut self, top: usize, bottom: usize, n: usize, pen: &Pen)
        requires
            old(self).wf(),
            top <= bottom < old(self)@.rows,
            1 <= n <= bottom - top + 1,
        ensures
            final(self).wf(),
            final(self)@ == old(self)@.region_up(top as int, bottom as int, n as int, *pen),
    {
        let ghost before = self@;
        // Each exchange moves a row handle, never the cells behind it.
        let mut y: usize = top;
        while y + n <= bottom
            invariant
                top <= y <= bottom + 1 - n,
                bottom < before.rows,
                1 <= n <= bottom - top + 1,
                before.wf(),
                self.wf(),
                self@ == (GridView { ring: self@.ring, ..before }),
                forall|i: int|
                    0 <= i < before.ring.len() && (i < top || i > bottom)
                        ==> #[trigger] self@.ring[i] == before.ring[i],
                forall|i: int| top <= i < y ==> #[trigger] self@.ring[i] == before.ring[i + n],
                forall|i: int| y + n <= i <= bottom ==> #[trigger] self@.ring[i] == before.ring[i],
            decreases bottom + 1 - y,
        {
            self.exchange(y, y + n);
            y += 1;
        }
        // Blank the lines that came in at the bottom.
        self.blank_lines(bottom + 1 - n, bottom + 1, pen);
        assert(self@.ring =~= before.region_up(top as int, bottom as int, n as int, *pen).ring);
    }

    /// Scroll lines `[top, bottom]` down by `n`, filling from the top. Never produces scrollback:
    /// what leaves at the bottom is discarded.
    pub fn scroll_down(&mut self, top: usize, bottom: usize, n: usize, pen: &Pen)
        requires
            old(self).wf(),
        ensures
            final(self).wf(),
            final(self)@ == old(self)@.scroll_down(top as int, bottom as int, n as int, *pen),
    {
        if n == 0 || top > bottom || bottom >= self.rows {
            return ;
        }
        let span: usize = bottom - top + 1;
        let n: usize = if n < span {
            n
        } else {
            span
        };
        let ghost before = self@;
        let mut y: usize = bottom + 1;
        while y > top + n
            invariant
                top + n <= y <= bottom + 1,
                bottom < before.rows,
                1 <= n <= bottom - top + 1,
                before.wf(),
                self.wf(),
                self@ == (GridView { ring: self@.ring, ..before }),
                forall|i: int|
                    0 <= i < before.ring.len() && (i < top || i > bottom)
                        ==> #[trigger] self@.ring[i] == before.ring[i],
                forall|i: int| y <= i <= bottom ==> #[trigger] self@.ring[i] == before.ring[i - n],
                forall|i: int| top <= i < y - n ==> #[trigger] self@.ring[i] == before.ring[i],
            decreases y,
        {
            y -= 1;
            self.exchange(y - n, y);
        }
        self.blank_lines(top, top + n, pen);
        assert(self@.ring =~= before.region_down(top as int, bottom as int, n as int, *pen).ring);
        self.full_damage = true;
    }

    /// Move the viewport `delta` lines (positive scrolls towards history). Returns true if the
    /// position actually changed.
    pub fn scroll_display(&mut self, delta: isize) -> (moved: bool)
        requires
            old(self).wf(),
        ensures
            final(self).wf(),
            final(self)@ == old(self)@.scroll_display(delta as int),
            moved == (old(self)@.moved_offset(delta as int) != old(self)@.display_offset),
    {
        let to: i128 = self.display_offset as i128 + delta as i128;
        let to: usize = if to < 0 {
            0
        } else if to > self.history as i128 {
            self.history
        } else {
            to as usize
        };
        if to != self.display_offset {
            self.display_offset = to;
            self.full_damage = true;
            true
        } else {
            false
        }
    }

    /// Bring the viewport back to the live screen. Returns true if it was elsewhere.
    pub fn scroll_to_bottom(&mut self) -> (moved: bool)
        requires
            old(self).wf(),
        ensures
            final(self).wf(),
            final(self)@ == old(self)@.scroll_to_bottom(),
            moved == (old(self)@.display_offset != 0),
    {
        self.scroll_display(-(self.display_offset as isize))
    }

    /// Erase the live screen.
    pub fn clear_all(&mut self, pen: &Pen)
        requires
            old(self).wf(),
        ensures
            final(self).wf(),
            final(self)@ == old(self)@.clear_all(*pen),
    {
        let ghost before = self@;
        self.blank_lines(0, self.rows, pen);
        self.full_damage = true;
        assert(self@.ring =~= before.clear_all(*pen).ring);
    }

    /// Drop every scrollback line.
    pub fn clear_history(&mut self)
        requires
            old(self).wf(),
        ensures
            final(self).wf(),
            final(self)@ == old(self)@.clear_history(),
    {
        self.history = 0;
        self.display_offset = 0;
        self.full_damage = true;
    }

    /// Resize without re-wrapping. Used for the alternate screen, whose owner redraws everything
    /// anyway and would be confused by lines moving.
    pub fn resize(&mut self, cols: usize, rows: usize, pen: &Pen)
        requires
            old(self).wf(),
            cols <= max_cols(),
            at_least_one(rows) + old(self)@.max_scrollback <= max_lines(),
        ensures
            final(self).wf(),
            final(self)@ == old(self)@.resized(at_least_one(cols), at_least_one(rows), *pen),
            final(self)@.cols == at_least_one(cols),
            final(self)@.rows == at_least_one(rows),
    {
        proof {
            reveal(GridView::resized);
        }
        let cols: usize = if cols < 1 {
            1
        } else {
            cols
        };
        let rows: usize = if rows < 1 {
            1
        } else {
            rows
        };
        if cols == self.cols && rows == self.rows {
            return ;
        }
        let ghost target = Seq::new(
            self@.total() as nat,
            |i: int| resized_row(self@.line(i), cols as int, *pen),
        );
        let total: usize = self.total_lines();
        let mut lines: Vec<Row> = Vec::with_capacity(total);
        while lines.len() < total
            invariant
                self.wf(),
                total == self@.total(),
                lines@.len() <= total,
                target == Seq::new(
                    self@.total() as nat,
                    |i: int| resized_row(self@.line(i), cols as int, *pen),
                ),
                forall|i: int| 0 <= i < lines@.len() ==> (#[trigger] lines@[i])@ == target[i],
            decreases total - lines@.len(),
        {
            let mut row = self.line(lines.len()).clone();
            row.resize(cols, pen);
            lines.push(row);
        }
        assert(row_views(lines@) =~= target);
        self.rebuild(lines, cols, rows);
    }

    /// Resize, re-wrapping logical lines to the new width.
    ///
    /// Physical rows joined by autowrap are rejoined into the logical line that was printed, then
    /// split again at the new width. Without this, narrowing a window leaves text truncated and
    /// widening it leaves ragged half-empty lines.
    ///
    /// `cursor` is `(col, row)` in viewport coordinates; the updated position is returned, since
    /// the cursor has to follow its character.
    pub fn reflow(
        &mut self,
        cols: usize,
        rows: usize,
        _pen: &Pen,
        cursor: (usize, usize),
    ) -> (at: (usize, usize))
        requires
            old(self).wf(),
            cols <= max_cols(),
            at_least_one(rows) + old(self)@.max_scrollback <= max_lines(),
        ensures
            final(self).wf(),
            final(self)@ == old(self)@.reflowed(at_least_one(cols), at_least_one(rows)),
            (at.0 as int, at.1 as int) == old(self)@.reflowed_position(
                cursor.0 as int,
                cursor.1 as int,
                at_least_one(cols),
                at_least_one(rows),
            ),
            final(self)@.cols == at_least_one(cols),
            final(self)@.rows == at_least_one(rows),
    {
        proof {
            reveal(GridView::reflowed);
            reveal(GridView::reflowed_position);
        }
        let cols: usize = if cols < 1 {
            1
        } else {
            cols
        };
        let rows: usize = if rows < 1 {
            1
        } else {
            rows
        };
        if cols == self.cols && rows == self.rows {
            return cursor;
        }
        let ghost before = self@;
        let ghost (aim_line, aim_off) = before.logical_position(cursor.0 as int, cursor.1 as int);
        let (logical, line, off) = self.gather(cursor);
        let ghost all = logical_lines(before.lines());

        let mut lines: Vec<Row> = Vec::new();
        let mut at: (usize, usize) = (0, 0);
        let mut li: usize = 0;
        assert(row_views(lines@) =~= split_all(all.take(0), cols as int));
        while li < logical.len()
            invariant
                cols >= 1,
                li <= logical@.len(),
                cell_views(logical@) == all,
                row_views(lines@) == split_all(all.take(li as int), cols as int),
                forall|i: int| 0 <= i < lines@.len() ==> (#[trigger] lines@[i])@.cells.len() == cols,
                line < li ==> ({
                    let here = split_position(all[line as int], 0, cols as int, off as int);
                    &&& at.0 == here.0
                    &&& at.1 == split_all(all.take(line as int), cols as int).len() + here.1
                }),
            decreases logical@.len() - li,
        {
            let ghost earlier = lines@;
            let ghost held = row_views(lines@);
            let ghost cells = all[li as int];
            let placed = push_split(&mut lines, &logical[li], cols, off);
            if li == line {
                at = placed;
            }
            li += 1;
            proof {
                assert(all.take(li as int).drop_last() =~= all.take(li - 1));
                lemma_split_widths(cells, 0, cols as int);
                let tail = split_rows(cells, 0, cols as int);
                assert(row_views(lines@) == held + tail);
                assert(row_views(lines@).len() == lines@.len());
                assert forall|i: int| 0 <= i < lines@.len() implies (#[trigger] lines@[i])@.cells.len()
                    == cols by {
                    assert(lines@[i]@ == (held + tail)[i]);
                    if i < held.len() {
                        assert(held[i] == earlier[i]@);
                    } else {
                        assert(lines@[i]@ == tail[i - held.len()]);
                    }
                }
            }
        }
        assert(all.take(all.len() as int) =~= all);

        let left: usize = if lines.len() > rows {
            lines.len() - rows
        } else {
            0
        };
        let row: usize = if at.1 < left {
            0
        } else if at.1 - left > rows - 1 {
            rows - 1
        } else {
            at.1 - left
        };
        self.rebuild(lines, cols, rows);
        (at.0, row)
    }

    /// The logical lines of the whole grid, and the line and offset of a position on the screen.
    fn gather(&self, cursor: (usize, usize)) -> (r: (Vec<Vec<Cell>>, usize, u128))
        requires
            self.wf(),
        ensures
            cell_views(r.0@) == logical_lines(self@.lines()),
            (r.1 as int, r.2 as int) == self@.logical_position(cursor.0 as int, cursor.1 as int),
            r.1 < r.0@.len(),
    {
        let total: usize = self.total_lines();
        let cursor_line: usize = if cursor.1 < self.rows {
            self.history + cursor.1
        } else {
            self.history + (self.rows - 1)
        };
        let ghost rows = self@.lines();
        let mut logical: Vec<Vec<Cell>> = Vec::new();
        let mut current: Vec<Cell> = Vec::new();
        let mut line: usize = 0;
        let mut off: u128 = 0;
        let mut i: usize = 0;
        assert(cell_views(logical@) =~= finished_lines(rows.take(0)));
        while i < total
            invariant
                self.wf(),
                rows == self@.lines(),
                total == rows.len(),
                i <= total,
                cursor_line < total,
                cell_views(logical@) == finished_lines(rows.take(i as int)),
                current@ == open_line(rows.take(i as int)),
                i > 0 && rows[i - 1].wrapped ==> current@.len() > 0,
                i > cursor_line ==> line == finished_lines(rows.take(cursor_line as int)).len(),
                i > cursor_line ==> off == open_line(rows.take(cursor_line as int)).len() + cursor.0,
                i > cursor_line ==> line <= logical@.len(),
                i > cursor_line && current@.len() == 0 ==> line < logical@.len(),
            decreases total - i,
        {
            let row = self.line(i);
            if i == cursor_line {
                line = logical.len();
                off = current.len() as u128 + cursor.0 as u128;
            }
            let ghost so_far = current@;
            current.extend_from_slice(row.text_cells());
            assert(rows[i as int].cells.len() == self@.cols) by {
                lemma_wrap_is_mod(i - self@.history, self@.cap());
            }
            assert(rows[i as int] == row@);
            assert(current@ =~= so_far + joined(row@));
            assert(rows.take(i + 1).drop_last() =~= rows.take(i as int));
            let ghost done = cell_views(logical@);
            if !row.wrapped {
                // Trailing blanks are padding, not content: keeping them would re-wrap whitespace
                // onto its own lines.
                drop_padding(&mut current);
                let mut finished: Vec<Cell> = Vec::new();
                core::mem::swap(&mut finished, &mut current);
                logical.push(finished);
                assert(cell_views(logical@) =~= done.push(finished@));
            }
            i += 1;
        }
        assert(rows.take(total as int) =~= rows);
        let ghost done = cell_views(logical@);
        if current.len() > 0 || logical.len() == 0 {
            drop_padding(&mut current);
            logical.push(current);
            assert(cell_views(logical@) =~= done.push(current@));
        }
        (logical, line, off)
    }

    /// Install a fresh set of lines as the ring contents.
    fn rebuild(&mut self, lines: Vec<Row>, cols: usize, rows: usize)
        requires
            old(self).wf(),
            1 <= cols <= max_cols(),
            1 <= rows,
            rows + old(self)@.max_scrollback <= max_lines(),
            forall|i: int| 0 <= i < lines@.len() ==> (#[trigger] lines@[i])@.cells.len() == cols,
        ensures
            final(self).wf(),
            final(self)@ == old(self)@.rebuilt(row_views(lines@), cols as int, rows as int),
    {
        let ghost target = self@.rebuilt(row_views(lines@), cols as int, rows as int);
        let ghost all = row_views(lines@);
        let cap: usize = rows + self.max_scrollback;
        let mut lines = lines;
        let mut lines = if lines.len() > cap {
            let excess: usize = lines.len() - cap;
            lines.split_off(excess)
        } else {
            lines
        };
        let ghost kept = if all.len() > cap {
            all.skip(all.len() - cap)
        } else {
            all
        };
        assert(row_views(lines@) =~= kept);
        let history: usize = if lines.len() > rows {
            lines.len() - rows
        } else {
            0
        };
        while lines.len() < cap
            invariant
                kept.len() <= lines@.len() <= cap,
                forall|i: int| 0 <= i < kept.len() ==> (#[trigger] lines@[i])@ == kept[i],
                forall|i: int|
                    kept.len() <= i < lines@.len() ==> (#[trigger] lines@[i])@ == empty_row(
                        cols as int,
                    ),
            decreases cap - lines@.len(),
        {
            lines.push(Row::new(cols));
        }
        self.storage = lines;
        self.cols = cols;
        self.rows = rows;
        self.history = history;
        self.top = history;
        self.display_offset = 0;
        self.full_damage = true;
        assert(self@.ring =~= target.ring);
    }
}

/// A position that has followed its character is on the screen.
pub proof fn lemma_reflowed_on_screen(g: GridView, x: int, y: int, cols: int, rows: int)
    requires
        cols >= 1,
        rows >= 1,
        cols != g.cols || rows != g.rows,
    ensures
        0 <= g.reflowed_position(x, y, cols, rows).0 < cols,
        0 <= g.reflowed_position(x, y, cols, rows).1 < rows,
{
    reveal(GridView::reflowed_position);
    let logical = logical_lines(g.lines());
    let (line, off) = g.logical_position(x, y);
    lemma_position_in_row(logical[line], 0, cols, off);
}

/// Every row of a split line is as wide as the screen.
pub proof fn lemma_split_widths(cells: Seq<Cell>, pos: int, cols: int)
    requires
        cols >= 0,
    ensures
        forall|i: int|
            0 <= i < split_rows(cells, pos, cols).len()
                ==> (#[trigger] split_rows(cells, pos, cols)[i]).cells.len() == cols,
    decreases cells.len() - pos,
{
    let take = row_take(cells, pos, cols);
    let first = padded_row(cells.subrange(pos, pos + take), cols, pos + take < cells.len());
    if pos + take < cells.len() && take > 0 {
        lemma_split_widths(cells, pos + take, cols);
        let rest = split_rows(cells, pos + take, cols);
        assert forall|i: int| 0 <= i < split_rows(cells, pos, cols).len() implies (
        #[trigger] split_rows(cells, pos, cols)[i]).cells.len() == cols by {
            if i > 0 {
                assert(split_rows(cells, pos, cols)[i] == rest[i - 1]);
            }
        }
    }
}

/// A size of nought is taken for one.
pub open spec fn at_least_one(n: usize) -> int {
    if n < 1 {
        1
    } else {
        n as int
    }
}

} // verus!
