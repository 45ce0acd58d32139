//! What a terminal is, and what each operation makes of it.

use vstd::prelude::*;

use super::cell::{blank_of, plain_pen, scalar_of, Cell, CellFlags, Pen, CLUSTER_TAG};
use super::charset::graphics_of;
use super::color::Color;
use super::cursor::{Charset, CursorShape, CursorView};
use super::grid::{max_cols, max_lines, used_len, GridView, RowView};
use super::mode::{initial_mode, TermMode};
use super::vt::{display_width, lossy_text, VtEvent};
use crate::text::decimal;

verus! {

/// The state of a terminal.
#[verifier::ext_equal]
pub ghost struct TermView {
    /// The screen in use.
    pub grid: GridView,
    /// The other screen.
    pub inactive: GridView,
    pub cursor: CursorView,
    pub saved_cursor: CursorView,
    pub saved_cursor_alt: CursorView,
    pub mode: TermMode,
    pub cursor_shape: CursorShape,
    pub cursor_blinks: bool,
    /// The scroll region, both ends included.
    pub scroll_top: int,
    pub scroll_bot: int,
    /// The columns with a tab stop.
    pub tabs: Seq<bool>,
    /// Characters of several scalars.
    pub clusters: Seq<Seq<char>>,
    /// The colours that `Cell::underline` numbers from one.
    pub underline_colors: Seq<Color>,
    /// Bytes to send back.
    pub replies: Seq<u8>,
    pub title: Option<Seq<char>>,
    pub title_revision: u64,
    pub bell_revision: u64,
    /// The escape-sequence parser is back in its ground state.
    pub ground_signal: bool,
    /// Anything visible changed.
    pub dirty: bool,
}

/// The larger of two numbers.
pub open spec fn max(a: int, b: int) -> int {
    if a < b {
        b
    } else {
        a
    }
}

/// The smaller of two numbers.
pub open spec fn min(a: int, b: int) -> int {
    if b < a {
        b
    } else {
        a
    }
}

/// Could a cursor ever have been here? A saved position may lie outside a screen that was made
/// smaller since.
pub open spec fn reachable(c: CursorView) -> bool {
    0 <= c.x <= max_cols() && 0 <= c.y <= max_lines()
}

/// The tab stops of a fresh terminal: every eighth column but the first.
pub open spec fn default_tab_stops(cols: int) -> Seq<bool> {
    Seq::new(cols as nat, |i: int| i % 8 == 0 && i != 0)
}

/// The first tab stop from column `x` on, or the last column.
pub open spec fn stop_from(tabs: Seq<bool>, x: int) -> int
    decreases tabs.len() - x,
{
    if x >= tabs.len() {
        tabs.len() - 1
    } else if tabs[x] {
        x
    } else {
        stop_from(tabs, x + 1)
    }
}

/// The last tab stop before column `x`, or the first column.
pub open spec fn stop_before(tabs: Seq<bool>, x: int) -> int
    decreases x,
{
    if x <= 0 {
        0
    } else if tabs[x - 1] {
        x - 1
    } else {
        stop_before(tabs, x - 1)
    }
}

/// Where `n` forward tabs lead.
pub open spec fn tab_column(tabs: Seq<bool>, x: int, n: nat) -> int
    decreases n,
{
    if n == 0 {
        x
    } else {
        stop_from(tabs, tab_column(tabs, x, (n - 1) as nat) + 1)
    }
}

/// Where `n` backward tabs lead.
pub open spec fn back_tab_column(tabs: Seq<bool>, x: int, n: nat) -> int
    decreases n,
{
    if n == 0 {
        x
    } else {
        stop_before(tabs, min(back_tab_column(tabs, x, (n - 1) as nat), tabs.len() as int))
    }
}

/// Parameter `i` of a control sequence, or `default` where it is absent or zero.
pub open spec fn param(params: Seq<Seq<u16>>, i: int, default: u16) -> u16 {
    if i < params.len() && params[i].len() > 0 && params[i][0] != 0 {
        params[i][0]
    } else {
        default
    }
}

/// The head of a group of sub-parameters.
pub open spec fn head(group: Seq<u16>) -> Option<u16> {
    if group.len() > 0 {
        Some(group[0])
    } else {
        None
    }
}

/// The low byte of a parameter.
pub open spec fn low_byte(n: u16) -> u8 {
    (n % 256) as u8
}

/// A colour given after 38, 48 or 58 at parameter `i`, and how many parameters it takes.
///
/// There is a colon form (`38:2::r:g:b`, one parameter with sub-parameters; the colour-space
/// number may be left out) and a semicolon form (`38;2;r;g;b`, several parameters). Either way, 2
/// announces red, green and blue, and 5 a palette slot.
pub open spec fn extended_color(params: Seq<Seq<u16>>, i: int) -> Option<(Color, int)> {
    let group = params[i];
    if group.len() >= 2 {
        let base = if group.len() >= 6 {
            3int
        } else {
            2int
        };
        if group[1] == 2 && base + 2 < group.len() {
            Some(
                (
                    Color::spec_rgb(
                        low_byte(group[base]),
                        low_byte(group[base + 1]),
                        low_byte(group[base + 2]),
                    ),
                    1,
                ),
            )
        } else if group[1] == 5 && group.len() > 2 {
            Some((Color::spec_indexed(low_byte(group[2])), 1))
        } else {
            None
        }
    } else {
        let given = |k: int| i + k < params.len() && params[i + k].len() > 0;
        let value = |k: int| params[i + k][0];
        if given(1) && value(1) == 2 && given(2) && given(3) && given(4) {
            Some((Color::spec_rgb(low_byte(value(2)), low_byte(value(3)), low_byte(value(4))), 5))
        } else if given(1) && value(1) == 5 && given(2) {
            Some((Color::spec_indexed(low_byte(value(2))), 3))
        } else {
            None
        }
    }
}

/// What underline style `style` sets.
pub open spec fn underline_style(style: u16) -> u16 {
    if style == 0 {
        0
    } else if style == 2 {
        CellFlags::DOUBLE_UNDERLINE
    } else if style == 3 {
        CellFlags::CURLY_UNDERLINE
    } else if style == 4 {
        CellFlags::DOTTED_UNDERLINE
    } else if style == 5 {
        CellFlags::DASHED_UNDERLINE
    } else {
        CellFlags::UNDERLINE
    }
}

/// The attributes that a rendition code switches on, if that is all it does.
pub open spec fn sgr_sets(code: u16) -> Option<u16> {
    if code == 1 {
        Some(CellFlags::BOLD)
    } else if code == 2 {
        Some(CellFlags::DIM)
    } else if code == 3 {
        Some(CellFlags::ITALIC)
    } else if code == 5 || code == 6 {
        Some(CellFlags::BLINK)
    } else if code == 7 {
        Some(CellFlags::REVERSE)
    } else if code == 8 {
        Some(CellFlags::HIDDEN)
    } else if code == 9 {
        Some(CellFlags::STRIKEOUT)
    } else if code == 53 {
        Some(CellFlags::OVERLINE)
    } else {
        None
    }
}

/// The attributes that a rendition code switches off, if that is all it does.
pub open spec fn sgr_clears(code: u16) -> Option<u16> {
    if code == 22 {
        Some((CellFlags::BOLD | CellFlags::DIM) as u16)
    } else if code == 23 {
        Some(CellFlags::ITALIC)
    } else if code == 24 {
        Some(CellFlags::ANY_UNDERLINE)
    } else if code == 25 {
        Some(CellFlags::BLINK)
    } else if code == 27 {
        Some(CellFlags::REVERSE)
    } else if code == 28 {
        Some(CellFlags::HIDDEN)
    } else if code == 29 {
        Some(CellFlags::STRIKEOUT)
    } else if code == 55 {
        Some(CellFlags::OVERLINE)
    } else {
        None
    }
}

/// The pen after a rendition code that reads nothing beyond its own group of sub-parameters.
pub open spec fn sgr_pen(pen: Pen, code: u16, group: Seq<u16>) -> Pen {
    if code == 0 {
        plain_pen()
    } else if sgr_sets(code) is Some {
        Pen { flags: pen.flags.with(sgr_sets(code)->0), ..pen }
    } else if sgr_clears(code) is Some {
        Pen { flags: pen.flags.without(sgr_clears(code)->0), ..pen }
    } else if code == 4 {
        let style = if group.len() > 1 {
            group[1]
        } else {
            1
        };
        Pen {
            flags: pen.flags.without(CellFlags::ANY_UNDERLINE).with(underline_style(style)),
            ..pen
        }
    } else if code == 21 {
        Pen {
            flags: pen.flags.without(CellFlags::ANY_UNDERLINE).with(CellFlags::DOUBLE_UNDERLINE),
            ..pen
        }
    } else if 30 <= code <= 37 {
        Pen { fg: Color::spec_indexed((code - 30) as u8), ..pen }
    } else if code == 39 {
        Pen { fg: Color(0), ..pen }
    } else if 40 <= code <= 47 {
        Pen { bg: Color::spec_indexed((code - 40) as u8), ..pen }
    } else if code == 49 {
        Pen { bg: Color(0), ..pen }
    } else if code == 59 {
        Pen { underline: 0, ..pen }
    } else if 90 <= code <= 97 {
        Pen { fg: Color::spec_indexed((code - 90 + 8) as u8), ..pen }
    } else if 100 <= code <= 107 {
        Pen { bg: Color::spec_indexed((code - 100 + 8) as u8), ..pen }
    } else {
        pen
    }
}

/// The mode that a private mode number switches, for those that do only that.
pub open spec fn private_mode_bit(number: u16) -> Option<u32> {
    if number == 1 {
        Some(TermMode::APP_CURSOR)
    } else if number == 5 {
        Some(TermMode::REVERSE_VIDEO)
    } else if number == 7 {
        Some(TermMode::AUTOWRAP)
    } else if number == 25 {
        Some(TermMode::SHOW_CURSOR)
    } else if number == 1000 {
        Some(TermMode::MOUSE_CLICK)
    } else if number == 1002 {
        Some(TermMode::MOUSE_DRAG)
    } else if number == 1003 {
        Some(TermMode::MOUSE_MOTION)
    } else if number == 1004 {
        Some(TermMode::FOCUS_REPORT)
    } else if number == 1006 {
        Some(TermMode::MOUSE_SGR)
    } else if number == 1007 {
        Some(TermMode::ALT_SCROLL)
    } else if number == 2004 {
        Some(TermMode::BRACKETED_PASTE)
    } else if number == 2026 {
        Some(TermMode::SYNC_UPDATE)
    } else {
        None
    }
}

/// The mode that an ANSI mode number switches.
pub open spec fn ansi_mode_bit(number: u16) -> Option<u32> {
    if number == 4 {
        Some(TermMode::INSERT)
    } else if number == 20 {
        Some(TermMode::LINE_FEED_NL)
    } else {
        None
    }
}

/// The cursor shape and blinking that a DECSCUSR number asks for.
pub open spec fn cursor_style(n: u16) -> (CursorShape, bool) {
    if n <= 1 {
        (CursorShape::Block, true)
    } else if n == 2 {
        (CursorShape::Block, false)
    } else if n == 3 {
        (CursorShape::Underline, true)
    } else if n == 4 {
        (CursorShape::Underline, false)
    } else if n == 5 {
        (CursorShape::Beam, true)
    } else {
        (CursorShape::Beam, false)
    }
}

/// A revision counter after one more change; it wraps round.
pub open spec fn next_revision(n: u64) -> u64 {
    if n == u64::MAX {
        0
    } else {
        (n + 1) as u64
    }
}

impl TermView {
    pub open spec fn wf(self) -> bool {
        &&& self.grid.wf()
        &&& self.inactive.wf()
        &&& self.grid.cols == self.inactive.cols
        &&& self.grid.rows == self.inactive.rows
        &&& 0 <= self.scroll_top <= self.scroll_bot < self.grid.rows
        &&& self.tabs.len() == self.grid.cols
        &&& reachable(self.cursor)
        &&& reachable(self.saved_cursor)
        &&& reachable(self.saved_cursor_alt)
    }

    /// A fresh terminal. The alternate screen has no scrollback.
    pub open spec fn fresh(cols: int, rows: int, scrollback: int) -> TermView {
        TermView {
            grid: GridView::fresh(cols, rows, scrollback),
            inactive: GridView::fresh(cols, rows, 0),
            cursor: CursorView::home(plain_pen()),
            saved_cursor: CursorView::home(plain_pen()),
            saved_cursor_alt: CursorView::home(plain_pen()),
            mode: initial_mode(),
            cursor_shape: CursorShape::Block,
            cursor_blinks: true,
            scroll_top: 0,
            scroll_bot: rows - 1,
            tabs: default_tab_stops(cols),
            clusters: Seq::empty(),
            underline_colors: Seq::empty(),
            replies: Seq::empty(),
            title: None,
            title_revision: 0,
            bell_revision: 0,
            ground_signal: false,
            dirty: true,
        }
    }

    pub open spec fn cols(self) -> int {
        self.grid.cols
    }

    pub open spec fn rows(self) -> int {
        self.grid.rows
    }

    /// Is a mode on?
    pub open spec fn on(self, bit: u32) -> bool {
        self.mode.contains(bit)
    }

    pub open spec fn with_grid(self, grid: GridView) -> TermView {
        TermView { grid, ..self }
    }

    /// The line of the live screen that the cursor is on.
    pub open spec fn cursor_row(self) -> RowView {
        self.grid.live(self.cursor.y)
    }

    /// The terminal with the line that the cursor is on replaced.
    pub open spec fn with_cursor_row(self, r: RowView) -> TermView {
        self.with_grid(self.grid.with_live(self.cursor.y, r))
    }

    /// The cursor elsewhere, pending wrap kept.
    pub open spec fn at(self, x: int, y: int) -> TermView {
        TermView { cursor: CursorView { x, y, ..self.cursor }, ..self }
    }

    /// A pending wrap forgotten.
    pub open spec fn settled(self) -> TermView {
        TermView { cursor: CursorView { wrap_pending: false, ..self.cursor }, ..self }
    }

    pub open spec fn with_pen(self, pen: Pen) -> TermView {
        TermView { cursor: CursorView { pen, ..self.cursor }, ..self }
    }

    pub open spec fn marked_dirty(self) -> TermView {
        TermView { dirty: true, ..self }
    }

    pub open spec fn signalled(self) -> TermView {
        TermView { ground_signal: true, ..self }
    }

    pub open spec fn replied(self, bytes: Seq<u8>) -> TermView {
        TermView { replies: self.replies + bytes, ..self }
    }

    /// What erasing leaves behind.
    pub open spec fn blank(self) -> Cell {
        blank_of(self.cursor.pen)
    }

    /// Something is printed: the viewport is back on the live screen.
    pub open spec fn output(self) -> TermView {
        TermView { dirty: true, grid: self.grid.scroll_to_bottom(), ..self }
    }

    // ------------------------------------------------------------------
    // Line feeds and printing
    // ------------------------------------------------------------------

    /// One line down; at the bottom of the scroll region, the region scrolls instead.
    #[verifier::opaque]
    pub open spec fn linefeed(self) -> TermView {
        if self.cursor.y == self.scroll_bot {
            self.with_grid(
                self.grid.scroll_up(self.scroll_top, self.scroll_bot, 1, self.cursor.pen),
            )
        } else if self.cursor.y + 1 < self.rows() {
            self.at(self.cursor.x, self.cursor.y + 1)
        } else {
            self
        }
    }

    /// One line up; at the top of the scroll region, the region scrolls instead.
    #[verifier::opaque]
    pub open spec fn reverse_index(self) -> TermView {
        if self.cursor.y == self.scroll_top {
            self.with_grid(
                self.grid.scroll_down(self.scroll_top, self.scroll_bot, 1, self.cursor.pen),
            )
        } else {
            self.at(self.cursor.x, max(self.cursor.y - 1, 0))
        }
    }

    /// The line continues into the next one, where the cursor now is.
    #[verifier::opaque]
    pub open spec fn wrapped(self) -> TermView {
        self.with_cursor_row(RowView { wrapped: true, ..self.cursor_row() }).at(
            0,
            self.cursor.y,
        ).settled().linefeed()
    }

    /// The last column of the line is left to a double-width character that does not fit there.
    pub open spec fn gapped(self) -> TermView {
        self.with_cursor_row(self.cursor_row().gapped())
    }

    /// The cell that the pen makes of a character.
    pub open spec fn inked(self, ch: u32) -> Cell {
        let pen = self.cursor.pen;
        Cell { ch, fg: pen.fg, bg: pen.bg, flags: pen.flags, underline: pen.underline }
    }

    /// `n` blanks at column `x` of line `y` push the rest of the line to the right.
    #[verifier::opaque]
    pub open spec fn shifted_right(self, x: int, y: int, n: int) -> TermView {
        if x >= self.cols() {
            self
        } else {
            let room = min(n, self.cols() - x);
            self.with_grid(
                self.grid.with_live(y, self.grid.live(y).opened(x, room, self.blank())),
            )
        }
    }

    /// The cell that a character of `width` columns starts with.
    pub open spec fn lead_cell(self, c: char, width: int) -> Cell {
        let plain = self.inked(c as u32);
        if width == 2 {
            Cell { flags: plain.flags.with(CellFlags::WIDE), ..plain }
        } else {
            plain
        }
    }

    /// The filler half of a double-width character.
    pub open spec fn filler_cell(self, c: char) -> Cell {
        let lead = self.lead_cell(c, 2);
        Cell {
            ch: 0,
            flags: lead.flags.without(CellFlags::WIDE).with(CellFlags::WIDE_SPACER),
            ..lead
        }
    }

    /// A character of `width` columns is written where the cursor is.
    #[verifier::opaque]
    pub open spec fn drawn(self, c: char, width: int) -> TermView {
        let x = self.cursor.x;
        let y = self.cursor.y;
        let made_room = if self.on(TermMode::INSERT) {
            self.shifted_right(x, y, width)
        } else {
            self
        };
        let grid = made_room.grid.set_cell(x, y, self.lead_cell(c, width));
        self.with_grid(
            if width == 2 {
                grid.set_cell(x + 1, y, self.filler_cell(c))
            } else {
                grid
            },
        )
    }

    /// The cursor moves on by `width` columns. At the right margin it stays, and a wrap is pending.
    pub open spec fn advanced(self, width: int) -> TermView {
        if self.cursor.x + width >= self.cols() {
            TermView {
                cursor: CursorView {
                    x: self.cols() - 1,
                    wrap_pending: self.cursor.wrap_pending || self.on(TermMode::AUTOWRAP),
                    ..self.cursor
                },
                ..self
            }
        } else {
            self.at(self.cursor.x + width, self.cursor.y)
        }
    }

    /// A character of `width` columns is written where the cursor is, and the cursor moves on.
    pub open spec fn placed(self, c: char, width: int) -> TermView {
        self.drawn(c, width).advanced(width)
    }

    /// A character of `width` columns is printed: first a pending wrap happens, and a
    /// double-width character that does not fit in the last column wraps too and leaves a gap, or
    /// is dropped where autowrap is off.
    #[verifier::opaque]
    pub open spec fn put_char(self, c: char, width: int) -> TermView {
        let v = if self.cursor.wrap_pending {
            self.wrapped()
        } else {
            self
        };
        if width == 2 && v.cursor.x + 1 >= v.cols() {
            if v.on(TermMode::AUTOWRAP) {
                v.gapped().wrapped().placed(c, width)
            } else {
                v
            }
        } else {
            v.placed(c, width)
        }
    }

    /// A cursor beyond the right margin is brought back to it, as if it had just reached it.
    pub open spec fn within_margin(self) -> TermView {
        if self.cursor.x >= self.cols() && !self.cursor.wrap_pending {
            let v = self.with_cursor_row(RowView { dirty: true, ..self.cursor_row() });
            TermView {
                cursor: CursorView {
                    x: self.cols() - 1,
                    wrap_pending: self.on(TermMode::AUTOWRAP),
                    ..self.cursor
                },
                ..v
            }
        } else {
            self
        }
    }

    /// A printable ASCII byte is printed.
    #[verifier::opaque]
    pub open spec fn typed(self, b: u8) -> TermView {
        let v = self.output();
        if v.cursor.charset() == Charset::Graphics {
            v.put_char(graphics_of(b as char), 1)
        } else if v.on(TermMode::INSERT) {
            v.put_char(b as char, 1)
        } else {
            v.within_margin().put_char(b as char, 1)
        }
    }

    /// A run of printable ASCII bytes is printed, one after the other.
    pub open spec fn typed_run(self, bytes: Seq<u8>) -> TermView
        decreases bytes.len(),
    {
        if bytes.len() == 0 {
            self
        } else {
            self.typed_run(bytes.drop_last()).typed(bytes.last())
        }
    }

    /// The characters that a cell shows.
    pub open spec fn characters(self, c: Cell) -> Seq<char> {
        if c.ch >= CLUSTER_TAG {
            let i = c.ch - CLUSTER_TAG;
            if i < self.clusters.len() {
                self.clusters[i]
            } else {
                Seq::empty()
            }
        } else if scalar_of(c.ch) is Some {
            seq![scalar_of(c.ch)->0]
        } else {
            seq![' ']
        }
    }

    /// The column of the character that was printed last: the cursor's own while a wrap is pending,
    /// else the one before; on the filler half of a double-width character, one more to the left.
    pub open spec fn last_column(self) -> int {
        let x = if self.cursor.wrap_pending {
            self.cursor.x
        } else {
            self.cursor.x - 1
        };
        if x > 0 && self.shown_cell(x, self.cursor.y).flags.contains(CellFlags::WIDE_SPACER) {
            x - 1
        } else {
            x
        }
    }

    /// The cell shown at a position; a column off the right edge reads the last one.
    pub open spec fn shown_cell(self, x: int, y: int) -> Cell {
        self.grid.shown(y).cells[min(x, self.cols() - 1)]
    }

    /// A mark of no width joins the character before it. A character takes at most eight scalars;
    /// further marks are dropped.
    #[verifier::opaque]
    pub open spec fn combined(self, mark: char) -> TermView {
        if !self.cursor.wrap_pending && self.cursor.x == 0 {
            self
        } else {
            let x = self.last_column();
            let cell = self.shown_cell(x, self.cursor.y);
            let chars = self.characters(cell);
            if chars.len() >= 8 {
                self
            } else {
                let number = self.clusters.len() as u32;
                TermView {
                    clusters: self.clusters.push(chars.push(mark)),
                    grid: self.grid.set_cell(
                        x,
                        self.cursor.y,
                        Cell { ch: number | CLUSTER_TAG, ..cell },
                    ),
                    dirty: true,
                    ..self
                }
            }
        }
    }

    /// What a character looks like in the character set in use.
    pub open spec fn shown(self, c: char) -> char {
        if self.cursor.charset() == Charset::Graphics {
            graphics_of(c)
        } else {
            c
        }
    }

    /// A character is written that takes `width` columns: one that takes none joins the one before.
    #[verifier::opaque]
    pub open spec fn printed_as(self, shown: char, width: Option<usize>) -> TermView {
        let v = self.output().signalled();
        match width {
            Some(w) => if w == 0 {
                v.combined(shown)
            } else {
                v.put_char(shown, w as int)
            },
            None => v.combined(shown),
        }
    }

    /// A character is printed: in the character set in use, and as wide as it is.
    pub open spec fn print(self, c: char) -> TermView {
        self.printed_as(self.shown(c), display_width(self.shown(c)))
    }

    /// A control byte.
    #[verifier::opaque]
    pub open spec fn execute(self, byte: u8) -> TermView {
        let v = self.marked_dirty();
        if byte == 0x07 {
            TermView { bell_revision: next_revision(self.bell_revision), ..v }
        } else if byte == 0x08 {
            if self.cursor.wrap_pending {
                v.settled()
            } else {
                v.at(max(self.cursor.x - 1, 0), self.cursor.y)
            }
        } else if byte == 0x09 {
            v.tab(1)
        } else if byte == 0x0A || byte == 0x0B || byte == 0x0C {
            let down = v.with_grid(v.grid.scroll_to_bottom()).linefeed();
            if self.on(TermMode::LINE_FEED_NL) {
                down.at(0, down.cursor.y).settled()
            } else {
                down.settled()
            }
        } else if byte == 0x0D {
            v.at(0, self.cursor.y).settled()
        } else if byte == 0x0E {
            TermView { cursor: CursorView { shifted: true, ..self.cursor }, ..v }
        } else if byte == 0x0F {
            TermView { cursor: CursorView { shifted: false, ..self.cursor }, ..v }
        } else {
            v
        }
    }

    // ------------------------------------------------------------------
    // Moving the cursor
    // ------------------------------------------------------------------

    /// The topmost and bottommost rows that can be addressed.
    pub open spec fn bounds(self) -> (int, int) {
        if self.on(TermMode::ORIGIN) {
            (self.scroll_top, self.scroll_bot)
        } else {
            (0, self.rows() - 1)
        }
    }

    pub open spec fn goto(self, x: int, y: int) -> TermView {
        let (top, bot) = self.bounds();
        self.at(min(x, self.cols() - 1), min(top + y, bot)).settled().marked_dirty()
    }

    pub open spec fn move_up(self, n: int) -> TermView {
        self.at(self.cursor.x, max(self.cursor.y - n, self.bounds().0)).settled()
    }

    pub open spec fn move_down(self, n: int) -> TermView {
        self.at(self.cursor.x, min(self.cursor.y + n, self.bounds().1)).settled()
    }

    pub open spec fn move_left(self, n: int) -> TermView {
        self.at(max(self.cursor.x - n, 0), self.cursor.y).settled()
    }

    pub open spec fn move_right(self, n: int) -> TermView {
        self.at(min(self.cursor.x + n, self.cols() - 1), self.cursor.y).settled()
    }

    pub open spec fn tab(self, n: int) -> TermView {
        self.at(tab_column(self.tabs, self.cursor.x, max(n, 1) as nat), self.cursor.y).settled()
    }

    pub open spec fn back_tab(self, n: int) -> TermView {
        self.at(
            back_tab_column(self.tabs, self.cursor.x, max(n, 1) as nat),
            self.cursor.y,
        ).settled()
    }

    pub open spec fn save_cursor(self) -> TermView {
        TermView { saved_cursor: self.cursor, ..self }
    }

    pub open spec fn restore_cursor(self) -> TermView {
        TermView { cursor: self.saved_cursor, ..self }
    }

    // ------------------------------------------------------------------
    // Screens
    // ------------------------------------------------------------------

    /// Change between the primary and the alternate screen. Entering clears the alternate screen,
    /// and with `save_restore` saves the cursor and sends it home; leaving with `save_restore`
    /// brings it back.
    #[verifier::opaque]
    pub open spec fn set_alt_screen(self, enable: bool, save_restore: bool) -> TermView {
        if enable == self.on(TermMode::ALT_SCREEN) {
            self
        } else {
            let mode = self.mode.with(TermMode::ALT_SCREEN, enable);
            if enable {
                TermView {
                    saved_cursor: if save_restore {
                        self.cursor
                    } else {
                        self.saved_cursor
                    },
                    cursor: if save_restore {
                        CursorView::home(self.cursor.pen)
                    } else {
                        self.cursor
                    },
                    grid: self.inactive.clear_all(self.cursor.pen),
                    inactive: self.grid,
                    mode,
                    dirty: true,
                    ..self
                }
            } else {
                TermView {
                    saved_cursor_alt: self.cursor,
                    cursor: if save_restore {
                        self.saved_cursor
                    } else {
                        self.cursor
                    },
                    grid: self.inactive.damage_all(),
                    inactive: self.grid,
                    mode,
                    dirty: true,
                    ..self
                }
            }
        }
    }

    /// Everything as in a fresh terminal, but for the title, the counters and what waits to be
    /// sent.
    #[verifier::opaque]
    pub open spec fn full_reset(self) -> TermView {
        let v = self.set_alt_screen(false, false);
        TermView {
            cursor: CursorView::home(plain_pen()),
            saved_cursor: CursorView::home(plain_pen()),
            mode: initial_mode(),
            cursor_shape: CursorShape::Block,
            cursor_blinks: true,
            scroll_top: 0,
            scroll_bot: self.rows() - 1,
            tabs: default_tab_stops(self.cols()),
            clusters: Seq::empty(),
            underline_colors: Seq::empty(),
            grid: v.grid.clear_all(plain_pen()).clear_history(),
            inactive: v.inactive.clear_all(plain_pen()),
            dirty: true,
            ..v
        }
    }

    // ------------------------------------------------------------------
    // Erasing and editing
    // ------------------------------------------------------------------

    /// Erase in the line of the cursor: up to the cursor, all of it, or from the cursor on.
    pub open spec fn erase_in_line(self, mode: u16) -> TermView {
        let x = self.cursor.x;
        let cols = self.cols();
        let (from, to) = if mode == 1 {
            (0, min(x + 1, cols))
        } else if mode == 2 {
            (0, cols)
        } else {
            (min(x, cols), cols)
        };
        self.with_cursor_row(
            RowView { wrapped: false, ..self.cursor_row().filled(from, to, self.blank()) },
        ).marked_dirty()
    }

    /// Erase from the cursor to the end of the screen.
    pub open spec fn erase_below(self) -> TermView {
        let v = self.erase_in_line(0);
        v.with_grid(v.grid.with_lines_filled(self.cursor.y + 1, self.rows(), self.blank()))
    }

    /// Erase from the beginning of the screen to the cursor.
    pub open spec fn erase_above(self) -> TermView {
        self.with_grid(self.grid.with_lines_filled(0, self.cursor.y, self.blank())).erase_in_line(1)
    }

    /// Erase in the screen: from the cursor on, up to the cursor, all of it, or all of it and
    /// scrollback.
    #[verifier::opaque]
    pub open spec fn erase_in_display(self, mode: u16) -> TermView {
        let v = if mode == 0 {
            self.erase_below()
        } else if mode == 1 {
            self.erase_above()
        } else if mode == 2 {
            self.with_grid(self.grid.clear_all(self.cursor.pen))
        } else if mode == 3 {
            self.with_grid(self.grid.clear_all(self.cursor.pen).clear_history())
        } else {
            self
        };
        v.with_grid(v.grid.damage_all()).marked_dirty()
    }

    pub open spec fn erase_chars(self, n: int) -> TermView {
        let from = min(self.cursor.x, self.cols());
        let to = min(self.cursor.x + max(n, 1), self.cols());
        self.with_cursor_row(self.cursor_row().filled(from, to, self.blank())).marked_dirty()
    }

    /// `n` characters at the cursor leave, the rest of the line moves left, and blanks come in at
    /// the right margin.
    pub open spec fn delete_chars(self, n: int) -> TermView {
        let x = self.cursor.x;
        let cols = self.cols();
        if x >= cols {
            self
        } else {
            let gone = min(max(n, 1), cols - x);
            self.with_cursor_row(self.cursor_row().closed_up(x, gone, self.blank())).marked_dirty()
        }
    }

    pub open spec fn in_region(self) -> bool {
        self.scroll_top <= self.cursor.y <= self.scroll_bot
    }

    pub open spec fn insert_lines(self, n: int) -> TermView {
        if self.in_region() {
            self.with_grid(
                self.grid.scroll_down(self.cursor.y, self.scroll_bot, max(n, 1), self.cursor.pen),
            ).at(0, self.cursor.y).marked_dirty()
        } else {
            self
        }
    }

    pub open spec fn delete_lines(self, n: int) -> TermView {
        if self.in_region() {
            self.with_grid(
                self.grid.scroll_up(self.cursor.y, self.scroll_bot, max(n, 1), self.cursor.pen),
            ).at(0, self.cursor.y).marked_dirty()
        } else {
            self
        }
    }

    // ------------------------------------------------------------------
    // Rendition and modes
    // ------------------------------------------------------------------

    /// The rendition codes from parameter `i` on, one after the other. A code that takes a colour
    /// consumes it; without a colour that can be read it does nothing.
    pub open spec fn sgr_from(self, params: Seq<Seq<u16>>, i: int) -> TermView
        decreases params.len() - i,
    {
        if i >= params.len() || i < 0 {
            self
        } else {
            let group = params[i];
            let code = if group.len() > 0 {
                group[0]
            } else {
                0
            };
            let pen = self.cursor.pen;
            if code == 38 || code == 48 || code == 58 {
                match extended_color(params, i) {
                    Some((c, used)) => {
                        let v = if code == 38 {
                            self.with_pen(Pen { fg: c, ..pen })
                        } else if code == 48 {
                            self.with_pen(Pen { bg: c, ..pen })
                        } else {
                            let colors = self.underline_colors.push(c);
                            TermView { underline_colors: colors, ..self }.with_pen(
                                Pen { underline: colors.len() as u16, ..pen },
                            )
                        };
                        v.sgr_from(params, i + max(used, 1))
                    },
                    None => self.sgr_from(params, i + 1),
                }
            } else {
                self.with_pen(sgr_pen(pen, code, group)).sgr_from(params, i + 1)
            }
        }
    }

    /// Set the rendition; without parameters, reset it.
    #[verifier::opaque]
    pub open spec fn sgr(self, params: Seq<Seq<u16>>) -> TermView {
        if params.len() == 0 {
            self.with_pen(plain_pen())
        } else {
            self.sgr_from(params, 0)
        }
    }

    /// The screen cleared, the cursor home, and no scroll region.
    pub open spec fn cleared_and_home(self) -> TermView {
        TermView {
            scroll_top: 0,
            scroll_bot: self.rows() - 1,
            ..self.with_grid(self.grid.clear_all(self.cursor.pen)).at(0, 0)
        }
    }

    #[verifier::opaque]
    pub open spec fn set_private_mode(self, number: u16, enable: bool) -> TermView {
        let v = if private_mode_bit(number) is Some {
            TermView { mode: self.mode.with(private_mode_bit(number)->0, enable), ..self }
        } else if number == 3 {
            self.cleared_and_home()
        } else if number == 6 {
            TermView { mode: self.mode.with(TermMode::ORIGIN, enable), ..self }.goto(0, 0)
        } else if number == 12 {
            TermView { cursor_blinks: enable, ..self }
        } else if number == 47 || number == 1047 {
            self.set_alt_screen(enable, false)
        } else if number == 1048 {
            if enable {
                self.save_cursor()
            } else {
                self.restore_cursor()
            }
        } else if number == 1049 {
            self.set_alt_screen(enable, true)
        } else {
            self
        };
        v.marked_dirty()
    }

    pub open spec fn set_ansi_mode(self, number: u16, enable: bool) -> TermView {
        match ansi_mode_bit(number) {
            Some(bit) => TermView { mode: self.mode.with(bit, enable), ..self },
            None => self,
        }
    }

    /// Set or reset every mode named in the first `n` parameters, in order.
    pub open spec fn set_modes(
        self,
        params: Seq<Seq<u16>>,
        n: int,
        private: bool,
        enable: bool,
    ) -> TermView
        decreases n,
    {
        if n <= 0 {
            self
        } else {
            let v = self.set_modes(params, n - 1, private, enable);
            match head(params[n - 1]) {
                Some(number) => if private {
                    v.set_private_mode(number, enable)
                } else {
                    v.set_ansi_mode(number, enable)
                },
                None => v,
            }
        }
    }

    /// Set the scroll region, if it has at least two rows, and send the cursor home.
    pub open spec fn set_region(self, params: Seq<Seq<u16>>) -> TermView {
        let top = param(params, 0, 1) - 1;
        let last = self.rows() - 1;
        let asked = param(params, 1, 0);
        let bot = if asked == 0 {
            last
        } else {
            min(asked - 1, last)
        };
        if top < bot {
            TermView { scroll_top: top, scroll_bot: bot, ..self }.goto(0, 0)
        } else {
            self
        }
    }

    /// The answer to a request for the cursor's position.
    pub open spec fn position_report(self) -> Seq<u8> {
        let row = max(self.cursor.y - self.bounds().0, 0) + 1;
        let col = self.cursor.x + 1;
        seq![0x1Bu8, 0x5B] + decimal(row as nat) + seq![0x3Bu8] + decimal(col as nat) + seq![0x52u8]
    }

    /// The answer to a request for the size of the screen.
    pub open spec fn size_report(self) -> Seq<u8> {
        seq![0x1Bu8, 0x5B, 0x38, 0x3B] + decimal(self.rows() as nat) + seq![0x3Bu8] + decimal(
            self.cols() as nat,
        ) + seq![0x74u8]
    }

    // ------------------------------------------------------------------
    // Dispatch
    // ------------------------------------------------------------------

    /// A control sequence that moves the cursor.
    #[verifier::opaque]
    pub open spec fn csi_move(self, params: Seq<Seq<u16>>, action: char) -> TermView {
        let n = param(params, 0, 1) as int;
        let x = self.cursor.x;
        if action == 'A' {
            self.move_up(n)
        } else if action == 'B' || action == 'e' {
            self.move_down(n)
        } else if action == 'C' || action == 'a' {
            self.move_right(n)
        } else if action == 'D' {
            self.move_left(n)
        } else if action == 'E' {
            let v = self.move_down(n);
            v.at(0, v.cursor.y)
        } else if action == 'F' {
            let v = self.move_up(n);
            v.at(0, v.cursor.y)
        } else if action == 'G' || action == '`' {
            self.at(min(n - 1, self.cols() - 1), self.cursor.y).settled()
        } else if action == 'H' || action == 'f' {
            self.goto(param(params, 1, 1) - 1, n - 1)
        } else if action == 'I' {
            self.tab(n)
        } else if action == 'Z' {
            self.back_tab(n)
        } else if action == 'd' {
            self.goto(x, n - 1)
        } else if action == 's' {
            self.save_cursor()
        } else if action == 'u' {
            self.restore_cursor()
        } else {
            self
        }
    }

    /// A control sequence that edits the screen.
    #[verifier::opaque]
    pub open spec fn csi_edit(self, params: Seq<Seq<u16>>, action: char) -> TermView {
        let n = param(params, 0, 1) as int;
        if action == '@' {
            self.shifted_right(self.cursor.x, self.cursor.y, n)
        } else if action == 'J' {
            self.erase_in_display(param(params, 0, 0))
        } else if action == 'K' {
            self.erase_in_line(param(params, 0, 0))
        } else if action == 'L' {
            self.insert_lines(n)
        } else if action == 'M' {
            self.delete_lines(n)
        } else if action == 'P' {
            self.delete_chars(n)
        } else if action == 'S' {
            self.with_grid(
                self.grid.scroll_up(self.scroll_top, self.scroll_bot, n, self.cursor.pen),
            )
        } else if action == 'T' {
            self.with_grid(
                self.grid.scroll_down(self.scroll_top, self.scroll_bot, n, self.cursor.pen),
            )
        } else if action == 'X' {
            self.erase_chars(n)
        } else {
            self
        }
    }

    /// A control sequence that sets or reports something.
    #[verifier::opaque]
    pub open spec fn csi_set(
        self,
        params: Seq<Seq<u16>>,
        intermediates: Seq<u8>,
        action: char,
    ) -> TermView {
        let private = intermediates.len() > 0 && intermediates[0] == 0x3F;
        let asked = param(params, 0, 0);
        if action == 'g' {
            if asked == 3 {
                TermView { tabs: Seq::new(self.tabs.len(), |i: int| false), ..self }
            } else if self.cursor.x < self.tabs.len() {
                TermView { tabs: self.tabs.update(self.cursor.x, false), ..self }
            } else {
                self
            }
        } else if action == 'h' || action == 'l' {
            self.set_modes(params, params.len() as int, private, action == 'h')
        } else if action == 'm' {
            self.sgr(params)
        } else if action == 'n' {
            if asked == 5 {
                self.replied(seq![0x1Bu8, 0x5B, 0x30, 0x6E])
            } else if asked == 6 {
                self.replied(self.position_report())
            } else {
                self
            }
        } else if action == 'q' {
            if intermediates.len() > 0 && intermediates[0] == 0x20 {
                let (cursor_shape, cursor_blinks) = cursor_style(param(params, 0, 1));
                TermView { cursor_shape, cursor_blinks, ..self }
            } else {
                self
            }
        } else if action == 'r' {
            self.set_region(params)
        } else if action == 'c' {
            self.replied(seq![0x1Bu8, 0x5B, 0x3F, 0x36, 0x32, 0x3B, 0x32, 0x32, 0x63])
        } else if action == 't' {
            if asked == 18 {
                self.replied(self.size_report())
            } else {
                self
            }
        } else {
            self
        }
    }

    /// Does this control sequence move the cursor?
    pub open spec fn moves(action: char) -> bool {
        action == 'A' || action == 'B' || action == 'e' || action == 'C' || action == 'a' || action
            == 'D' || action == 'E' || action == 'F' || action == 'G' || action == '`' || action
            == 'H' || action == 'f' || action == 'I' || action == 'Z' || action == 'd' || action
            == 's' || action == 'u'
    }

    /// Does this control sequence edit the screen?
    pub open spec fn edits(action: char) -> bool {
        action == '@' || action == 'J' || action == 'K' || action == 'L' || action == 'M' || action
            == 'P' || action == 'S' || action == 'T' || action == 'X'
    }

    /// A control sequence.
    #[verifier::opaque]
    pub open spec fn csi(
        self,
        params: Seq<Seq<u16>>,
        intermediates: Seq<u8>,
        ignore: bool,
        action: char,
    ) -> TermView {
        if ignore {
            self.signalled()
        } else {
            let v = self.signalled().marked_dirty();
            if TermView::moves(action) {
                v.csi_move(params, action)
            } else if TermView::edits(action) {
                v.csi_edit(params, action)
            } else {
                v.csi_set(params, intermediates, action)
            }
        }
    }

    /// An escape sequence.
    #[verifier::opaque]
    pub open spec fn esc(self, intermediates: Seq<u8>, ignore: bool, byte: u8) -> TermView {
        let first = if intermediates.len() > 0 {
            intermediates[0] as int
        } else {
            -1
        };
        let v = self.signalled().marked_dirty();
        let c = self.cursor;
        if ignore {
            self.signalled()
        } else if byte == 0x30 && first == 0x28 {
            TermView { cursor: CursorView { g0: Charset::Graphics, ..c }, ..v }
        } else if byte == 0x42 && first == 0x28 {
            TermView { cursor: CursorView { g0: Charset::Ascii, ..c }, ..v }
        } else if byte == 0x30 && first == 0x29 {
            TermView { cursor: CursorView { g1: Charset::Graphics, ..c }, ..v }
        } else if byte == 0x42 && first == 0x29 {
            TermView { cursor: CursorView { g1: Charset::Ascii, ..c }, ..v }
        } else if byte == 0x37 {
            v.save_cursor()
        } else if byte == 0x38 && first == 0x23 {
            v.with_grid(
                v.grid.with_lines_filled(
                    0,
                    v.rows(),
                    Cell { ch: 0x45, ..v.blank() },
                ).damage_all(),
            )
        } else if byte == 0x38 {
            v.restore_cursor()
        } else if byte == 0x44 {
            v.linefeed()
        } else if byte == 0x45 {
            let down = v.linefeed();
            down.at(0, down.cursor.y)
        } else if byte == 0x4D {
            v.reverse_index()
        } else if byte == 0x48 {
            if c.x < v.tabs.len() {
                TermView { tabs: v.tabs.update(c.x, true), ..v }
            } else {
                v
            }
        } else if byte == 0x3D {
            TermView { mode: v.mode.with(TermMode::APP_KEYPAD, true), ..v }
        } else if byte == 0x3E {
            TermView { mode: v.mode.with(TermMode::APP_KEYPAD, false), ..v }
        } else if byte == 0x63 {
            v.full_reset()
        } else {
            v
        }
    }

    /// A title is set.
    pub open spec fn titled(self, title: Seq<char>) -> TermView {
        TermView {
            title: Some(title),
            title_revision: next_revision(self.title_revision),
            ..self
        }
    }

    /// An operating-system command: 0 and 2 set the title.
    #[verifier::opaque]
    pub open spec fn osc(self, params: Seq<Seq<u8>>) -> TermView {
        let v = self.signalled();
        if params.len() > 1 && (params[0] == seq![0x30u8] || params[0] == seq![0x32u8]) {
            v.titled(lossy_text(params[1]))
        } else {
            v
        }
    }

    /// Whatever the escape-sequence parser found.
    pub open spec fn performed(self, event: VtEvent) -> TermView {
        match event {
            VtEvent::Print(c) => self.print(c),
            VtEvent::Execute(byte) => self.execute(byte),
            VtEvent::Csi { params, intermediates, ignore, action } => self.csi(
                params,
                intermediates,
                ignore,
                action,
            ),
            VtEvent::Esc { intermediates, ignore, byte } => self.esc(intermediates, ignore, byte),
            VtEvent::Osc(params) => self.osc(params),
            VtEvent::Hook => self,
            VtEvent::Put(byte) => self,
            VtEvent::Unhook => self.signalled(),
        }
    }

    /// Several findings, one after the other.
    pub open spec fn performed_all(self, events: Seq<VtEvent>) -> TermView
        decreases events.len(),
    {
        if events.len() == 0 {
            self
        } else {
            self.performed_all(events.drop_last()).performed(events.last())
        }
    }

    // ------------------------------------------------------------------
    // Size and viewport
    // ------------------------------------------------------------------

    /// The terminal at another size. The primary screen is re-wrapped and the cursor follows its
    /// character; the alternate screen is cut or padded, since its owner redraws it.
    pub open spec fn resized(self, cols: int, rows: int) -> TermView {
        if cols == self.cols() && rows == self.rows() {
            self
        } else {
            let pen = self.cursor.pen;
            let c = self.cursor;
            let on_alt = self.on(TermMode::ALT_SCREEN);
            let (x, y) = if on_alt {
                (min(c.x, cols - 1), min(c.y, rows - 1))
            } else {
                self.grid.reflowed_position(c.x, c.y, cols, rows)
            };
            TermView {
                grid: if on_alt {
                    self.grid.resized(cols, rows, pen)
                } else {
                    self.grid.reflowed(cols, rows)
                },
                inactive: if on_alt {
                    self.inactive.reflowed(cols, rows)
                } else {
                    self.inactive.resized(cols, rows, pen)
                },
                cursor: CursorView { x, y, wrap_pending: false, ..c },
                tabs: default_tab_stops(cols),
                scroll_top: 0,
                scroll_bot: rows - 1,
                dirty: true,
                ..self
            }
        }
    }

    pub open spec fn scroll_display(self, delta: int) -> TermView {
        let grid = self.grid.scroll_display(delta);
        TermView {
            grid,
            dirty: self.dirty || grid.display_offset != self.grid.display_offset,
            ..self
        }
    }

    // ------------------------------------------------------------------
    // Text
    // ------------------------------------------------------------------

    /// The text of a run of cells: what each one shows, the filler halves of double-width
    /// characters left out.
    pub open spec fn text_of(self, cells: Seq<Cell>) -> Seq<char>
        decreases cells.len(),
    {
        if cells.len() == 0 {
            Seq::empty()
        } else {
            let before = self.text_of(cells.drop_last());
            if cells.last().flags.contains(CellFlags::WIDE_SPACER) {
                before
            } else {
                before + self.characters(cells.last())
            }
        }
    }

    /// The text of a line without its trailing blanks.
    pub open spec fn line_text(self, line: int) -> Seq<char> {
        let r = self.grid.line(line);
        self.text_of(r.cells.take(r.trimmed()))
    }

    /// What `line` contributes to the text from `start` to `end`, each a line and a column, both
    /// included. Trailing blanks are padding, but on the last line they were chosen. A line ends
    /// in a newline, unless it is the last or continues into the next one.
    pub open spec fn line_part(self, line: int, start: (int, int), end: (int, int)) -> Seq<char> {
        let r = self.grid.line(line);
        let from = if line == start.0 {
            start.1
        } else {
            0
        };
        let to = if line == end.0 {
            min(end.1 + 1, r.cells.len() as int)
        } else {
            r.cells.len() as int
        };
        let part = if from >= to {
            Seq::empty()
        } else {
            let cells = r.cells.subrange(from, to);
            self.text_of(
                if line == end.0 {
                    cells
                } else {
                    cells.take(used_len(cells))
                },
            )
        };
        if line != end.0 && !r.wrapped {
            part.push('\n')
        } else {
            part
        }
    }

    /// The parts of the lines from that of `start` up to, but not including, `to`.
    pub open spec fn lines_text(self, start: (int, int), end: (int, int), to: int) -> Seq<char>
        decreases to - start.0,
    {
        if to <= start.0 {
            Seq::empty()
        } else {
            self.lines_text(start, end, to - 1) + self.line_part(to - 1, start, end)
        }
    }

    /// The text from `start` to `end`, each a line and a column, both included. An end below the
    /// last line means the last line.
    pub open spec fn text_range(self, start: (int, int), end: (int, int)) -> Seq<char> {
        let last = min(end.0, self.grid.total() - 1);
        self.lines_text(start, (last, end.1), last + 1)
    }
}

} // verus!
