//! What printing, erasing and editing leave on the screen, cell by cell.

use vstd::prelude::*;

use super::cell::{Cell, CellFlags, Pen, CLUSTER_TAG};
use super::cursor::CursorView;
use super::grid::{lemma_wrap_is_mod, GridView};
use super::mode::TermMode;
use super::model::TermView;
use super::motion_laws::{after, after_escape, number};

verus! {

/// The cell at column `x` of line `y` of the screen.
pub open spec fn at(v: TermView, x: int, y: int) -> Cell {
    v.grid.live(y).cells[x]
}

/// A cell that holds nothing, in the colours of `pen`. Of its attributes only reverse video stays,
/// which shows on the background.
pub open spec fn holds_nothing(c: Cell, pen: Pen) -> bool {
    &&& c.ch == 0
    &&& c.fg == pen.fg
    &&& c.bg == pen.bg
    &&& c.flags.0 == pen.flags.0 & 0x0200
    &&& c.underline == 0
}

/// A cell that holds one scalar as `pen` writes it.
pub open spec fn written(c: char, pen: Pen) -> Cell {
    Cell { ch: c as u32, fg: pen.fg, bg: pen.bg, flags: pen.flags, underline: pen.underline }
}

/// Is the cursor on the screen, with nothing pending?
pub open spec fn ready(v: TermView) -> bool {
    &&& v.wf()
    &&& v.cursor.x < v.cols()
    &&& v.cursor.y < v.rows()
    &&& !v.cursor.wrap_pending
}

/// Do two terminals have screens of the same size, and the same history?
pub open spec fn same_frame(v: TermView, w: TermView) -> bool {
    &&& w.cols() == v.cols()
    &&& w.rows() == v.rows()
    &&& w.grid.history == v.grid.history
    &&& forall|i: int| 0 <= i < v.grid.history ==> #[trigger] w.grid.line(i) == v.grid.line(i)
}

/// The three ways to number lines agree: the screen follows history, and what is shown is the
/// screen, or reaches as far back into history as the user has scrolled.
pub proof fn lines_are_numbered_alike(g: GridView, y: int)
    requires
        g.wf(),
        0 <= y < g.rows,
    ensures
        g.live(y) == g.line(g.history + y),
        g.shown(y) == g.line(g.history + y - g.display_offset),
        g.lines()[g.history + y] == g.live(y),
        g.lines().len() == g.history + g.rows,
{
}

/// A narrow character is written where the cursor is, in the pen's colours and attributes. No other
/// cell changes. The cursor goes one to the right, or stays in the last column, and waits there to
/// wrap if lines wrap.
pub proof fn characters_are_written(v: TermView, c: char)
    requires
        ready(v),
        !v.on(TermMode::INSERT),
    ensures
        ({
            let w = v.printed_as(c, Some(1usize));
            let (x, y) = (v.cursor.x, v.cursor.y);
            &&& same_frame(v, w)
            &&& at(w, x, y) == written(c, v.cursor.pen)
            &&& forall|i: int, j: int|
                0 <= i < v.cols() && 0 <= j < v.rows() && (i != x || j != y) ==> #[trigger] at(
                    w,
                    i,
                    j,
                ) == at(v, i, j)
            &&& x + 1 < v.cols() ==> w.cursor == CursorView { x: x + 1, ..v.cursor }
            &&& x + 1 == v.cols() ==> w.cursor == CursorView {
                wrap_pending: v.on(TermMode::AUTOWRAP),
                ..v.cursor
            }
            &&& w.grid.display_offset == 0
            &&& w.dirty
        }),
{
    reveal(TermView::printed_as);
    reveal(TermView::put_char);
    reveal(TermView::drawn);
    let u = v.output().signalled();
    assert(u.cursor == v.cursor);
}

/// A run of printable ASCII goes the same way, byte by byte: each byte is written as the character
/// it stands for.
pub proof fn bytes_are_written(v: TermView, b: u8)
    requires
        ready(v),
        !v.on(TermMode::INSERT),
        v.shown(b as char) == b as char,
    ensures
        v.printed_as(b as char, Some(1usize)) == (TermView { ground_signal: true, ..v.typed(b) }),
        at(v.typed(b), v.cursor.x, v.cursor.y) == written(b as char, v.cursor.pen),
{
    super::laws::fast_path_agrees_with_slow_path(v, b);
    characters_are_written(v, b as char);
}

/// In insert mode the rest of the line makes room first: it moves right by one, and its last cell
/// is gone.
pub proof fn insert_mode_makes_room(v: TermView, c: char)
    requires
        ready(v),
        v.on(TermMode::INSERT),
    ensures
        ({
            let w = v.printed_as(c, Some(1usize));
            let (x, y) = (v.cursor.x, v.cursor.y);
            &&& same_frame(v, w)
            &&& at(w, x, y) == written(c, v.cursor.pen)
            &&& forall|i: int| 0 <= i < x ==> #[trigger] at(w, i, y) == at(v, i, y)
            &&& forall|i: int| x < i < v.cols() ==> #[trigger] at(w, i, y) == at(v, i - 1, y)
            &&& forall|i: int, j: int|
                0 <= i < v.cols() && 0 <= j < v.rows() && j != y ==> #[trigger] at(w, i, j) == at(
                    v,
                    i,
                    j,
                )
        }),
{
    reveal(TermView::printed_as);
    reveal(TermView::put_char);
    reveal(TermView::drawn);
    reveal(TermView::shifted_right);
}

/// Where a wrap is pending, the next character starts the next line, and the line that was full is
/// marked as going on there.
pub proof fn full_lines_go_on_in_the_next(v: TermView, c: char)
    requires
        v.wf(),
        !v.on(TermMode::INSERT),
        v.cols() > 1,
        v.cursor.wrap_pending,
        v.cursor.y + 1 < v.rows(),
        v.cursor.y != v.scroll_bot,
    ensures
        ({
            let w = v.printed_as(c, Some(1usize));
            let y = v.cursor.y;
            &&& same_frame(v, w)
            &&& w.grid.live(y).wrapped
            &&& at(w, 0, y + 1) == written(c, v.cursor.pen)
            &&& (w.cursor.x, w.cursor.y) == (1int, y + 1)
            &&& !w.cursor.wrap_pending
            &&& forall|i: int, j: int|
                0 <= i < v.cols() && 0 <= j < v.rows() && (i != 0 || j != y + 1)
                    ==> #[trigger] at(w, i, j) == at(v, i, j)
        }),
{
    reveal(TermView::printed_as);
    reveal(TermView::put_char);
    reveal(TermView::drawn);
    reveal(TermView::wrapped);
    reveal(TermView::linefeed);
}

/// A double-width character takes the cell under the cursor and the next. No other cell changes.
pub proof fn wide_characters_are_written(v: TermView, c: char)
    requires
        ready(v),
        !v.on(TermMode::INSERT),
        v.cursor.x + 2 < v.cols(),
    ensures
        ({
            let w = v.printed_as(c, Some(2usize));
            let (x, y) = (v.cursor.x, v.cursor.y);
            let first = at(w, x, y);
            let second = at(w, x + 1, y);
            let plain = written(c, v.cursor.pen);
            &&& same_frame(v, w)
            &&& first == Cell { flags: CellFlags(plain.flags.0 | 0x2000), ..plain }
            &&& second.ch == 0
            &&& second.bg == plain.bg
            &&& second.flags.contains(CellFlags::WIDE_SPACER)
            &&& !second.flags.contains(CellFlags::WIDE)
            &&& w.cursor == CursorView { x: x + 2, ..v.cursor }
            &&& forall|i: int, j: int|
                0 <= i < v.cols() && 0 <= j < v.rows() && (i != x && i != x + 1 || j != y)
                    ==> #[trigger] at(w, i, j) == at(v, i, j)
        }),
{
    reveal(TermView::printed_as);
    reveal(TermView::put_char);
    reveal(TermView::drawn);
    let f = v.cursor.pen.flags.0;
    assert((f | 0x2000) & 0x2000 == 0x2000 && (((f | 0x2000) & !0x2000u16) | 0x4000) & 0x4000
        == 0x4000 && (((f | 0x2000) & !0x2000u16) | 0x4000) & 0x2000 != 0x2000) by (bit_vector);
}

/// A double-width character that does not fit in the last column starts the next line, and leaves
/// that column alone. Where lines do not wrap, it is dropped.
pub proof fn wide_characters_do_not_straddle(v: TermView, c: char)
    requires
        ready(v),
        !v.on(TermMode::INSERT),
        v.cols() > 2,
        v.cursor.x == v.cols() - 1,
        v.cursor.y + 1 < v.rows(),
        v.cursor.y != v.scroll_bot,
    ensures
        ({
            let w = v.printed_as(c, Some(2usize));
            let y = v.cursor.y;
            &&& same_frame(v, w)
            &&& v.on(TermMode::AUTOWRAP) ==> at(w, 0, y + 1).ch == c as u32
            &&& v.on(TermMode::AUTOWRAP) ==> (w.cursor.x, w.cursor.y) == (2int, y + 1)
            &&& v.on(TermMode::AUTOWRAP) ==> w.grid.live(y).wrapped
            &&& forall|i: int, j: int|
                0 <= i < v.cols() && 0 <= j < v.rows() && (i > 1 || j != y + 1) ==> #[trigger] at(
                    w,
                    i,
                    j,
                ) == at(v, i, j)
            &&& !v.on(TermMode::AUTOWRAP) ==> w.cursor == v.cursor
            &&& !v.on(TermMode::AUTOWRAP) ==> forall|i: int|
                0 <= i < v.cols() ==> #[trigger] at(w, i, y + 1) == at(v, i, y + 1)
        }),
{
    reveal(TermView::printed_as);
    reveal(TermView::put_char);
    reveal(TermView::drawn);
    reveal(TermView::wrapped);
    reveal(TermView::linefeed);
}

/// A mark of no width joins the character before the cursor: that cell then shows what it showed
/// with the mark behind it, up to eight scalars. No other cell changes, and the cursor stays.
pub proof fn marks_join_the_character_before(v: TermView, mark: char)
    requires
        ready(v),
        v.cursor.x > 0,
        v.clusters.len() < 0x8000_0000,
        !at(v, v.cursor.x - 1, v.cursor.y).flags.contains(CellFlags::WIDE_SPACER),
    ensures
        ({
            let w = v.printed_as(mark, Some(0usize));
            let (x, y) = (v.cursor.x - 1, v.cursor.y);
            let before = v.characters(at(v, x, y));
            &&& same_frame(v, w)
            &&& w.cursor == v.cursor
            &&& before.len() < 8 ==> w.characters(at(w, x, y)) == before.push(mark)
            &&& before.len() >= 8 ==> at(w, x, y) == at(v, x, y)
            &&& at(w, x, y) == Cell { ch: at(w, x, y).ch, ..at(v, x, y) }
            &&& forall|i: int, j: int|
                0 <= i < v.cols() && 0 <= j < v.rows() && (i != x || j != y) ==> #[trigger] at(
                    w,
                    i,
                    j,
                ) == at(v, i, j)
        }),
{
    reveal(TermView::printed_as);
    reveal(TermView::combined);
    let n = v.clusters.len() as u32;
    assert(n < 0x8000_0000 ==> (n | 0x8000_0000u32) == n + 0x8000_0000) by (bit_vector);
}

/// What a cell shows: its scalar, or a blank where it holds nothing.
pub proof fn cells_show_what_they_hold(v: TermView, c: char, cell: Cell)
    requires
        c != '\0',
    ensures
        cell.ch == c as u32 ==> v.characters(cell) == seq![c],
        cell.ch == 0 ==> v.characters(cell) == seq![' '],
{
}

/// Printing a character, a backspace and another character leaves the second in place of the first.
pub proof fn characters_are_overtyped(v: TermView, c: char, d: char)
    requires
        ready(v),
        !v.on(TermMode::INSERT),
        v.cursor.x + 1 < v.cols(),
    ensures
        ({
            let w = v.printed_as(c, Some(1usize)).execute(0x08).printed_as(d, Some(1usize));
            let once = v.printed_as(d, Some(1usize));
            &&& at(w, v.cursor.x, v.cursor.y) == written(d, v.cursor.pen)
            &&& w.cursor == once.cursor
            &&& forall|i: int, j: int|
                0 <= i < v.cols() && 0 <= j < v.rows() ==> #[trigger] at(w, i, j) == at(once, i, j)
        }),
{
    let one = v.printed_as(c, Some(1usize));
    characters_are_written(v, c);
    lemma_printed_wf(v, c);
    super::motion_laws::backspace_goes_one_back(one);
    let back = one.execute(0x08);
    characters_are_written(back, d);
    characters_are_written(v, d);
    let w = back.printed_as(d, Some(1usize));
    let once = v.printed_as(d, Some(1usize));
    assert(back.cursor == v.cursor);
    assert forall|i: int, j: int| 0 <= i < v.cols() && 0 <= j < v.rows() implies #[trigger] at(
        w,
        i,
        j,
    ) == at(once, i, j) by {
        if i != v.cursor.x || j != v.cursor.y {
            assert(at(w, i, j) == at(back, i, j));
            assert(at(back, i, j) == at(one, i, j));
            assert(at(one, i, j) == at(v, i, j));
            assert(at(once, i, j) == at(v, i, j));
        }
    }
}

/// Printing a narrow character keeps the terminal in order.
proof fn lemma_printed_wf(v: TermView, c: char)
    requires
        ready(v),
        !v.on(TermMode::INSERT),
    ensures
        v.printed_as(c, Some(1usize)).wf(),
        v.printed_as(c, Some(1usize)).mode == v.mode,
{
    reveal(TermView::printed_as);
    reveal(TermView::put_char);
    reveal(TermView::drawn);
}

/// A line feed away from the bottom of the scroll region goes one line down, in the same column, or
/// in the first where line feeds return. What is on the screen stays.
pub proof fn line_feeds_go_down(v: TermView, b: u8)
    requires
        v.wf(),
        b == 0x0A || b == 0x0B || b == 0x0C,
        v.cursor.y != v.scroll_bot,
        v.cursor.y < v.rows(),
    ensures
        ({
            let w = v.execute(b);
            let y = if v.cursor.y + 1 < v.rows() {
                v.cursor.y + 1
            } else {
                v.cursor.y
            };
            let x = if v.on(TermMode::LINE_FEED_NL) {
                0
            } else {
                v.cursor.x
            };
            &&& w.cursor == CursorView { x, y, wrap_pending: false, ..v.cursor }
            &&& w.grid.lines() == v.grid.lines()
            &&& after_escape(v, 0x44).cursor == CursorView { y, ..v.cursor }
            &&& after_escape(v, 0x45).cursor == CursorView { x: 0, y, ..v.cursor }
            &&& after_escape(v, 0x44).grid == v.grid
        }),
{
    reveal(TermView::execute);
    reveal(TermView::linefeed);
    reveal(TermView::esc);
    assert(v.execute(b).grid.lines() =~= v.grid.lines());
}

/// Lines `[top, bottom]` moved up by `n`: each line that is still in the region holds what was `n`
/// lines below it, the others are erased, and every line outside stays.
pub open spec fn moved_up(v: TermView, w: TermView, top: int, bottom: int, n: int) -> bool {
    &&& w.cols() == v.cols() && w.rows() == v.rows()
    &&& forall|i: int, j: int|
        0 <= i < v.cols() && top <= j && j + n <= bottom ==> #[trigger] at(w, i, j) == at(
            v,
            i,
            j + n,
        )
    &&& forall|i: int, j: int|
        0 <= i < v.cols() && top <= j <= bottom && j + n > bottom ==> holds_nothing(
            #[trigger] at(w, i, j),
            v.cursor.pen,
        )
    &&& forall|i: int, j: int|
        0 <= i < v.cols() && (0 <= j < top || bottom < j < v.rows()) ==> #[trigger] at(w, i, j)
            == at(v, i, j)
}

/// Lines `[top, bottom]` moved down by `n`, in the same way.
pub open spec fn moved_down(v: TermView, w: TermView, top: int, bottom: int, n: int) -> bool {
    &&& w.cols() == v.cols() && w.rows() == v.rows()
    &&& forall|i: int, j: int|
        0 <= i < v.cols() && j <= bottom && j - n >= top ==> #[trigger] at(w, i, j) == at(
            v,
            i,
            j - n,
        )
    &&& forall|i: int, j: int|
        0 <= i < v.cols() && top <= j <= bottom && j - n < top ==> holds_nothing(
            #[trigger] at(w, i, j),
            v.cursor.pen,
        )
    &&& forall|i: int, j: int|
        0 <= i < v.cols() && (0 <= j < top || bottom < j < v.rows()) ==> #[trigger] at(w, i, j)
            == at(v, i, j)
}

/// Inserting lines moves those from the cursor to the bottom of the scroll region down, and opens
/// as many erased ones as are asked for. The cursor goes to the first column. Nothing comes out of
/// history or goes into it. Outside the region nothing happens.
pub proof fn lines_are_inserted(v: TermView, params: Seq<Seq<u16>>)
    requires
        v.wf(),
        v.cursor.y < v.rows(),
    ensures
        ({
            let w = after(v, params, 'L');
            let n = number(params, 0, 1);
            let inside = v.scroll_top <= v.cursor.y <= v.scroll_bot;
            &&& same_frame(v, w)
            &&& inside ==> moved_down(v, w, v.cursor.y, v.scroll_bot, n)
            &&& inside ==> w.cursor == CursorView { x: 0, ..v.cursor }
            &&& !inside ==> w == TermView { dirty: true, ground_signal: true, ..v }
        }),
{
    reveal(TermView::csi);
    reveal(TermView::csi_edit);
}

/// Deleting lines moves those below them in the scroll region up, and erased lines come in at its
/// bottom. Nothing goes into history unless the cursor is on the first line and the region is the
/// whole screen.
pub proof fn lines_are_deleted(v: TermView, params: Seq<Seq<u16>>)
    requires
        v.wf(),
        v.cursor.y < v.rows(),
    ensures
        ({
            let w = after(v, params, 'M');
            let n = number(params, 0, 1);
            let inside = v.scroll_top <= v.cursor.y <= v.scroll_bot;
            &&& v.cursor.y > 0 || v.scroll_bot < v.rows() - 1 ==> same_frame(v, w)
            &&& inside ==> moved_up(v, w, v.cursor.y, v.scroll_bot, n)
            &&& inside ==> w.cursor == CursorView { x: 0, ..v.cursor }
            &&& !inside ==> w == TermView { dirty: true, ground_signal: true, ..v }
        }),
{
    reveal(TermView::csi);
    reveal(TermView::csi_edit);
}

/// Inserting lines after as many were deleted gives back those below them that stayed in the region.
pub proof fn inserting_undoes_deleting(v: TermView, n: u16, i: int, j: int)
    requires
        v.wf(),
        v.scroll_top <= v.cursor.y <= v.scroll_bot,
        1 <= n,
        0 <= i < v.cols(),
        v.cursor.y + n <= j <= v.scroll_bot,
    ensures
        at(after(after(v, seq![seq![n]], 'M'), seq![seq![n]], 'L'), i, j) == at(v, i, j),
{
    reveal(TermView::csi);
    reveal(TermView::csi_edit);
}

/// The region scrolls up and down by as many lines as are asked for, and the cursor stays.
pub proof fn the_region_scrolls(v: TermView, params: Seq<Seq<u16>>)
    requires
        v.wf(),
    ensures
        ({
            let n = number(params, 0, 1);
            let up = after(v, params, 'S');
            let down = after(v, params, 'T');
            &&& moved_up(v, up, v.scroll_top, v.scroll_bot, n)
            &&& moved_down(v, down, v.scroll_top, v.scroll_bot, n)
            &&& up.cursor == v.cursor && down.cursor == v.cursor
            &&& same_frame(v, down)
            &&& v.scroll_top > 0 || v.scroll_bot < v.rows() - 1 ==> same_frame(v, up)
        }),
{
    reveal(TermView::csi);
    reveal(TermView::csi_edit);
}

/// A line feed on the last line of the scroll region scrolls it up by one, and a reverse line feed
/// on its first scrolls it down by one; the cursor stays. Elsewhere the reverse line feed goes one
/// line up.
pub proof fn line_feeds_scroll_at_the_edge(v: TermView)
    requires
        v.wf(),
        v.cursor.y < v.rows(),
    ensures
        v.cursor.y == v.scroll_bot ==> moved_up(
            v,
            v.execute(0x0A),
            v.scroll_top,
            v.scroll_bot,
            1,
        ),
        v.cursor.y == v.scroll_bot ==> v.execute(0x0A).cursor.y == v.cursor.y,
        v.cursor.y == v.scroll_bot ==> moved_up(
            v,
            after_escape(v, 0x44),
            v.scroll_top,
            v.scroll_bot,
            1,
        ),
        v.cursor.y == v.scroll_top ==> moved_down(
            v,
            after_escape(v, 0x4D),
            v.scroll_top,
            v.scroll_bot,
            1,
        ),
        v.cursor.y == v.scroll_top ==> after_escape(v, 0x4D).cursor == v.cursor,
        v.cursor.y != v.scroll_top && v.cursor.y > 0 ==> after_escape(v, 0x4D) == (TermView {
            cursor: CursorView { y: v.cursor.y - 1, ..v.cursor },
            dirty: true,
            ground_signal: true,
            ..v
        }),
{
    reveal(TermView::execute);
    reveal(TermView::linefeed);
    reveal(TermView::reverse_index);
    reveal(TermView::esc);
}

/// Where the whole screen scrolls, the line that leaves at its top is the newest of history.
pub proof fn lines_that_leave_are_history(v: TermView)
    requires
        v.wf(),
        v.scroll_top == 0,
        v.scroll_bot == v.rows() - 1,
        v.cursor.y == v.scroll_bot,
        v.grid.max_scrollback > 0,
    ensures
        ({
            let w = v.execute(0x0A);
            &&& w.grid.history > 0
            &&& w.grid.line(w.grid.history - 1) == v.grid.live(0)
            &&& v.grid.history < v.grid.max_scrollback ==> w.grid.history == v.grid.history + 1
        }),
{
    reveal(TermView::execute);
    reveal(TermView::linefeed);
}

/// Are exactly the cells erased that `gone` names, and all others as they were?
pub open spec fn erased(v: TermView, w: TermView, gone: spec_fn(int, int) -> bool) -> bool {
    &&& w.cols() == v.cols() && w.rows() == v.rows()
    &&& w.cursor == v.cursor
    &&& forall|i: int, j: int|
        0 <= i < v.cols() && 0 <= j < v.rows() && gone(i, j) ==> holds_nothing(
            #[trigger] at(w, i, j),
            v.cursor.pen,
        )
    &&& forall|i: int, j: int|
        0 <= i < v.cols() && 0 <= j < v.rows() && !gone(i, j) ==> #[trigger] at(w, i, j) == at(
            v,
            i,
            j,
        )
}

/// Erasing in the line takes what is asked for: from the cursor on, up to it and with it, or all.
/// Erasing characters takes as many as are asked for.
pub proof fn lines_are_erased(v: TermView, params: Seq<Seq<u16>>)
    requires
        v.wf(),
        v.cursor.x < v.cols(),
        v.cursor.y < v.rows(),
    ensures
        ({
            let (x, y) = (v.cursor.x, v.cursor.y);
            let n = number(params, 0, 1);
            &&& erased(v, after(v, Seq::empty(), 'K'), |i: int, j: int| j == y && i >= x)
            &&& erased(v, after(v, seq![seq![1u16]], 'K'), |i: int, j: int| j == y && i <= x)
            &&& erased(v, after(v, seq![seq![2u16]], 'K'), |i: int, j: int| j == y)
            &&& erased(v, after(v, params, 'X'), |i: int, j: int| j == y && x <= i < x + n)
            &&& same_frame(v, after(v, Seq::empty(), 'K'))
        }),
{
    reveal(TermView::csi);
    reveal(TermView::csi_edit);
}

/// Erasing in the screen takes what is asked for: from the cursor on, up to it and with it, all, or
/// all and history too. But for the last, history stays.
pub proof fn screens_are_erased(v: TermView)
    requires
        v.wf(),
        v.cursor.x < v.cols(),
        v.cursor.y < v.rows(),
    ensures
        ({
            let (x, y) = (v.cursor.x, v.cursor.y);
            let below = after(v, Seq::empty(), 'J');
            let above = after(v, seq![seq![1u16]], 'J');
            let all = after(v, seq![seq![2u16]], 'J');
            let more = after(v, seq![seq![3u16]], 'J');
            &&& erased(v, below, |i: int, j: int| j > y || j == y && i >= x)
            &&& erased(v, above, |i: int, j: int| j < y || j == y && i <= x)
            &&& erased(v, all, |i: int, j: int| true)
            &&& erased(v, more, |i: int, j: int| true)
            &&& same_frame(v, below) && same_frame(v, above) && same_frame(v, all)
            &&& more.grid.history == 0
        }),
{
    reveal(TermView::csi);
    reveal(TermView::csi_edit);
    reveal(TermView::erase_in_display);
}

/// Inserting and deleting characters moves the rest of the line by as many columns as are asked
/// for, and opens blanks at the cursor or at the margin. Every other line stays, and so does the
/// cursor.
pub proof fn characters_are_inserted_and_deleted(v: TermView, params: Seq<Seq<u16>>)
    requires
        v.wf(),
        v.cursor.x < v.cols(),
        v.cursor.y < v.rows(),
    ensures
        ({
            let (x, y) = (v.cursor.x, v.cursor.y);
            let n = number(params, 0, 1);
            let open = after(v, params, '@');
            let shut = after(v, params, 'P');
            &&& same_frame(v, open) && same_frame(v, shut)
            &&& open.cursor == v.cursor && shut.cursor == v.cursor
            &&& forall|i: int|
                0 <= i < x ==> #[trigger] at(open, i, y) == at(v, i, y) && at(shut, i, y) == at(
                    v,
                    i,
                    y,
                )
            &&& forall|i: int|
                x <= i < v.cols() && i < x + n ==> holds_nothing(
                    #[trigger] at(open, i, y),
                    v.cursor.pen,
                )
            &&& forall|i: int| x + n <= i < v.cols() ==> #[trigger] at(open, i, y) == at(v, i - n, y)
            &&& forall|i: int|
                x <= i && i + n < v.cols() ==> #[trigger] at(shut, i, y) == at(v, i + n, y)
            &&& forall|i: int|
                x <= i < v.cols() && i + n >= v.cols() ==> holds_nothing(
                    #[trigger] at(shut, i, y),
                    v.cursor.pen,
                )
            &&& forall|i: int, j: int|
                0 <= i < v.cols() && 0 <= j < v.rows() && j != y ==> #[trigger] at(open, i, j)
                    == at(v, i, j)
            &&& forall|i: int, j: int|
                0 <= i < v.cols() && 0 <= j < v.rows() && j != y ==> #[trigger] at(shut, i, j)
                    == at(v, i, j)
        }),
{
    reveal(TermView::csi);
    reveal(TermView::csi_edit);
    reveal(TermView::shifted_right);
}

/// The alignment test fills the screen with the letter E.
pub proof fn the_alignment_test_fills_the_screen(v: TermView, x: int, y: int)
    requires
        v.wf(),
        0 <= x < v.cols(),
        0 <= y < v.rows(),
    ensures
        ({
            let w = v.performed(
                super::vt::VtEvent::Esc {
                    intermediates: seq![0x23u8],
                    ignore: false,
                    byte: 0x38,
                },
            );
            at(w, x, y).ch == 'E' as u32 && w.cursor == v.cursor
        }),
{
    reveal(TermView::esc);
}

/// A full reset leaves an empty screen without history, the cursor home with a plain pen, no scroll
/// region, lines that wrap, a cursor that shows and blinks as a block, and the primary screen.
pub proof fn resets_start_afresh(v: TermView, x: int, y: int)
    requires
        v.wf(),
        0 <= x < v.cols(),
        0 <= y < v.rows(),
    ensures
        ({
            let w = after_escape(v, 0x63);
            let plain = Pen {
                fg: super::color::Color(0),
                bg: super::color::Color(0),
                flags: CellFlags(0),
                underline: 0,
            };
            &&& holds_nothing(at(w, x, y), plain)
            &&& w.grid.history == 0
            &&& (w.cursor.x, w.cursor.y) == (0int, 0int)
            &&& w.cursor.pen == plain
            &&& !w.cursor.wrap_pending
            &&& w.scroll_top == 0 && w.scroll_bot == v.rows() - 1
            &&& w.mode.contains(TermMode::AUTOWRAP)
            &&& w.mode.contains(TermMode::SHOW_CURSOR)
            &&& !w.mode.contains(TermMode::ALT_SCREEN)
            &&& !w.mode.contains(TermMode::INSERT)
            &&& !w.mode.contains(TermMode::ORIGIN)
            &&& !w.mode.intersects(TermMode::ANY_MOUSE)
            &&& w.cursor_blinks
            &&& w.cursor_shape == super::cursor::CursorShape::Block
            &&& w.title == v.title
            &&& v.on(TermMode::ALT_SCREEN) ==> w.grid.max_scrollback == v.inactive.max_scrollback
        }),
{
    reveal(TermView::esc);
    reveal(TermView::full_reset);
    reveal(TermView::set_alt_screen);
    assert(0x0001_0005u32 & 1 == 1 && 0x0001_0005u32 & 4 == 4 && 0x0001_0005u32 & 0x2000 != 0x2000
        && 0x0001_0005u32 & 0x20 != 0x20 && 0x0001_0005u32 & 2 != 2 && 0x0001_0005u32 & 0x0E00 == 0)
        by (bit_vector);
    assert(0u16 & 0x0200 == 0) by (bit_vector);
}

// ---------------------------------------------------------------------------
// Text
// ---------------------------------------------------------------------------

/// Does every cell of a run hold one character of `text`, in order?
pub open spec fn spells(cells: Seq<Cell>, text: Seq<char>) -> bool {
    &&& cells.len() == text.len()
    &&& forall|i: int|
        0 <= i < cells.len() ==> (#[trigger] cells[i]).ch == text[i] as u32 && text[i] != '\0'
            && !cells[i].flags.contains(CellFlags::WIDE_SPACER)
}

/// The text of cells that hold one character each is those characters, blanks included.
pub proof fn cells_are_copied_one_by_one(v: TermView, cells: Seq<Cell>, text: Seq<char>)
    requires
        spells(cells, text),
    ensures
        v.text_of(cells) == text,
    decreases cells.len(),
{
    if cells.len() > 0 {
        let n = cells.len() - 1;
        cells_are_copied_one_by_one(v, cells.drop_last(), text.drop_last());
        assert(cells.last() == cells[n]);
        cells_show_what_they_hold(v, text[n], cells[n]);
        assert(text =~= text.drop_last() + seq![text[n]]);
    } else {
        assert(text =~= v.text_of(cells));
    }
}

/// Text is copied piece by piece: the text of two runs of cells, one after the other, is the text of
/// both.
pub proof fn copied_texts_add_up(v: TermView, a: Seq<Cell>, b: Seq<Cell>)
    ensures
        v.text_of(a + b) == v.text_of(a) + v.text_of(b),
    decreases b.len(),
{
    if b.len() == 0 {
        assert(a + b =~= a);
        assert(v.text_of(a) + v.text_of(b) =~= v.text_of(a));
    } else {
        copied_texts_add_up(v, a, b.drop_last());
        assert((a + b).drop_last() =~= a + b.drop_last());
        assert((a + b).last() == b.last());
        assert(v.text_of(a + b) =~= v.text_of(a) + v.text_of(b));
    }
}

/// What one cell contributes to a text: what it shows, or nothing for the second half of a
/// double-width character. A cell that holds nothing is a blank, and a character with marks comes
/// with its marks.
pub proof fn one_cell_is_copied(v: TermView, c: Cell)
    ensures
        c.flags.contains(CellFlags::WIDE_SPACER) ==> v.text_of(seq![c]) == Seq::<char>::empty(),
        !c.flags.contains(CellFlags::WIDE_SPACER) && c.ch == 0 ==> v.text_of(seq![c]) == seq![' '],
        !c.flags.contains(CellFlags::WIDE_SPACER) && c.ch >= CLUSTER_TAG && c.ch - CLUSTER_TAG
            < v.clusters.len() ==> v.text_of(seq![c]) == v.clusters[c.ch - CLUSTER_TAG],
        !c.flags.contains(CellFlags::WIDE_SPACER) ==> v.text_of(seq![c]) == v.characters(c),
{
    let one = seq![c];
    assert(one.drop_last() =~= Seq::<Cell>::empty());
    assert(v.text_of(one.drop_last()) =~= Seq::<char>::empty());
    assert(v.text_of(one) =~= (if c.flags.contains(CellFlags::WIDE_SPACER) {
        Seq::<char>::empty()
    } else {
        v.characters(c)
    }));
}

/// A line that begins with some text and holds nothing after it is that text, as a line and as the
/// part of a selection.
pub proof fn lines_are_copied(v: TermView, line: int, text: Seq<char>)
    requires
        v.wf(),
        0 <= line < v.grid.total(),
        0 < text.len() <= v.cols(),
        ({
            let cells = v.grid.line(line).cells;
            &&& spells(cells.take(text.len() as int), text)
            &&& forall|i: int| text.len() <= i < v.cols() ==> (#[trigger] cells[i]).ch == 0
        }),
    ensures
        v.line_text(line) == text,
        v.text_range((line, 0int), (line, text.len() - 1)) == text,
{
    let r = v.grid.line(line);
    let n = text.len() as int;
    lemma_wrap_is_mod(line - v.grid.history, v.grid.cap());
    assert(r.cells.len() == v.cols());
    assert(r.cells.take(r.cells.len() as int) =~= r.cells);
    assert(r.cells.take(n)[n - 1] == r.cells[n - 1]);
    lemma_number(text[n - 1]);
    lemma_used(r.cells, n);
    cells_are_copied_one_by_one(v, r.cells.take(n), text);
    let (start, end) = ((line, 0int), (line, n - 1));
    assert(v.lines_text(start, end, line) =~= Seq::<char>::empty());
    assert(r.cells.subrange(0, n) =~= r.cells.take(n));
    assert(v.line_part(line, start, end) == text);
    assert(v.lines_text(start, end, line + 1) =~= text);
}

/// Only one character has the number nought.
proof fn lemma_number(c: char)
    ensures
        c != '\0' ==> c as u32 != 0,
{
}

/// Cells that hold something up to `n` and nothing after it are `n` in use.
proof fn lemma_used(cells: Seq<Cell>, n: int)
    requires
        0 <= n <= cells.len(),
        n > 0 ==> cells[n - 1].ch != 0,
        forall|i: int| n <= i < cells.len() ==> (#[trigger] cells[i]).ch == 0,
    ensures
        super::grid::used_len(cells) == n,
    decreases cells.len(),
{
    if cells.len() > n {
        assert(cells.last() == cells[cells.len() - 1]);
        assert forall|i: int| n <= i < cells.drop_last().len() implies (
        #[trigger] cells.drop_last()[i]).ch == 0 by {
            assert(cells.drop_last()[i] == cells[i]);
        }
        lemma_used(cells.drop_last(), n);
    }
}

/// A selection over several lines is the text of each of them in turn: the first from where it
/// starts, the last up to where it ends.
pub proof fn selections_run_from_line_to_line(v: TermView, start: (int, int), end: (int, int))
    requires
        v.wf(),
        0 <= start.0 < end.0 < v.grid.total(),
        0 <= start.1 < v.cols(),
        0 <= end.1 < v.cols(),
    ensures
        ({
            let last = v.grid.line(end.0).cells;
            &&& v.text_range(start, end) == v.lines_text(start, end, end.0) + v.text_of(
                last.take(end.1 + 1),
            )
            &&& v.lines_text(start, end, start.0) == Seq::<char>::empty()
        }),
{
    let last = v.grid.line(end.0).cells;
    lemma_wrap_is_mod(end.0 - v.grid.history, v.grid.cap());
    assert(last.len() == v.cols());
    assert(last.subrange(0, end.1 + 1) =~= last.take(end.1 + 1));
}

/// What is typed can be copied: a run of printable bytes that fits on an empty line is on it, and
/// copying the line gives the run back.
pub proof fn typed_text_is_copied(v: TermView, bytes: Seq<u8>)
    requires
        ready(v),
        !v.on(TermMode::INSERT),
        v.cursor.x == 0,
        (if v.cursor.shifted {
            v.cursor.g1
        } else {
            v.cursor.g0
        }) == super::cursor::Charset::Ascii,
        !v.cursor.pen.flags.contains(CellFlags::WIDE_SPACER),
        0 < bytes.len() < v.cols(),
        forall|i: int| 0 <= i < bytes.len() ==> 0x20 <= #[trigger] bytes[i] <= 0x7E,
        forall|i: int| 0 <= i < v.cols() ==> (#[trigger] at(v, i, v.cursor.y)).ch == 0,
    ensures
        ({
            let w = v.typed_run(bytes);
            let text = Seq::new(bytes.len(), |i: int| bytes[i] as char);
            &&& w.line_text(v.grid.history + v.cursor.y) == text
            &&& w.cursor.x == bytes.len()
            &&& w.cursor.y == v.cursor.y
        }),
{
    lemma_typed(v, bytes);
    let w = v.typed_run(bytes);
    let text = Seq::new(bytes.len(), |i: int| bytes[i] as char);
    let line = v.grid.history + v.cursor.y;
    lines_are_numbered_alike(w.grid, v.cursor.y);
    let cells = w.grid.line(line).cells;
    lemma_wrap_is_mod(line - w.grid.history, w.grid.cap());
    assert forall|i: int| 0 <= i < bytes.len() implies (#[trigger] cells.take(
        bytes.len() as int,
    )[i]).ch == text[i] as u32 && text[i] != '\0' && !cells.take(
        bytes.len() as int,
    )[i].flags.contains(CellFlags::WIDE_SPACER) by {
        assert(cells[i] == at(w, i, v.cursor.y));
        assert(0x20 <= bytes[i] <= 0x7E);
    }
    assert forall|i: int| text.len() <= i < v.cols() implies (#[trigger] cells[i]).ch == 0 by {
        assert(cells[i] == at(w, i, v.cursor.y));
        assert(at(v, i, v.cursor.y).ch == 0);
    }
    lines_are_copied(w, line, text);
}

/// Typing a run of bytes that fits on the line, one byte at a time.
proof fn lemma_typed(v: TermView, bytes: Seq<u8>)
    requires
        ready(v),
        !v.on(TermMode::INSERT),
        v.cursor.x == 0,
        v.cursor.charset() == super::cursor::Charset::Ascii,
        bytes.len() < v.cols(),
    ensures
        ({
            let w = v.typed_run(bytes);
            &&& ready(w)
            &&& same_frame(v, w)
            &&& w.mode == v.mode
            &&& w.cursor == CursorView { x: bytes.len() as int, ..v.cursor }
            &&& forall|i: int|
                0 <= i < bytes.len() ==> #[trigger] at(w, i, v.cursor.y) == written(
                    bytes[i] as char,
                    v.cursor.pen,
                )
            &&& forall|i: int|
                bytes.len() <= i < v.cols() ==> #[trigger] at(w, i, v.cursor.y) == at(
                    v,
                    i,
                    v.cursor.y,
                )
        }),
    decreases bytes.len(),
{
    if bytes.len() > 0 {
        let before = bytes.drop_last();
        let b = bytes.last();
        lemma_typed(v, before);
        let u = v.typed_run(before);
        let w = v.typed_run(bytes);
        assert(w == u.typed(b));
        assert(u.shown(b as char) == b as char);
        bytes_are_written(u, b);
        characters_are_written(u, b as char);
        lemma_printed_wf(u, b as char);
        let p = u.printed_as(b as char, Some(1usize));
        assert(p.grid == w.grid && p.cursor == w.cursor && p.mode == w.mode);
        lemma_typed_wf(u, b);
        assert forall|i: int| 0 <= i < bytes.len() implies #[trigger] at(w, i, v.cursor.y)
            == written(bytes[i] as char, v.cursor.pen) by {
            assert(at(w, i, v.cursor.y) == at(p, i, v.cursor.y));
            if i < before.len() {
                assert(before[i] == bytes[i]);
                assert(at(u, i, v.cursor.y) == written(before[i] as char, v.cursor.pen));
            }
        }
        assert forall|i: int| bytes.len() <= i < v.cols() implies #[trigger] at(w, i, v.cursor.y)
            == at(v, i, v.cursor.y) by {
            assert(at(w, i, v.cursor.y) == at(p, i, v.cursor.y));
            assert(at(u, i, v.cursor.y) == at(v, i, v.cursor.y));
        }
        assert forall|i: int| 0 <= i < v.grid.history implies #[trigger] w.grid.line(i)
            == v.grid.line(i) by {
            assert(p.grid.line(i) == u.grid.line(i));
            assert(u.grid.line(i) == v.grid.line(i));
        }
    } else {
        assert(v.typed_run(bytes) == v);
    }
}

proof fn lemma_typed_wf(u: TermView, b: u8)
    requires
        ready(u),
        !u.on(TermMode::INSERT),
        u.shown(b as char) == b as char,
    ensures
        u.typed(b).wf(),
{
    bytes_are_written(u, b);
    lemma_printed_wf(u, b as char);
}

/// A change of size re-wraps the primary screen, wherever it is, and takes the cursor along with its
/// text if it is on it; the alternate screen is cut or padded, and its cursor stays, or goes to the
/// edge. Pen, character sets, modes and title stay, and no wrap is pending.
pub proof fn resizing_takes_the_cursor_along(v: TermView, cols: int, rows: int, x: int, y: int)
    requires
        v.wf(),
        cols >= 1,
        rows >= 1,
        cols != v.cols() || rows != v.rows(),
    ensures
        ({
            let w = v.resized(cols, rows);
            let on_alt = v.on(TermMode::ALT_SCREEN);
            &&& !on_alt ==> w.grid == v.grid.reflowed(cols, rows)
            &&& !on_alt ==> (w.cursor.x, w.cursor.y) == v.grid.reflowed_position(
                v.cursor.x,
                v.cursor.y,
                cols,
                rows,
            )
            &&& on_alt ==> w.inactive == v.inactive.reflowed(cols, rows)
            &&& on_alt ==> w.cursor.x == (if v.cursor.x < cols {
                v.cursor.x
            } else {
                cols - 1
            })
            &&& on_alt ==> w.cursor.y == (if v.cursor.y < rows {
                v.cursor.y
            } else {
                rows - 1
            })
            &&& on_alt && v.grid.history == 0 && rows >= v.rows() && 0 <= y < v.rows() && 0 <= x
                < v.cols() && x < cols ==> at(w, x, y) == at(v, x, y)
            &&& on_alt && v.grid.history == 0 && rows >= v.rows() && 0 <= y < v.rows() && v.cols()
                <= x < cols ==> holds_nothing(at(w, x, y), v.cursor.pen)
            &&& w.cursor == CursorView {
                x: w.cursor.x,
                y: w.cursor.y,
                wrap_pending: false,
                ..v.cursor
            }
            &&& w.mode == v.mode
            &&& w.title == v.title
            &&& w.clusters == v.clusters
            &&& w.dirty
        }),
{
    reveal(GridView::resized);
}

} // verus!
