//! What operations leave alone, and what becomes of whole lines.

use vstd::prelude::*;

use super::cell::{Cell, CellFlags, Pen};
use super::cursor::{Charset, CursorShape, CursorView};
use super::grid::{padded_row, resized_row, GridView, RowView};
use super::mode::TermMode;
use super::model::TermView;
use super::motion_laws::{after, after_escape, number};
use super::reflow::{
    finished_lines, is_padding, joined, logical_lines, open_line, row_take, split_all, split_rows,
    unpadded,
};
use super::screen_laws::{at, holds_nothing, ready};
use super::vt::VtEvent;

verus! {

/// Do two terminals agree on all but the screen in use and the cursor?
pub open spec fn same_settings(v: TermView, w: TermView) -> bool {
    &&& w.inactive == v.inactive
    &&& w.saved_cursor == v.saved_cursor
    &&& w.saved_cursor_alt == v.saved_cursor_alt
    &&& w.mode == v.mode
    &&& w.cursor_shape == v.cursor_shape
    &&& w.cursor_blinks == v.cursor_blinks
    &&& w.scroll_top == v.scroll_top
    &&& w.scroll_bot == v.scroll_bot
    &&& w.tabs == v.tabs
    &&& w.underline_colors == v.underline_colors
    &&& w.replies == v.replies
    &&& w.title == v.title
    &&& w.title_revision == v.title_revision
    &&& w.bell_revision == v.bell_revision
}

/// Do two cursors differ at most in their place?
pub open spec fn same_but_place(c: CursorView, d: CursorView) -> bool {
    d == CursorView { x: d.x, y: d.y, wrap_pending: d.wrap_pending, ..c }
}

/// Printing changes the screen and the place of the cursor, and no setting: not the pen, the
/// character sets, the modes, the region, the stops or the title, nor the other screen.
pub proof fn printing_changes_no_setting(v: TermView, c: char, width: Option<usize>)
    ensures
        same_settings(v, v.printed_as(c, width)),
        same_but_place(v.cursor, v.printed_as(c, width).cursor),
{
    reveal(TermView::printed_as);
    reveal(TermView::combined);
    let w = v.output().signalled();
    match width {
        Some(n) => {
            lemma_put_changes_no_setting(w, c, n as int);
        },
        None => {},
    }
}

proof fn lemma_line_changes_no_setting(v: TermView)
    ensures
        same_settings(v, v.wrapped()),
        same_but_place(v.cursor, v.wrapped().cursor),
        same_settings(v, v.linefeed()),
        same_but_place(v.cursor, v.linefeed().cursor),
        v.wrapped().clusters == v.clusters,
{
    reveal(TermView::wrapped);
    reveal(TermView::linefeed);
}

proof fn lemma_put_changes_no_setting(v: TermView, c: char, width: int)
    ensures
        same_settings(v, v.put_char(c, width)),
        same_but_place(v.cursor, v.put_char(c, width).cursor),
        v.put_char(c, width).clusters == v.clusters,
{
    reveal(TermView::put_char);
    reveal(TermView::drawn);
    let w = if v.cursor.wrap_pending {
        v.wrapped()
    } else {
        v
    };
    lemma_line_changes_no_setting(v);
    lemma_line_changes_no_setting(w.gapped());
}

/// A line feed changes no setting either, and neither does a reverse one.
pub proof fn line_feeds_change_no_setting(v: TermView, b: u8)
    requires
        b == 0x0A || b == 0x0B || b == 0x0C,
    ensures
        same_settings(v, v.execute(b)),
        same_but_place(v.cursor, v.execute(b).cursor),
        v.execute(b).clusters == v.clusters,
        same_settings(v, after_escape(v, 0x44)),
        same_settings(v, after_escape(v, 0x45)),
        same_settings(v, after_escape(v, 0x4D)),
{
    reveal(TermView::execute);
    reveal(TermView::esc);
    reveal(TermView::linefeed);
    reveal(TermView::reverse_index);
}

/// Editing the screen changes no setting, and moves the cursor only where lines are inserted or
/// deleted. Control bytes that are not known change nothing, and neither do unknown sequences.
pub proof fn editing_changes_no_setting(v: TermView, params: Seq<Seq<u16>>, action: char)
    requires
        action == '@' || action == 'J' || action == 'K' || action == 'L' || action == 'M' || action
            == 'P' || action == 'S' || action == 'T' || action == 'X',
    ensures
        ({
            let w = after(v, params, action);
            &&& same_settings(v, w)
            &&& w.clusters == v.clusters
            &&& w.cursor.pen == v.cursor.pen
            &&& w.cursor.y == v.cursor.y
            &&& w.cursor.wrap_pending == v.cursor.wrap_pending
            &&& action != 'L' && action != 'M' ==> w.cursor == v.cursor
            &&& w.grid.max_scrollback == v.grid.max_scrollback
        }),
{
    reveal(TermView::csi);
    reveal(TermView::csi_edit);
    reveal(TermView::shifted_right);
    reveal(TermView::erase_in_display);
}

/// Control bytes and sequences that are not known change nothing.
pub proof fn the_unknown_changes_nothing(
    v: TermView,
    b: u8,
    params: Seq<Seq<u16>>,
    marks: Seq<u8>,
    action: char,
    byte: u8,
)
    requires
        !(0x07 <= b <= 0x0F),
        action != '@' && !('A' <= action <= 'M') && action != 'P' && action != 'S' && action != 'T'
            && action != 'X' && action != 'Z' && action != '`' && !('a' <= action <= 'u'),
        byte != 0x30 && byte != 0x37 && byte != 0x38 && byte != 0x42 && byte != 0x44 && byte != 0x45
            && byte != 0x48 && byte != 0x4D && byte != 0x3D && byte != 0x3E && byte != 0x63,
    ensures
        v.execute(b) == (TermView { dirty: true, ..v }),
        v.performed(VtEvent::Csi { params, intermediates: marks, ignore: false, action }) == (TermView {
            dirty: true,
            ground_signal: true,
            ..v
        }),
        v.performed(VtEvent::Esc { intermediates: marks, ignore: false, byte }) == (TermView {
            dirty: true,
            ground_signal: true,
            ..v
        }),
{
    reveal(TermView::execute);
    reveal(TermView::csi);
    reveal(TermView::csi_set);
    reveal(TermView::esc);
}

/// Lines that are moved stay whole: with their cells goes whether they continue into the next one, and
/// whether they end in a gap. New ones do neither.
pub proof fn moved_lines_stay_whole(v: TermView, params: Seq<Seq<u16>>, j: int)
    requires
        v.wf(),
        v.cursor.y < v.rows(),
        0 <= j < v.rows(),
    ensures
        ({
            let n = number(params, 0, 1);
            let (y, top, bot) = (v.cursor.y, v.scroll_top, v.scroll_bot);
            let inside = top <= y <= bot;
            let down = after(v, params, 'L');
            let up = after(v, params, 'M');
            let back = after(v, params, 'T');
            let on = after(v, params, 'S');
            &&& inside && y <= j <= bot && j - n >= y ==> down.grid.live(j) == v.grid.live(j - n)
            &&& inside && y <= j <= bot && j - n < y ==> !down.grid.live(j).wrapped && !down.grid.live(
                j,
            ).gap
            &&& inside && y <= j && j + n <= bot ==> up.grid.live(j) == v.grid.live(j + n)
            &&& inside && y <= j <= bot && j + n > bot ==> !up.grid.live(j).wrapped && !up.grid.live(
                j,
            ).gap
            &&& top <= j <= bot && j - n >= top ==> back.grid.live(j) == v.grid.live(j - n)
            &&& top <= j <= bot && j - n < top ==> !back.grid.live(j).wrapped
            &&& top <= j && j + n <= bot ==> on.grid.live(j) == v.grid.live(j + n)
            &&& top <= j <= bot && j + n > bot ==> !on.grid.live(j).wrapped
            &&& !(top <= j <= bot) ==> back.grid.live(j) == v.grid.live(j) && on.grid.live(j)
                == v.grid.live(j)
        }),
{
    reveal(TermView::csi);
    reveal(TermView::csi_edit);
}

/// A line in which something is erased up to its end, or from its start, no longer continues into the
/// next one; one in which characters are erased, inserted or deleted still does.
pub proof fn erased_lines_do_not_go_on(v: TermView, params: Seq<Seq<u16>>, mode: u16)
    requires
        v.wf(),
        v.cursor.x < v.cols(),
        v.cursor.y < v.rows(),
    ensures
        ({
            let y = v.cursor.y;
            let line = after(v, seq![seq![mode]], 'K');
            let screen = after(v, seq![seq![2u16]], 'J');
            &&& !line.grid.live(y).wrapped
            &&& !after(v, Seq::empty(), 'J').grid.live(y).wrapped
            &&& !screen.grid.live(y).wrapped && !screen.grid.live(y).gap
            &&& after(v, params, 'X').grid.live(y).wrapped == v.grid.live(y).wrapped
            &&& after(v, params, '@').grid.live(y).wrapped == v.grid.live(y).wrapped
            &&& after(v, params, 'P').grid.live(y).wrapped == v.grid.live(y).wrapped
        }),
{
    reveal(TermView::csi);
    reveal(TermView::csi_edit);
    reveal(TermView::shifted_right);
    reveal(TermView::erase_in_display);
}

/// Writing in a line leaves it to it whether it continues; a character that is written ends the gap
/// that was there.
pub proof fn written_lines_go_on_as_before(v: TermView, c: char)
    requires
        ready(v),
        !v.on(TermMode::INSERT),
    ensures
        ({
            let w = v.printed_as(c, Some(1usize));
            &&& w.grid.live(v.cursor.y).wrapped == v.grid.live(v.cursor.y).wrapped
            &&& v.cursor.x == v.cols() - 1 ==> !w.grid.live(v.cursor.y).gap
            &&& v.cursor.x < v.cols() - 1 ==> w.grid.live(v.cursor.y).gap == v.grid.live(v.cursor.y).gap
        }),
{
    reveal(TermView::printed_as);
    reveal(TermView::put_char);
    reveal(TermView::drawn);
}

/// A character that is printed while the line waits to wrap is printed as if the line had been left
/// by a line feed, from the start of the next; the line that was left is marked as going on there.
pub proof fn pending_wraps_happen_first(v: TermView, c: char, width: usize)
    requires
        v.wf(),
        v.cursor.wrap_pending,
        v.cursor.y < v.rows(),
        v.grid.display_offset == 0,
        width >= 1,
    ensures
        ({
            let y = v.cursor.y;
            let left = TermView {
                grid: GridView {
                    ring: v.grid.ring.update(y, RowView { wrapped: true, ..v.grid.ring[y] }),
                    ..v.grid
                },
                cursor: CursorView { x: 0, wrap_pending: false, ..v.cursor },
                ..v
            };
            v.printed_as(c, Some(width)) == after_escape(left, 0x44).printed_as(c, Some(width))
        }),
{
    reveal(TermView::printed_as);
    reveal(TermView::put_char);
    reveal(TermView::wrapped);
    reveal(TermView::linefeed);
    reveal(TermView::esc);
    let y = v.cursor.y;
    let left = TermView {
        grid: GridView {
            ring: v.grid.ring.update(y, RowView { wrapped: true, ..v.grid.ring[y] }),
            ..v.grid
        },
        cursor: CursorView { x: 0, wrap_pending: false, ..v.cursor },
        ..v
    };
    let a = v.output().signalled().wrapped();
    let b = after_escape(left, 0x44).output().signalled();
    assert(a.grid =~= b.grid);
    assert(a == b);
}

/// In insert mode a character that takes two columns makes room for both.
pub proof fn insert_mode_makes_room_for_two(v: TermView, c: char)
    requires
        ready(v),
        v.on(TermMode::INSERT),
        v.cursor.x + 2 <= v.cols(),
    ensures
        ({
            let w = v.printed_as(c, Some(2usize));
            let (x, y) = (v.cursor.x, v.cursor.y);
            &&& at(w, x, y).ch == c as u32
            &&& at(w, x, y).flags.0 == v.cursor.pen.flags.0 | 0x2000
            &&& at(w, x + 1, y).ch == 0
            &&& forall|i: int| 0 <= i < x ==> #[trigger] at(w, i, y) == at(v, i, y)
            &&& forall|i: int| x + 2 <= i < v.cols() ==> #[trigger] at(w, i, y) == at(v, i - 2, y)
            &&& forall|i: int, j: int|
                0 <= i < v.cols() && 0 <= j < v.rows() && j != y ==> #[trigger] at(w, i, j) == at(
                    v,
                    i,
                    j,
                )
        }),
{
    reveal(TermView::printed_as);
    reveal(TermView::put_char);
    reveal(TermView::drawn);
    reveal(TermView::shifted_right);
}

/// Erasing history as well leaves none, and shows the live screen.
pub proof fn history_can_be_erased(v: TermView)
    requires
        v.wf(),
    ensures
        ({
            let w = after(v, seq![seq![3u16]], 'J');
            &&& w.grid.history == 0
            &&& w.grid.display_offset == 0
            &&& w.grid.rows == v.grid.rows && w.grid.cols == v.grid.cols
            &&& w.cursor == v.cursor
        }),
{
    reveal(TermView::csi);
    reveal(TermView::csi_edit);
    reveal(TermView::erase_in_display);
}

/// A reset leaves nothing as it was but the title, the counters, what waits to be sent, and how the
/// alternate screen was last left: stops, saved cursor, character sets and modes are those of a fresh
/// terminal, both screens are blank, and no cluster or colour of old is kept.
pub proof fn resets_leave_nothing(v: TermView, x: int, y: int)
    requires
        v.wf(),
        0 <= x < v.cols(),
        0 <= y < v.rows(),
    ensures
        ({
            let w = after_escape(v, 0x63);
            let plain = Pen {
                fg: super::color::Color(0),
                bg: super::color::Color(0),
                flags: CellFlags(0),
                underline: 0,
            };
            let home = CursorView {
                x: 0,
                y: 0,
                pen: plain,
                wrap_pending: false,
                g0: Charset::Ascii,
                g1: Charset::Graphics,
                shifted: false,
            };
            &&& w.cursor == home
            &&& w.saved_cursor == home
            &&& w.mode.0 == 0x0001_0005
            &&& w.cursor_shape == CursorShape::Block && w.cursor_blinks
            &&& w.tabs.len() == v.cols() && w.tabs[x] == (x > 0 && x % 8 == 0)
            &&& w.clusters.len() == 0 && w.underline_colors.len() == 0
            &&& w.grid.display_offset == 0
            &&& w.replies == v.replies
            &&& w.title == v.title && w.title_revision == v.title_revision
            &&& w.bell_revision == v.bell_revision
            &&& holds_nothing(w.inactive.live(y).cells[x], plain)
            &&& holds_nothing(w.grid.live(y).cells[x], plain)
            &&& w.dirty
        }),
{
    reveal(TermView::esc);
    reveal(TermView::full_reset);
    reveal(TermView::set_alt_screen);
    assert(0u16 & 0x0200 == 0) by (bit_vector);
}

/// A mark joins the character that was printed last: the one under the cursor while the line waits to
/// wrap, and the first half of one that takes two columns. With nothing before it there is nothing to
/// join, and nothing changes. What has no width at all is a mark.
pub proof fn marks_find_their_character(v: TermView, mark: char)
    requires
        v.wf(),
        v.cursor.x < v.cols(),
        v.cursor.y < v.rows(),
        v.clusters.len() < 0x8000_0000,
    ensures
        ({
            let w = v.printed_as(mark, Some(0usize));
            let (x, y) = (v.cursor.x, v.cursor.y);
            let under = v.characters(at(v, x, y));
            let two = v.characters(at(v, x - 2, y));
            &&& v.printed_as(mark, None) == w
            &&& w.cursor == v.cursor
            &&& !v.cursor.wrap_pending && x == 0 ==> w.grid.lines() == v.grid.lines() && w.clusters
                == v.clusters
            &&& v.cursor.wrap_pending && under.len() < 8 && !at(v, x, y).flags.contains(
                CellFlags::WIDE_SPACER,
            ) ==> w.characters(at(w, x, y)) == under.push(mark)
            &&& !v.cursor.wrap_pending && x > 1 && two.len() < 8 && at(v, x - 1, y).flags.contains(
                CellFlags::WIDE_SPACER,
            ) ==> w.characters(at(w, x - 2, y)) == two.push(mark) && at(w, x - 1, y) == at(v, x - 1, y)
        }),
{
    reveal(TermView::printed_as);
    reveal(TermView::combined);
    let n = v.clusters.len() as u32;
    assert(n < 0x8000_0000 ==> (n | 0x8000_0000u32) == n + 0x8000_0000) by (bit_vector);
    let w = v.printed_as(mark, Some(0usize));
    if !v.cursor.wrap_pending && v.cursor.x == 0 {
        assert(w.grid.lines() =~= v.grid.lines());
    }
}

/// A terminal that is made another size is of that size, both screens of it; its region is the whole
/// screen, its stops are eight columns apart, and the user sees the live screen.
pub proof fn resizing_starts_over(v: TermView, cols: int, rows: int, x: int)
    requires
        v.wf(),
        cols >= 1,
        rows >= 1,
        cols != v.cols() || rows != v.rows(),
        0 <= x < cols,
    ensures
        ({
            let w = v.resized(cols, rows);
            &&& w.grid.cols == cols && w.grid.rows == rows
            &&& w.inactive.cols == cols && w.inactive.rows == rows
            &&& w.grid.max_scrollback == v.grid.max_scrollback
            &&& w.inactive.max_scrollback == v.inactive.max_scrollback
            &&& w.scroll_top == 0 && w.scroll_bot == rows - 1
            &&& w.tabs.len() == cols && w.tabs[x] == (x > 0 && x % 8 == 0)
            &&& w.grid.display_offset == 0
            &&& w.saved_cursor == v.saved_cursor && w.saved_cursor_alt == v.saved_cursor_alt
            &&& w.cursor_shape == v.cursor_shape && w.cursor_blinks == v.cursor_blinks
            &&& w.underline_colors == v.underline_colors && w.replies == v.replies
            &&& w.title_revision == v.title_revision && w.bell_revision == v.bell_revision
        }),
        v.resized(v.cols(), v.rows()) == v,
{
    reveal(GridView::resized);
    reveal(GridView::reflowed);
}

/// A row that is made wider or narrower keeps its cells as far as they fit; behind them it is blank, in
/// the colours of the pen.
pub proof fn resized_rows_keep_their_cells(r: RowView, cols: int, pen: Pen, x: int)
    requires
        0 <= x < cols,
    ensures
        ({
            let after = resized_row(r, cols, pen);
            &&& after.cells.len() == cols
            &&& x < r.cells.len() ==> after.cells[x] == r.cells[x]
            &&& x >= r.cells.len() ==> holds_nothing(after.cells[x], pen)
            &&& after.wrapped == r.wrapped
        }),
{
}

// ---------------------------------------------------------------------------
// Rows and lines
// ---------------------------------------------------------------------------

/// A row that does not continue is a line of its own, if the row before it does not either; two rows of
/// which the first continues are one line, without the gap at the end of the first if it has one.
pub proof fn rows_make_lines(rows: Seq<RowView>, a: RowView, b: RowView)
    requires
        rows.len() > 0 ==> !rows.last().wrapped,
        !b.wrapped,
        a.wrapped,
        a.cells.len() > 1,
    ensures
        finished_lines(Seq::empty()) == Seq::<Seq<Cell>>::empty(),
        finished_lines(rows.push(b)) == finished_lines(rows).push(unpadded(b.cells)),
        !a.gap ==> finished_lines(rows.push(a).push(b)) == finished_lines(rows).push(
            unpadded(a.cells + b.cells),
        ),
        a.gap ==> finished_lines(rows.push(a).push(b)) == finished_lines(rows).push(
            unpadded(a.cells.drop_last() + b.cells),
        ),
        logical_lines(rows.push(b)) == finished_lines(rows.push(b)),
{
    assert(open_line(rows) =~= Seq::<Cell>::empty());
    assert(rows.push(b).drop_last() =~= rows);
    assert(open_line(rows) + b.cells =~= b.cells);
    let both = rows.push(a).push(b);
    assert(both.drop_last() =~= rows.push(a));
    assert(rows.push(a).drop_last() =~= rows);
    assert(rows.push(a).last() == a);
    assert(open_line(rows.push(a)) =~= joined(a));
    assert(finished_lines(rows.push(a)) == finished_lines(rows));
    assert(both.last() == b);
    assert(open_line(rows.push(b)) =~= Seq::<Cell>::empty());
}

/// What is dropped from the end of a line is padding, all of it and nothing else: cells that hold
/// nothing and are no half of a character.
pub proof fn only_padding_is_dropped(cells: Seq<Cell>)
    ensures
        ({
            let kept = unpadded(cells);
            &&& kept.len() <= cells.len()
            &&& kept == cells.take(kept.len() as int)
            &&& kept.len() > 0 ==> kept.last().ch != 0 || kept.last().flags.contains(
                CellFlags::WIDE_SPACER,
            )
            &&& forall|i: int|
                kept.len() <= i < cells.len() ==> (#[trigger] cells[i]).ch == 0
                    && !cells[i].flags.contains(CellFlags::WIDE_SPACER)
        }),
    decreases cells.len(),
{
    if cells.len() > 0 && is_padding(cells.last()) {
        let before = cells.drop_last();
        only_padding_is_dropped(before);
        let kept = unpadded(cells);
        assert(kept =~= cells.take(kept.len() as int));
        assert forall|i: int| kept.len() <= i < cells.len() implies (#[trigger] cells[i]).ch == 0
            && !cells[i].flags.contains(CellFlags::WIDE_SPACER) by {
            if i < before.len() {
                assert(before[i] == cells[i]);
            }
        }
    } else {
        assert(cells.take(cells.len() as int) =~= cells);
    }
}

/// After a reflow the screen shows the end of the text, and history what was before it as far as there
/// is room; where the text is shorter than the screen it starts at the top, and the rest is empty.
pub proof fn reflowed_screens_show_the_end(g: GridView, cols: int, rows: int, j: int)
    requires
        g.wf(),
        cols >= 1,
        rows >= 1,
        cols != g.cols || rows != g.rows,
        0 <= j < rows,
    ensures
        ({
            let all = split_all(logical_lines(g.lines()), cols);
            let after = g.reflowed(cols, rows);
            let n = all.len() as int;
            &&& n >= rows ==> after.live(j) == all[n - rows + j]
            &&& n < rows && j < n ==> after.live(j) == all[j]
            &&& n < rows && j >= n ==> forall|x: int|
                0 <= x < cols ==> #[trigger] after.live(j).cells[x] == Cell::empty()
            &&& n <= rows ==> after.history == 0
            &&& rows < n <= rows + g.max_scrollback ==> after.history == n - rows
            &&& n > rows + g.max_scrollback ==> after.history == g.max_scrollback
            &&& n > rows ==> forall|i: int|
                0 <= i < after.history ==> #[trigger] after.line(i) == all[n - rows - after.history + i]
        }),
{
    reveal(GridView::reflowed);
}

/// Lines come one after the other, each from the start of a row.
pub proof fn lines_start_rows(logical: Seq<Seq<Cell>>, cells: Seq<Cell>, cols: int)
    ensures
        split_all(Seq::empty(), cols) == Seq::<RowView>::empty(),
        split_all(logical.push(cells), cols) == split_all(logical, cols) + split_rows(cells, 0, cols),
{
    assert(logical.push(cells).drop_last() =~= logical);
}

/// A line that fits is one row, with nothing behind it.
pub proof fn short_lines_take_one_row(cells: Seq<Cell>, cols: int, x: int)
    requires
        cells.len() <= cols,
        0 <= x < cols,
    ensures
        ({
            let rows = split_rows(cells, 0, cols);
            &&& rows.len() == 1
            &&& !rows[0].wrapped && !rows[0].gap
            &&& rows[0].cells.len() == cols
            &&& x < cells.len() ==> rows[0].cells[x] == cells[x]
            &&& x >= cells.len() ==> rows[0].cells[x] == Cell::empty()
        }),
{
}

/// A line that does not fit fills its first row and goes on in the next: the row holds as many cells as
/// it has columns, or one less where the last would be the first half of a character, and then a gap.
/// What is behind them is split in the same way.
pub proof fn long_lines_fill_their_rows(cells: Seq<Cell>, cols: int, x: int)
    requires
        cols >= 2,
        cells.len() > cols,
        0 <= x < cols,
    ensures
        ({
            let rows = split_rows(cells, 0, cols);
            let half = cells[cols - 1].flags.contains(CellFlags::WIDE);
            let first = if half {
                cols - 1
            } else {
                cols
            };
            &&& rows.len() > 1
            &&& rows[0].wrapped
            &&& rows[0].gap == half
            &&& x < first ==> rows[0].cells[x] == cells[x]
            &&& x >= first ==> rows[0].cells[x] == Cell::empty()
            &&& rows.skip(1) == split_rows(cells.skip(first), 0, cols)
        }),
{
    let rows = split_rows(cells, 0, cols);
    let first = row_take(cells, 0, cols);
    let rest = split_rows(cells, first, cols);
    assert(rows == seq![padded_row(cells.subrange(0, first), cols, true)] + rest);
    lemma_split_behind(cells, first, first, cols);
    assert(rows.skip(1) =~= rest);
    lemma_some_row(cells, first, cols);
}

proof fn lemma_some_row(cells: Seq<Cell>, pos: int, cols: int)
    ensures
        split_rows(cells, pos, cols).len() > 0,
{
}

/// Splitting goes by what is left of a line.
proof fn lemma_split_behind(cells: Seq<Cell>, from: int, pos: int, cols: int)
    requires
        0 <= from <= pos <= cells.len(),
        cols >= 1,
    ensures
        split_rows(cells, pos, cols) == split_rows(cells.skip(from), pos - from, cols),
    decreases cells.len() - pos,
{
    let tail = cells.skip(from);
    let take = row_take(cells, pos, cols);
    assert(take == row_take(tail, pos - from, cols)) by {
        if cells.len() - pos > cols {
            assert(tail[pos - from + cols - 1] == cells[pos + cols - 1]);
        }
    }
    assert(cells.subrange(pos, pos + take) =~= tail.subrange(pos - from, pos - from + take));
    if pos + take < cells.len() && take > 0 {
        lemma_split_behind(cells, from, pos + take, cols);
    }
}

} // verus!
