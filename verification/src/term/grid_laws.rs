//! What holds of grids as a whole.

use vstd::prelude::*;

use super::cell::{Cell, Pen};
use super::grid::{blank_row, resized_row, GridView, RowView};

verus! {

/// Scrolling the whole screen pushes lines into history: read from the oldest line on, the lines
/// are those from before, then as many blank ones as were scrolled. Where the scrollback limit is
/// met, the oldest are gone.
pub proof fn full_scroll_pushes_into_history(g: GridView, n: int, pen: Pen)
    requires
        g.wf(),
        1 <= n <= g.rows,
    ensures
        ({
            let after = g.scroll_up(0, g.rows - 1, n, pen);
            let gone = g.history + n - after.history;
            &&& after.history == (if g.history + n <= g.max_scrollback {
                g.history + n
            } else {
                g.max_scrollback
            })
            &&& forall|i: int|
                0 <= i < after.total() - n ==> #[trigger] after.line(i) == g.line(i + gone)
            &&& forall|i: int|
                after.total() - n <= i < after.total() ==> #[trigger] after.line(i) == blank_row(
                    g.cols,
                    pen,
                )
        }),
{
}

/// Scrolling a part of the screen leaves history and every line outside the part alone.
pub proof fn region_scroll_is_confined(g: GridView, top: int, bottom: int, n: int, pen: Pen)
    requires
        g.wf(),
        0 <= top,
        n >= 0,
        top > 0 || bottom < g.rows - 1,
    ensures
        ({
            let after = g.scroll_up(top, bottom, n, pen);
            &&& after.history == g.history
            &&& after.display_offset == g.display_offset
            &&& forall|i: int|
                0 <= i < g.total() && (i < g.history + top || i > g.history + bottom)
                    ==> #[trigger] after.line(i) == g.line(i)
        }),
{
}

/// Scrolling down never makes or takes history, and leaves every line outside the part alone.
pub proof fn scroll_down_is_confined(g: GridView, top: int, bottom: int, n: int, pen: Pen)
    requires
        g.wf(),
        0 <= top,
        n >= 0,
    ensures
        ({
            let after = g.scroll_down(top, bottom, n, pen);
            &&& after.history == g.history
            &&& after.display_offset == g.display_offset
            &&& forall|i: int|
                0 <= i < g.total() && (i < g.history + top || i > g.history + bottom)
                    ==> #[trigger] after.line(i) == g.line(i)
        }),
{
}

/// Scrolling the screen or a part of it up and down again by the same amount gives every line back
/// that did not leave it.
pub proof fn scroll_down_undoes_scroll_up(g: GridView, top: int, bottom: int, n: int, pen: Pen)
    requires
        g.wf(),
        0 <= top <= bottom < g.rows,
        1 <= n <= bottom - top,
    ensures
        ({
            let after = g.scroll_up(top, bottom, n, pen).scroll_down(top, bottom, n, pen);
            forall|y: int| top + n <= y <= bottom ==> #[trigger] after.live(y) == g.live(y)
        }),
{
}

/// While the user reads scrollback, output that scrolls the screen does not move what they see,
/// until the lines they are looking at fall off the far end of history.
pub proof fn reading_position_is_held(g: GridView, n: int, pen: Pen, y: int)
    requires
        g.wf(),
        1 <= n <= g.rows,
        g.display_offset > 0,
        g.display_offset + n <= g.scroll_up(0, g.rows - 1, n, pen).history,
        0 <= y < g.rows,
    ensures
        g.scroll_up(0, g.rows - 1, n, pen).shown(y) == g.shown(y),
{
}

/// A write lands on the live screen and nowhere else, however far the user has scrolled back.
pub proof fn writes_land_on_the_live_screen(g: GridView, x: int, y: int, c: Cell)
    requires
        g.wf(),
        0 <= x < g.cols,
        0 <= y < g.rows,
    ensures
        ({
            let after = g.set_cell(x, y, c);
            &&& after.live(y).cells[x] == c
            &&& forall|i: int|
                0 <= i < g.total() && i != g.history + y ==> #[trigger] after.line(i) == g.line(i)
            &&& forall|j: int|
                0 <= j < g.cols && j != x ==> #[trigger] after.live(y).cells[j]
                    == g.live(y).cells[j]
            &&& after.display_offset == g.display_offset
        }),
{
}

/// Going back to the live screen shows it again, whatever was looked at in between.
pub proof fn scrolling_back_and_forth_shows_the_live_screen(g: GridView, delta: int, y: int)
    requires
        g.wf(),
        0 <= y < g.rows,
    ensures
        g.scroll_display(delta).scroll_to_bottom().shown(y) == g.live(y),
        g.scroll_display(delta).scroll_to_bottom().display_offset == 0,
{
}

/// The viewport never leaves the lines that there are.
pub proof fn viewport_stays_in_history(g: GridView, delta: int)
    requires
        g.wf(),
    ensures
        0 <= g.scroll_display(delta).display_offset <= g.history,
        delta >= g.history ==> g.scroll_display(delta).display_offset == g.history,
        delta <= -g.history ==> g.scroll_display(delta).display_offset == 0,
{
}

/// Resizing keeps every line, cut or padded to the new width, as long as the new size has room for
/// them all.
pub proof fn resize_keeps_lines(g: GridView, cols: int, rows: int, pen: Pen, i: int)
    requires
        g.wf(),
        cols >= 1,
        rows >= 1,
        cols != g.cols || rows != g.rows,
        g.total() <= rows + g.max_scrollback,
        0 <= i < g.total(),
    ensures
        g.resized(cols, rows, pen).line(i) == resized_row(g.line(i), cols, pen),
{
    reveal(GridView::resized);
}

/// Is a full redraw due, and once it is taken due no more, with nothing else changed by the taking?
pub open spec fn drawn_once(g: GridView) -> bool {
    let taken = g.damage_taken();
    &&& g.full_damage
    &&& !taken.full_damage
    &&& taken.damage_taken() == taken
    &&& taken.lines() == g.lines()
    &&& taken.history == g.history
    &&& taken.display_offset == g.display_offset
}

/// Whatever moves or replaces lines of the whole screen has the screen drawn again, once.
pub proof fn moved_lines_are_drawn_again(
    g: GridView,
    top: int,
    bottom: int,
    n: int,
    delta: int,
    cols: int,
    rows: int,
    pen: Pen,
)
    requires
        g.wf(),
        0 <= top <= bottom < g.rows,
        n >= 1,
        cols >= 1,
        rows >= 1,
    ensures
        drawn_once(g.scroll_up(top, bottom, n, pen)),
        drawn_once(g.scroll_down(top, bottom, n, pen)),
        g.moved_offset(delta) != g.display_offset ==> drawn_once(g.scroll_display(delta)),
        drawn_once(g.clear_all(pen)),
        drawn_once(g.clear_history()),
        drawn_once(g.damage_all()),
        cols != g.cols || rows != g.rows ==> drawn_once(g.resized(cols, rows, pen)),
        cols != g.cols || rows != g.rows ==> drawn_once(g.reflowed(cols, rows)),
{
    reveal(GridView::resized);
    reveal(GridView::reflowed);
    lemma_taking_keeps_lines(g.scroll_up(top, bottom, n, pen));
    lemma_taking_keeps_lines(g.scroll_down(top, bottom, n, pen));
    lemma_taking_keeps_lines(g.scroll_display(delta));
    lemma_taking_keeps_lines(g.clear_all(pen));
    lemma_taking_keeps_lines(g.clear_history());
    lemma_taking_keeps_lines(g.damage_all());
    lemma_taking_keeps_lines(g.resized(cols, rows, pen));
    lemma_taking_keeps_lines(g.reflowed(cols, rows));
}

proof fn lemma_taking_keeps_lines(g: GridView)
    ensures
        g.damage_taken().lines() == g.lines(),
{
    assert(g.damage_taken().lines() =~= g.lines());
}

/// Making lines wider and narrower again gives them back.
pub proof fn widening_and_narrowing_keeps_a_row(r: RowView, cols: int, pen: Pen, pen2: Pen)
    requires
        cols >= r.cells.len(),
    ensures
        resized_row(resized_row(r, cols, pen), r.cells.len() as int, pen2).cells == r.cells,
{
    assert(resized_row(resized_row(r, cols, pen), r.cells.len() as int, pen2).cells =~= r.cells);
}

} // verus!
