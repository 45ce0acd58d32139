//! What holds of re-wrapping as a whole.

use vstd::prelude::*;

use super::cell::{Cell, CellFlags};
use super::grid::{
    empty_row, lemma_split_widths, max_cols, max_lines, padded_row, GridView, RowView,
};
use super::reflow::{
    finished_lines, is_padding, joined, logical_lines, open_line, row_take, split_all,
    split_position, split_rows, unpadded,
};

verus! {

/// `n` empty lines.
pub open spec fn empty_lines(n: int) -> Seq<Seq<Cell>> {
    Seq::new(
        if n > 0 {
            n as nat
        } else {
            0
        },
        |i: int| Seq::<Cell>::empty(),
    )
}

/// Empty cells at the end are padding.
proof fn lemma_padding_goes(cells: Seq<Cell>, n: nat)
    ensures
        unpadded(cells + Seq::new(n, |i: int| Cell::empty())) == unpadded(cells),
    decreases n,
{
    let padded = cells + Seq::new(n, |i: int| Cell::empty());
    if n == 0 {
        assert(padded =~= cells);
    } else {
        lemma_padding_goes(cells, (n - 1) as nat);
        assert(padded.drop_last() =~= cells + Seq::new((n - 1) as nat, |i: int| Cell::empty()));
        assert(0u16 & 0x4000u16 != 0x4000u16) by (bit_vector);
        assert(is_padding(padded.last()));
    }
}

/// Dropping padding twice is dropping it once.
proof fn lemma_unpadded_once(cells: Seq<Cell>)
    ensures
        unpadded(unpadded(cells)) == unpadded(cells),
    decreases cells.len(),
{
    if cells.len() > 0 && is_padding(cells.last()) {
        lemma_unpadded_once(cells.drop_last());
    }
}

/// Dropping padding leaves the start of a line as it is.
proof fn lemma_unpadded_prefix(cells: Seq<Cell>)
    ensures
        unpadded(cells).len() <= cells.len(),
        unpadded(cells) == cells.take(unpadded(cells).len() as int),
    decreases cells.len(),
{
    if cells.len() > 0 && is_padding(cells.last()) {
        lemma_unpadded_prefix(cells.drop_last());
        assert(unpadded(cells) =~= cells.take(unpadded(cells).len() as int));
    } else {
        assert(cells =~= cells.take(cells.len() as int));
    }
}

/// No finished line ends in padding.
proof fn lemma_finished_unpadded(rows: Seq<RowView>)
    ensures
        forall|i: int|
            0 <= i < finished_lines(rows).len() ==> unpadded(#[trigger] finished_lines(rows)[i])
                == finished_lines(rows)[i],
    decreases rows.len(),
{
    if rows.len() > 0 {
        let before = rows.drop_last();
        lemma_finished_unpadded(before);
        lemma_unpadded_once(open_line(before) + joined(rows.last()));
        assert forall|i: int| 0 <= i < finished_lines(rows).len() implies unpadded(
            #[trigger] finished_lines(rows)[i],
        ) == finished_lines(rows)[i] by {
            if i < finished_lines(before).len() {
                assert(finished_lines(rows)[i] == finished_lines(before)[i]);
            }
        }
    }
}

/// No logical line ends in padding.
proof fn lemma_logical_unpadded(rows: Seq<RowView>)
    ensures
        forall|i: int|
            0 <= i < logical_lines(rows).len() ==> unpadded(#[trigger] logical_lines(rows)[i])
                == logical_lines(rows)[i],
        logical_lines(rows).len() > 0,
{
    lemma_finished_unpadded(rows);
    lemma_unpadded_once(open_line(rows));
}

/// Joining the rows of a split line, after other rows.
proof fn lemma_join_split(before: Seq<RowView>, cells: Seq<Cell>, pos: int, cols: int)
    requires
        cols >= 1,
        0 <= pos <= cells.len(),
    ensures
        open_line(before + split_rows(cells, pos, cols)) == Seq::<Cell>::empty(),
        finished_lines(before + split_rows(cells, pos, cols)) == finished_lines(before).push(
            unpadded(open_line(before) + cells.skip(pos)),
        ),
    decreases cells.len() - pos,
{
    let take = row_take(cells, pos, cols);
    let more = pos + take < cells.len();
    let part = cells.subrange(pos, pos + take);
    let first = padded_row(part, cols, more);
    let rows = split_rows(cells, pos, cols);
    let one = before.push(first);
    assert(one.drop_last() =~= before);
    if more {
        // A row that is short of a cell has a gap there, and joining leaves it out.
        assert(joined(first) =~= part);
        lemma_join_split(one, cells, pos + take, cols);
        assert(before + rows =~= one + split_rows(cells, pos + take, cols));
        assert(open_line(one) == open_line(before) + part);
        assert(open_line(one) + cells.skip(pos + take) =~= open_line(before) + cells.skip(pos));
    } else {
        assert(before + rows =~= one);
        let rest = (cols - part.len()) as nat;
        assert(part =~= cells.skip(pos));
        assert(first.cells =~= part + Seq::new(rest, |i: int| Cell::empty()));
        assert(open_line(before) + first.cells =~= (open_line(before) + cells.skip(pos)) + Seq::new(
            rest,
            |i: int| Cell::empty(),
        ));
        lemma_padding_goes(open_line(before) + cells.skip(pos), rest);
    }
}

/// Joining the rows of split lines gives the lines.
proof fn lemma_join_split_all(logical: Seq<Seq<Cell>>, cols: int)
    requires
        cols >= 1,
        forall|i: int| 0 <= i < logical.len() ==> unpadded(#[trigger] logical[i]) == logical[i],
    ensures
        open_line(split_all(logical, cols)) == Seq::<Cell>::empty(),
        finished_lines(split_all(logical, cols)) == logical,
    decreases logical.len(),
{
    if logical.len() == 0 {
        assert(finished_lines(split_all(logical, cols)) =~= logical);
    } else {
        let before = logical.drop_last();
        assert forall|i: int| 0 <= i < before.len() implies unpadded(#[trigger] before[i])
            == before[i] by {
            assert(before[i] == logical[i]);
        }
        lemma_join_split_all(before, cols);
        let cells = logical.last();
        lemma_join_split(split_all(before, cols), cells, 0, cols);
        assert(Seq::<Cell>::empty() + cells.skip(0) =~= cells);
        assert(unpadded(cells) == cells);
        assert(before.push(cells) =~= logical);
    }
}

/// Empty rows after finished lines are empty lines.
proof fn lemma_empty_rows(rows: Seq<RowView>, cols: int, n: nat)
    requires
        cols >= 1,
        open_line(rows) == Seq::<Cell>::empty(),
    ensures
        ({
            let all = rows + Seq::new(n, |i: int| empty_row(cols));
            &&& open_line(all) == Seq::<Cell>::empty()
            &&& finished_lines(all) == finished_lines(rows) + empty_lines(n as int)
        }),
    decreases n,
{
    let all = rows + Seq::new(n, |i: int| empty_row(cols));
    if n == 0 {
        assert(all =~= rows);
        assert(finished_lines(rows) + empty_lines(0) =~= finished_lines(rows));
    } else {
        let before = rows + Seq::new((n - 1) as nat, |i: int| empty_row(cols));
        lemma_empty_rows(rows, cols, (n - 1) as nat);
        assert(all.drop_last() =~= before);
        assert(all.last() == empty_row(cols));
        let blank = empty_row(cols).cells;
        assert(open_line(before) + blank =~= Seq::<Cell>::empty() + Seq::new(
            cols as nat,
            |i: int| Cell::empty(),
        ));
        lemma_padding_goes(Seq::<Cell>::empty(), cols as nat);
        assert(finished_lines(all) =~= finished_lines(rows) + empty_lines(n as int));
    }
}

/// A grid rebuilt from lines that all fit holds them, and empty lines below them where there are
/// too few for a screen.
proof fn lemma_rebuilt_lines(g: GridView, lines: Seq<RowView>, cols: int, rows: int)
    requires
        rows >= 1,
        g.max_scrollback >= 0,
        lines.len() <= rows + g.max_scrollback,
    ensures
        g.rebuilt(lines, cols, rows).lines() == lines + Seq::new(
            if rows > lines.len() {
                (rows - lines.len()) as nat
            } else {
                0
            },
            |i: int| empty_row(cols),
        ),
{
    assert(g.rebuilt(lines, cols, rows).lines() =~= lines + Seq::new(
        if rows > lines.len() {
            (rows - lines.len()) as nat
        } else {
            0
        },
        |i: int| empty_row(cols),
    ));
}

/// Reflow loses nothing: re-wrapped at another width, the logical lines are the same, followed by
/// empty ones where the new screen is taller than they are. This holds as long as the lines fit
/// within the scrollback limit.
pub proof fn reflow_keeps_the_text(g: GridView, cols: int, rows: int)
    requires
        g.wf(),
        cols >= 1,
        rows >= 1,
        cols != g.cols || rows != g.rows,
        split_all(logical_lines(g.lines()), cols).len() <= rows + g.max_scrollback,
    ensures
        ({
            let text = logical_lines(g.lines());
            logical_lines(g.reflowed(cols, rows).lines()) == text + empty_lines(
                rows - split_all(text, cols).len(),
            )
        }),
{
    reveal(GridView::reflowed);
    let text = logical_lines(g.lines());
    let lines = split_all(text, cols);
    lemma_logical_unpadded(g.lines());
    lemma_join_split_all(text, cols);
    lemma_rebuilt_lines(g, lines, cols, rows);
    let n: nat = if rows > lines.len() {
        (rows - lines.len()) as nat
    } else {
        0
    };
    lemma_empty_rows(lines, cols, n);
    let all = lines + Seq::new(n, |i: int| empty_row(cols));
    assert(text + empty_lines(n as int) =~= text + empty_lines(rows - lines.len()));
    assert(finished_lines(all).len() > 0);
}

/// Do the lines of `back` begin with those of `text`, with nothing but empty lines after them?
pub open spec fn same_text(text: Seq<Seq<Cell>>, back: Seq<Seq<Cell>>) -> bool {
    &&& back.len() >= text.len()
    &&& back.take(text.len() as int) == text
    &&& forall|i: int| text.len() <= i < back.len() ==> #[trigger] back[i] == Seq::<Cell>::empty()
}

/// Narrowing and widening again gives the text back, with empty lines below it, as long as the
/// narrowed lines fit within the scrollback limit.
pub proof fn reflow_round_trips(g: GridView, cols: int, rows: int)
    requires
        g.wf(),
        1 <= cols < g.cols,
        1 <= rows <= g.rows,
        split_all(logical_lines(g.lines()), cols).len() <= rows + g.max_scrollback,
    ensures
        same_text(
            logical_lines(g.lines()),
            logical_lines(g.reflowed(cols, rows).reflowed(g.cols, g.rows).lines()),
        ),
{
    let text = logical_lines(g.lines());
    let added = empty_lines(rows - split_all(text, cols).len());
    lemma_fewer_rows(text, cols, g.cols);
    lemma_empty_lines_split(text, g.cols, added.len());
    assert(text + added =~= text + empty_lines(added.len() as int));
    any_reflow_round_trips(g, cols, rows);
}

/// Any reflow and one back to the old size give the text back, with empty lines below it, as long
/// as both times the lines fit within the scrollback limit. The second time those count that the
/// first added to fill the screen.
pub proof fn any_reflow_round_trips(g: GridView, cols: int, rows: int)
    requires
        g.wf(),
        1 <= cols <= max_cols(),
        1 <= rows,
        cols != g.cols || rows != g.rows,
        rows + g.max_scrollback <= max_lines(),
        split_all(logical_lines(g.lines()), cols).len() <= rows + g.max_scrollback,
        ({
            let text = logical_lines(g.lines());
            split_all(
                text + empty_lines(rows - split_all(text, cols).len()),
                g.cols,
            ).len() <= g.cap()
        }),
    ensures
        same_text(
            logical_lines(g.lines()),
            logical_lines(g.reflowed(cols, rows).reflowed(g.cols, g.rows).lines()),
        ),
{
    let text = logical_lines(g.lines());
    let mid = g.reflowed(cols, rows);
    reflow_keeps_the_text(g, cols, rows);
    reveal(GridView::reflowed);
    lemma_split_all_widths(text, cols);
    let added = empty_lines(rows - split_all(text, cols).len());
    reflow_keeps_the_text(mid, g.cols, g.rows);
    let more = empty_lines(g.rows - split_all(text + added, g.cols).len());
    let back = logical_lines(mid.reflowed(g.cols, g.rows).lines());
    assert(back == (text + added) + more);
    assert(back.take(text.len() as int) =~= text);
}

/// A line takes no more rows where they are wider, also if it is further along there.
proof fn lemma_line_takes_fewer_rows(cells: Seq<Cell>, pos: int, cols: int, at: int, wide: int)
    requires
        1 <= cols < wide,
        0 <= pos <= at <= cells.len(),
    ensures
        split_rows(cells, at, wide).len() <= split_rows(cells, pos, cols).len(),
    decreases cells.len() - pos,
{
    let take = row_take(cells, pos, cols);
    let more = row_take(cells, at, wide);
    if at + more < cells.len() {
        lemma_line_takes_fewer_rows(cells, pos + take, cols, at + more, wide);
    }
}

/// Lines take no more rows where they are wider.
proof fn lemma_fewer_rows(logical: Seq<Seq<Cell>>, cols: int, wide: int)
    requires
        1 <= cols < wide,
    ensures
        split_all(logical, wide).len() <= split_all(logical, cols).len(),
    decreases logical.len(),
{
    if logical.len() > 0 {
        lemma_fewer_rows(logical.drop_last(), cols, wide);
        lemma_line_takes_fewer_rows(logical.last(), 0, cols, 0, wide);
    }
}

/// Every empty line takes one row.
proof fn lemma_empty_lines_split(logical: Seq<Seq<Cell>>, cols: int, n: nat)
    requires
        cols >= 1,
    ensures
        split_all(logical + empty_lines(n as int), cols).len() == split_all(logical, cols).len()
            + n,
    decreases n,
{
    let all = logical + empty_lines(n as int);
    if n == 0 {
        assert(all =~= logical);
    } else {
        lemma_empty_lines_split(logical, cols, (n - 1) as nat);
        assert(all.drop_last() =~= logical + empty_lines(n - 1));
        assert(split_rows(all.last(), 0, cols).len() == 1);
    }
}

/// Every row of split lines is as wide as the screen.
proof fn lemma_split_all_widths(logical: Seq<Seq<Cell>>, cols: int)
    requires
        cols >= 0,
    ensures
        forall|i: int|
            0 <= i < split_all(logical, cols).len() ==> (#[trigger] split_all(
                logical,
                cols,
            )[i]).cells.len() == cols,
    decreases logical.len(),
{
    if logical.len() > 0 {
        let before = split_all(logical.drop_last(), cols);
        let tail = split_rows(logical.last(), 0, cols);
        lemma_split_all_widths(logical.drop_last(), cols);
        lemma_split_widths(logical.last(), 0, cols);
        assert forall|i: int| 0 <= i < split_all(logical, cols).len() implies (
        #[trigger] split_all(logical, cols)[i]).cells.len() == cols by {
            if i < before.len() {
                assert(split_all(logical, cols)[i] == before[i]);
            } else {
                assert(split_all(logical, cols)[i] == tail[i - before.len()]);
            }
        }
    }
}

/// The rows of a split line never end in the first half of a double-width character that continues
/// in the next row, unless the screen has a single column.
pub proof fn rows_do_not_end_in_half_a_character(cells: Seq<Cell>, pos: int, cols: int, i: int)
    requires
        cols >= 2,
        0 <= pos <= cells.len(),
        0 <= i < split_rows(cells, pos, cols).len(),
        split_rows(cells, pos, cols)[i].wrapped,
    ensures
        !split_rows(cells, pos, cols)[i].cells[cols - 1].flags.contains(CellFlags::WIDE),
    decreases cells.len() - pos,
{
    let take = row_take(cells, pos, cols);
    let rows = split_rows(cells, pos, cols);
    assert(0u16 & 0x2000u16 != 0x2000u16) by (bit_vector);
    if pos + take < cells.len() && take > 0 {
        if i > 0 {
            assert(rows[i] == split_rows(cells, pos + take, cols)[i - 1]);
            rows_do_not_end_in_half_a_character(cells, pos + take, cols, i - 1);
        }
    }
}

/// Is every first half of a double-width character followed by its second half?
pub open spec fn halves_follow(cells: Seq<Cell>) -> bool {
    forall|k: int|
        0 <= k < cells.len() && (#[trigger] cells[k]).flags.contains(CellFlags::WIDE) ==> k + 1
            < cells.len() && cells[k + 1].flags.contains(CellFlags::WIDE_SPACER) && !cells[k
            + 1].flags.contains(CellFlags::WIDE)
}

/// In each row that a line is split into, both halves of a double-width character stand together.
proof fn lemma_halves_stay_together(cells: Seq<Cell>, pos: int, cols: int, i: int, x: int)
    requires
        cols >= 2,
        0 <= pos <= cells.len(),
        halves_follow(cells),
        0 <= i < split_rows(cells, pos, cols).len(),
        0 <= x < cols,
        split_rows(cells, pos, cols)[i].cells[x].flags.contains(CellFlags::WIDE),
    ensures
        x + 1 < cols,
        split_rows(cells, pos, cols)[i].cells[x + 1].flags.contains(CellFlags::WIDE_SPACER),
    decreases cells.len() - pos,
{
    let take = row_take(cells, pos, cols);
    let rows = split_rows(cells, pos, cols);
    assert(0u16 & 0x2000u16 != 0x2000u16) by (bit_vector);
    if i == 0 {
        let part = cells.subrange(pos, pos + take);
        assert(rows[0] == padded_row(part, cols, pos + take < cells.len()));
        assert(x < take);
        assert(part[x] == cells[pos + x]);
        let next = cells[pos + x + 1];
        assert(next.flags.contains(CellFlags::WIDE_SPACER));
        assert(x + 1 < take);
        assert(part[x + 1] == next);
    } else {
        assert(rows[i] == split_rows(cells, pos + take, cols)[i - 1]);
        lemma_halves_stay_together(cells, pos + take, cols, i - 1, x);
    }
}

/// The same of all lines together.
proof fn lemma_all_halves_stay_together(logical: Seq<Seq<Cell>>, cols: int, i: int, x: int)
    requires
        cols >= 2,
        forall|k: int| 0 <= k < logical.len() ==> halves_follow(#[trigger] logical[k]),
        0 <= i < split_all(logical, cols).len(),
        0 <= x < cols,
        split_all(logical, cols)[i].cells[x].flags.contains(CellFlags::WIDE),
    ensures
        x + 1 < cols,
        split_all(logical, cols)[i].cells[x + 1].flags.contains(CellFlags::WIDE_SPACER),
    decreases logical.len(),
{
    let before = logical.drop_last();
    let above = split_all(before, cols);
    if i < above.len() {
        assert forall|k: int| 0 <= k < before.len() implies halves_follow(#[trigger] before[k]) by {
            assert(before[k] == logical[k]);
        }
        assert(split_all(logical, cols)[i] == above[i]);
        lemma_all_halves_stay_together(before, cols, i, x);
    } else {
        let j = i - above.len();
        assert(split_all(logical, cols)[i] == split_rows(logical.last(), 0, cols)[j]);
        lemma_halves_stay_together(logical.last(), 0, cols, j, x);
    }
}

/// A double-width character is never split across the margin: wherever a reflow leaves the first
/// half of one, on the screen or in scrollback, the second half stands next to it in the same line.
/// This holds on two columns or more, of lines in which every first half is followed by a second.
pub proof fn wide_characters_are_not_split(g: GridView, cols: int, rows: int, i: int, x: int)
    requires
        g.wf(),
        cols >= 2,
        rows >= 1,
        cols != g.cols || rows != g.rows,
        forall|k: int|
            0 <= k < logical_lines(g.lines()).len() ==> halves_follow(
                #[trigger] logical_lines(g.lines())[k],
            ),
        0 <= i < g.reflowed(cols, rows).total(),
        0 <= x < cols,
        g.reflowed(cols, rows).line(i).cells[x].flags.contains(CellFlags::WIDE),
    ensures
        x + 1 < cols,
        g.reflowed(cols, rows).line(i).cells[x + 1].flags.contains(CellFlags::WIDE_SPACER),
{
    reveal(GridView::reflowed);
    let text = logical_lines(g.lines());
    let lines = split_all(text, cols);
    let cap = rows + g.max_scrollback;
    let gone: int = if lines.len() > cap {
        lines.len() - cap
    } else {
        0
    };
    let here = g.reflowed(cols, rows).line(i);
    assert(0u16 & 0x2000u16 != 0x2000u16) by (bit_vector);
    if gone + i < lines.len() {
        assert(here == lines[gone + i]);
        lemma_all_halves_stay_together(text, cols, gone + i, x);
    } else {
        assert(here == empty_row(cols));
    }
}

/// Where an offset of a line lands, the cell of that offset is.
proof fn lemma_position_holds_cell(cells: Seq<Cell>, pos: int, cols: int, off: int)
    requires
        cols >= 1,
        0 <= pos <= off < cells.len(),
    ensures
        ({
            let (x, y) = split_position(cells, pos, cols, off);
            &&& 0 <= y < split_rows(cells, pos, cols).len()
            &&& split_rows(cells, pos, cols)[y].cells[x] == cells[off]
        }),
    decreases cells.len() - pos,
{
    let take = row_take(cells, pos, cols);
    if off < pos + take || pos + take >= cells.len() {
        assert(split_rows(cells, pos, cols)[0] == padded_row(
            cells.subrange(pos, pos + take),
            cols,
            pos + take < cells.len(),
        ));
    } else {
        lemma_position_holds_cell(cells, pos + take, cols, off);
        let (x, y) = split_position(cells, pos + take, cols, off);
        assert(split_rows(cells, pos, cols)[y + 1] == split_rows(cells, pos + take, cols)[y]);
    }
}

/// The rows of one line stand after the rows of the lines before it.
proof fn lemma_rows_of_line(logical: Seq<Seq<Cell>>, cols: int, line: int, y: int)
    requires
        0 <= line < logical.len(),
        0 <= y < split_rows(logical[line], 0, cols).len(),
    ensures
        ({
            let above = split_all(logical.take(line), cols).len();
            &&& above + y < split_all(logical, cols).len()
            &&& split_all(logical, cols)[above + y] == split_rows(logical[line], 0, cols)[y]
        }),
    decreases logical.len(),
{
    let before = logical.drop_last();
    let above = split_all(logical.take(line), cols).len();
    if line == logical.len() - 1 {
        assert(logical.take(line) =~= before);
    } else {
        lemma_rows_of_line(before, cols, line, y);
        assert(before.take(line) =~= logical.take(line));
        assert(split_all(logical, cols)[above + y] == split_all(before, cols)[above + y]);
    }
}

/// Row `i` of `rows` lies in the logical line that the rows before it leave open.
proof fn lemma_row_in_line(rows: Seq<RowView>, i: int, n: int)
    requires
        0 <= i < n <= rows.len(),
    ensures
        ({
            let p = finished_lines(rows.take(i)).len();
            let start = open_line(rows.take(i)) + joined(rows[i]);
            let done = finished_lines(rows.take(n));
            &&& done.len() >= p
            &&& done.len() == p ==> open_line(rows.take(n)).len() >= start.len() && open_line(
                rows.take(n),
            ).take(start.len() as int) == start && rows.take(n).last().wrapped
            &&& done.len() > p ==> forall|k: int|
                0 <= k < start.len() && k < done[p as int].len() ==> #[trigger] done[p as int][k]
                    == start[k]
        }),
    decreases n,
{
    let p = finished_lines(rows.take(i)).len() as int;
    let start = open_line(rows.take(i)) + joined(rows[i]);
    let here = rows.take(n);
    let before = rows.take(n - 1);
    assert(here.drop_last() =~= before);
    assert(here.last() == rows[n - 1]);
    if n == i + 1 {
        assert(before =~= rows.take(i));
        assert(start.take(start.len() as int) =~= start);
        lemma_unpadded_prefix(start);
    } else {
        lemma_row_in_line(rows, i, n - 1);
        let open = open_line(before);
        let whole = open + joined(rows[n - 1]);
        if finished_lines(before).len() == p {
            assert(whole.take(start.len() as int) =~= start) by {
                assert(open.take(start.len() as int) == start);
                assert forall|k: int| 0 <= k < start.len() implies whole[k] == start[k] by {
                    assert(open.take(start.len() as int)[k] == open[k]);
                }
            }
            lemma_unpadded_prefix(whole);
            assert forall|k: int|
                0 <= k < start.len() && k < unpadded(whole).len() implies #[trigger] unpadded(
                whole,
            )[k] == start[k] by {
                assert(unpadded(whole)[k] == whole[k]);
                assert(whole.take(start.len() as int)[k] == whole[k]);
            }
        }
    }
}

/// A cell of row `i` is the cell of the logical line at the offset that the row has in it.
proof fn lemma_cell_in_line(rows: Seq<RowView>, i: int, x: int)
    requires
        0 <= i < rows.len(),
        0 <= x < joined(rows[i]).len(),
    ensures
        ({
            let p = finished_lines(rows.take(i)).len() as int;
            let off = open_line(rows.take(i)).len() + x;
            let text = logical_lines(rows);
            &&& p < text.len()
            &&& off < text[p].len() ==> text[p][off] == rows[i].cells[x]
        }),
{
    let p = finished_lines(rows.take(i)).len() as int;
    let start = open_line(rows.take(i)) + joined(rows[i]);
    let off = open_line(rows.take(i)).len() + x;
    lemma_row_in_line(rows, i, rows.len() as int);
    assert(rows.take(rows.len() as int) =~= rows);
    let rest = open_line(rows);
    lemma_unpadded_prefix(rest);
    assert(start[off as int] == rows[i].cells[x]);
    if finished_lines(rows).len() == p {
        assert(rest.take(start.len() as int)[off as int] == rest[off as int]);
    }
}

/// The cursor follows its character: after a reflow, the cell under the new position is the cell
/// that was under the old one. This holds for a position on the text of its line, which a gap is
/// no part of, as long as the text is on the new screen.
pub proof fn cursor_follows_its_character(g: GridView, x: int, y: int, cols: int, rows: int)
    requires
        g.wf(),
        cols >= 1,
        rows >= 1,
        cols != g.cols || rows != g.rows,
        0 <= y < g.rows,
        0 <= x < joined(g.live(y)).len(),
        ({
            let text = logical_lines(g.lines());
            let (line, off) = g.logical_position(x, y);
            let above = split_all(text.take(line), cols).len();
            &&& off < text[line].len()
            &&& above + split_position(text[line], 0, cols, off).1 >= split_all(text, cols).len()
                - rows
        }),
    ensures
        ({
            let (x1, y1) = g.reflowed_position(x, y, cols, rows);
            g.reflowed(cols, rows).live(y1).cells[x1] == g.live(y).cells[x]
        }),
{
    reveal(GridView::reflowed);
    reveal(GridView::reflowed_position);
    let rows_now = g.lines();
    let i = g.history + y;
    let text = logical_lines(rows_now);
    let (line, off) = g.logical_position(x, y);
    assert(rows_now[i] == g.live(y));
    lemma_cell_in_line(rows_now, i, x);
    lemma_position_holds_cell(text[line], 0, cols, off);
    let (col, row) = split_position(text[line], 0, cols, off);
    lemma_rows_of_line(text, cols, line, row);
}

/// Rows that all continue into the next are one open line, whichever end it is read from.
proof fn lemma_open_from_the_front(first: RowView, rest: Seq<RowView>)
    requires
        first.wrapped,
        forall|k: int| 0 <= k < rest.len() ==> (#[trigger] rest[k]).wrapped,
    ensures
        open_line(seq![first] + rest) == joined(first) + open_line(rest),
    decreases rest.len(),
{
    let all = seq![first] + rest;
    if rest.len() == 0 {
        assert(all.drop_last() =~= Seq::<RowView>::empty());
        assert(open_line(all.drop_last()) =~= Seq::<Cell>::empty());
        assert(open_line(all) =~= joined(first) + open_line(rest));
    } else {
        assert(all.drop_last() =~= seq![first] + rest.drop_last());
        assert(all.last() == rest.last());
        assert(rest.last() == rest[rest.len() - 1]);
        lemma_open_from_the_front(first, rest.drop_last());
        assert(open_line(all) =~= joined(first) + open_line(rest));
    }
}

/// All rows of a split line but its last continue into the next; the last holds what is left of the
/// line.
proof fn lemma_last_row(cells: Seq<Cell>, pos: int, cols: int, off: int)
    requires
        cols >= 1,
        0 <= pos <= cells.len(),
        off >= cells.len(),
    ensures
        ({
            let rows = split_rows(cells, pos, cols);
            let m = rows.len() - 1;
            let start = pos + open_line(rows.take(m)).len();
            let (x, y) = split_position(cells, pos, cols, off);
            &&& rows.len() > 0
            &&& forall|k: int| 0 <= k < m ==> (#[trigger] rows[k]).wrapped
            &&& !rows[m].wrapped
            &&& pos <= start <= cells.len()
            &&& cells.len() - start <= cols
            &&& forall|k: int|
                0 <= k < cells.len() - start ==> #[trigger] rows[m].cells[k] == cells[start + k]
            &&& y == m
            &&& x == (if off - start < cols {
                off - start
            } else {
                cols - 1
            })
        }),
    decreases cells.len() - pos,
{
    let take = row_take(cells, pos, cols);
    let more = pos + take < cells.len();
    let part = cells.subrange(pos, pos + take);
    let first = padded_row(part, cols, more);
    let rows = split_rows(cells, pos, cols);
    let m = rows.len() - 1;
    if more {
        let rest = split_rows(cells, pos + take, cols);
        lemma_last_row(cells, pos + take, cols, off);
        assert(rows =~= seq![first] + rest);
        let before = rest.take(rest.len() - 1);
        assert(rows.take(m) =~= seq![first] + before);
        assert forall|k: int| 0 <= k < before.len() implies (#[trigger] before[k]).wrapped by {
            assert(before[k] == rest[k]);
        }
        lemma_open_from_the_front(first, before);
        assert(joined(first) =~= part);
        assert forall|k: int| 0 <= k < m implies (#[trigger] rows[k]).wrapped by {
            if k > 0 {
                assert(rows[k] == rest[k - 1]);
            }
        }
        assert(rows[m] == rest[rest.len() - 1]);
    } else {
        assert(rows =~= seq![first]);
        assert(rows.take(0) =~= Seq::<RowView>::empty());
        assert(open_line(rows.take(m)).len() == 0);
    }
}

/// The cursor stays behind the text that it is behind: after a reflow it is in the last row of its
/// line, as far from the last character as it was, or in the last column where that is too far. This
/// holds as long as that row is on the new screen.
pub proof fn cursor_stays_behind_its_text(g: GridView, x: int, y: int, cols: int, rows: int)
    requires
        g.wf(),
        cols >= 1,
        rows >= 1,
        cols != g.cols || rows != g.rows,
        0 <= x,
        0 <= y < g.rows,
        ({
            let text = logical_lines(g.lines());
            let (line, off) = g.logical_position(x, y);
            &&& off >= text[line].len()
            &&& split_all(text.take(line + 1), cols).len() > split_all(text, cols).len() - rows
            &&& split_all(text, cols).len() <= rows + g.max_scrollback
        }),
    ensures
        ({
            let text = logical_lines(g.lines());
            let (line, off) = g.logical_position(x, y);
            let beyond = off - text[line].len();
            let (x1, y1) = g.reflowed_position(x, y, cols, rows);
            let after = g.reflowed(cols, rows);
            let own = split_rows(text[line], 0, cols);
            // How much of the line its last row holds.
            let held = text[line].len() - open_line(own.drop_last()).len();
            &&& 0 <= held <= cols
            &&& after.live(y1) == own.last()
            &&& x1 == (if held + beyond < cols {
                held + beyond
            } else {
                cols - 1
            })
            &&& held > 0 && held + beyond < cols ==> after.live(y1).cells[x1 - beyond - 1]
                == text[line].last()
            &&& !after.live(y1).wrapped
        }),
{
    reveal(GridView::reflowed);
    reveal(GridView::reflowed_position);
    let text = logical_lines(g.lines());
    let (line, off) = g.logical_position(x, y);
    let own = split_rows(text[line], 0, cols);
    let rows_now = g.lines();
    let i = g.history + y;
    lemma_row_in_line(rows_now, i, rows_now.len() as int);
    assert(rows_now.take(rows_now.len() as int) =~= rows_now);
    lemma_line_there(rows_now, i);
    lemma_last_row(text[line], 0, cols, off);
    assert(own.drop_last() =~= own.take(own.len() - 1));
    lemma_rows_of_line(text, cols, line, own.len() - 1);
    assert(text.take(line + 1).drop_last() =~= text.take(line));
    assert(text.take(line + 1).last() == text[line]);
}

/// A row of the grid lies in one of its logical lines.
proof fn lemma_line_there(rows: Seq<RowView>, i: int)
    requires
        0 <= i < rows.len(),
        rows[i].cells.len() > 0,
    ensures
        finished_lines(rows.take(i)).len() < logical_lines(rows).len(),
{
    let start = open_line(rows.take(i)) + joined(rows[i]);
    lemma_row_in_line(rows, i, rows.len() as int);
    assert(rows.take(rows.len() as int) =~= rows);
    assert(start.len() > 0);
}

} // verus!
