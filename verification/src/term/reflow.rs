//! Re-wrapping: physical rows joined by autowrap become the logical line that was printed, and a
//! logical line is cut again at another width.

use vstd::prelude::*;

use super::cell::{Cell, CellFlags};
use super::grid::{padded_row, row_views, Row, RowView};

verus! {

/// Is this cell padding at the end of a line? The filler half of a double-width character is empty
/// too, but it is structure: it belongs to the character before it.
pub open spec fn is_padding(c: Cell) -> bool {
    c.ch == 0 && !c.flags.contains(CellFlags::WIDE_SPACER)
}

/// `cells` without its trailing padding.
pub open spec fn unpadded(cells: Seq<Cell>) -> Seq<Cell>
    decreases cells.len(),
{
    if cells.len() > 0 && is_padding(cells.last()) {
        unpadded(cells.drop_last())
    } else {
        cells
    }
}

/// The cells of a row that belong to the text: all of them but the gap that a double-width
/// character left when it did not fit in the last column. (On a one-column screen no such character
/// fits anywhere, and there are no gaps.)
pub open spec fn joined(r: RowView) -> Seq<Cell> {
    if r.wrapped && r.gap && r.cells.len() > 1 {
        r.cells.drop_last()
    } else {
        r.cells
    }
}

/// The cells of the logical line that `rows` leaves unfinished, because its last rows all continue
/// into a next one.
pub open spec fn open_line(rows: Seq<RowView>) -> Seq<Cell>
    decreases rows.len(),
{
    if rows.len() > 0 && rows.last().wrapped {
        open_line(rows.drop_last()) + joined(rows.last())
    } else {
        Seq::empty()
    }
}

/// The logical lines that `rows` completes, in order.
pub open spec fn finished_lines(rows: Seq<RowView>) -> Seq<Seq<Cell>>
    decreases rows.len(),
{
    if rows.len() == 0 {
        Seq::empty()
    } else {
        let before = rows.drop_last();
        if rows.last().wrapped {
            finished_lines(before)
        } else {
            finished_lines(before).push(unpadded(open_line(before) + joined(rows.last())))
        }
    }
}

/// Every logical line of `rows`, in order. There is always at least one.
pub open spec fn logical_lines(rows: Seq<RowView>) -> Seq<Seq<Cell>> {
    let done = finished_lines(rows);
    let rest = open_line(rows);
    if rest.len() > 0 || done.len() == 0 {
        done.push(unpadded(rest))
    } else {
        done
    }
}

/// How many cells of a logical line go on the row that starts at `pos`: a full row, unless the
/// line ends before, or the last column would take the first half of a double-width character that
/// the line goes on after. Such a character starts the next row instead, and leaves a gap. (A
/// one-column screen can never hold both halves, and takes one cell a row.)
pub open spec fn row_take(cells: Seq<Cell>, pos: int, cols: int) -> int {
    if cells.len() - pos <= cols {
        cells.len() - pos
    } else if cols > 1 && cells[pos + cols - 1].flags.contains(CellFlags::WIDE) {
        cols - 1
    } else {
        cols
    }
}

/// The rows that hold a logical line from `pos` on: all but the last continue into the next one.
/// An empty line still takes a row.
pub open spec fn split_rows(cells: Seq<Cell>, pos: int, cols: int) -> Seq<RowView>
    decreases cells.len() - pos,
{
    let take = row_take(cells, pos, cols);
    let more = pos + take < cells.len();
    let first = padded_row(cells.subrange(pos, pos + take), cols, more);
    if more && take > 0 {
        seq![first] + split_rows(cells, pos + take, cols)
    } else {
        seq![first]
    }
}

/// Where offset `off` of a logical line lands: the column, and the row counted from the row that
/// starts at `pos`. An offset past the end lands on the last row.
pub open spec fn split_position(cells: Seq<Cell>, pos: int, cols: int, off: int) -> (int, int)
    decreases cells.len() - pos,
{
    let take = row_take(cells, pos, cols);
    if off < pos + take || pos + take >= cells.len() || take <= 0 {
        let x = if off < pos {
            0
        } else {
            off - pos
        };
        (if x < cols - 1 {
            x
        } else {
            cols - 1
        }, 0)
    } else {
        let (x, y) = split_position(cells, pos + take, cols, off);
        (x, y + 1)
    }
}

/// The rows that hold all of `logical`, one line after the other.
pub open spec fn split_all(logical: Seq<Seq<Cell>>, cols: int) -> Seq<RowView>
    decreases logical.len(),
{
    if logical.len() == 0 {
        Seq::empty()
    } else {
        split_all(logical.drop_last(), cols) + split_rows(logical.last(), 0, cols)
    }
}

/// The contents of a list of lines.
pub open spec fn cell_views(lines: Seq<Vec<Cell>>) -> Seq<Seq<Cell>> {
    Seq::new(lines.len(), |i: int| lines[i]@)
}

/// Drop trailing padding.
pub(crate) fn drop_padding(cells: &mut Vec<Cell>)
    ensures
        final(cells)@ == unpadded(old(cells)@),
{
    let ghost before = cells@;
    while cells.len() > 0 && cells[cells.len() - 1].ch == 0 && !cells[cells.len()
        - 1].flags.contains(CellFlags::WIDE_SPACER)
        invariant
            unpadded(cells@) == unpadded(before),
        decreases cells@.len(),
    {
        let _ = cells.pop();
    }
}

/// Append to `rows` the rows that hold `cells`; answer where `off` lands on them, with the row
/// counted from the first row of `rows`.
pub(crate) fn push_split(rows: &mut Vec<Row>, cells: &Vec<Cell>, cols: usize, off: u128) -> (at: (
    usize,
    usize,
))
    requires
        cols >= 1,
    ensures
        row_views(final(rows)@) == row_views(old(rows)@) + split_rows(cells@, 0, cols as int),
        at.0 == split_position(cells@, 0, cols as int, off as int).0,
        at.1 == old(rows)@.len() + split_position(cells@, 0, cols as int, off as int).1,
{
    let ghost before = row_views(rows@);
    let ghost target = split_rows(cells@, 0, cols as int);
    let ghost aim = split_position(cells@, 0, cols as int, off as int);
    let mut pos: usize = 0;
    let mut at: (usize, usize) = (0, 0);
    let mut placed = false;
    loop
        invariant_except_break
            cols >= 1,
            pos <= cells@.len(),
            pos == 0 || pos < cells@.len(),
            before.len() <= rows@.len(),
            row_views(rows@) + split_rows(cells@, pos as int, cols as int) == before + target,
            placed ==> at.0 == aim.0 && at.1 == before.len() + aim.1,
            !placed ==> ({
                let here = split_position(cells@, pos as int, cols as int, off as int);
                here.0 == aim.0 && here.1 + rows@.len() == aim.1 + before.len()
            }),
        ensures
            placed,
            at.0 == aim.0,
            at.1 == before.len() + aim.1,
            row_views(rows@) == before + target,
        decreases cells@.len() - pos + 1,
    {
        let ghost held = row_views(rows@);
        let ghost start = pos as int;
        let rest: usize = cells.len() - pos;
        let mut take: usize = if rest <= cols {
            rest
        } else {
            cols
        };
        // Never split a double-width character across the margin: leave a gap in the last column
        // and start it on the next row.
        if rest > cols && cols > 1 && cells[pos + take - 1].flags.contains(CellFlags::WIDE) {
            take -= 1;
        }
        assert(take == row_take(cells@, pos as int, cols as int));
        let more = pos + take < cells.len();
        // Every chunk but the last continues into the next one.
        let row = Row::holding(cols, &cells.as_slice()[pos..pos + take], more);
        rows.push(row);
        assert(row_views(rows@) =~= held.push(row@));
        // Place the offset once its row is reached.
        if !placed && (off < (pos + take) as u128 || !more) {
            let x: u128 = if off < pos as u128 {
                0
            } else {
                off - pos as u128
            };
            let x: usize = if x < (cols - 1) as u128 {
                x as usize
            } else {
                cols - 1
            };
            at = (x, rows.len() - 1);
            placed = true;
        }
        pos += take;
        if pos >= cells.len() {
            assert(held + split_rows(cells@, start, cols as int) =~= held.push(row@));
            break;
        }
        assert(held + split_rows(cells@, start, cols as int) =~= held.push(row@) + split_rows(
            cells@,
            pos as int,
            cols as int,
        ));
    }
    at
}

/// Wherever an offset lands, it is on a column of the screen.
pub proof fn lemma_position_in_row(cells: Seq<Cell>, pos: int, cols: int, off: int)
    requires
        cols >= 1,
    ensures
        0 <= split_position(cells, pos, cols, off).0 < cols,
        0 <= split_position(cells, pos, cols, off).1,
    decreases cells.len() - pos,
{
    let take = row_take(cells, pos, cols);
    if off < pos + take || pos + take >= cells.len() || take <= 0 {
    } else {
        lemma_position_in_row(cells, pos + take, cols, off);
    }
}

} // verus!
