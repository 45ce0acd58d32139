//! Printing long runs of plain ASCII.

use vstd::prelude::*;

use super::super::cell::Cell;
use super::super::charset::dec_graphics;
use super::super::cursor::Charset;
use super::super::grid::{lemma_wrap_is_mod, RowView};
use super::super::laws::runs_can_be_split;
use super::super::mode::TermMode;
use super::super::model::TermView;
use super::motion::lesser;
use super::{lemma_wrapped_keeps, Term};

verus! {

/// Nothing stands in the way of writing bytes straight into the line: output has begun, every byte
/// shows as itself, and nothing has to make room.
spec fn plain(v: TermView) -> bool {
    &&& v.wf()
    &&& v.dirty
    &&& v.grid.display_offset == 0
    &&& v.cursor.charset() == Charset::Ascii
    &&& !v.on(TermMode::INSERT)
}

/// A run of bytes that fits in the line, written from the cursor on.
spec fn spread(v: TermView, bytes: Seq<u8>) -> TermView {
    v.with_cursor_row(v.cursor_row().lettered(v.cursor.x, bytes, v.inked(0))).advanced(
        bytes.len() as int,
    )
}

/// Once output has begun, more output changes nothing by itself.
proof fn lemma_output_once(v: TermView)
    requires
        v.wf(),
        v.dirty,
        v.grid.display_offset == 0,
    ensures
        v.output() == v,
{
    assert(v.output() =~= v);
}

/// Replacing the cursor's line by another of the same width keeps the terminal in order.
proof fn lemma_row_replaced(v: TermView, r: RowView)
    requires
        v.wf(),
        r.cells.len() == v.cols(),
    ensures
        v.with_cursor_row(r).wf(),
        v.with_cursor_row(r).cursor_row() == r,
{
    lemma_wrap_is_mod(v.cursor.y, v.grid.cap());
}

/// The first byte of a run is printed before the others.
proof fn lemma_first_byte(v: TermView, bytes: Seq<u8>)
    requires
        bytes.len() > 0,
    ensures
        v.typed_run(bytes) == v.typed(bytes[0]).typed_run(bytes.skip(1)),
    decreases bytes.len(),
{
    if bytes.len() == 1 {
        assert(bytes.drop_last() =~= Seq::<u8>::empty());
        assert(bytes.skip(1) =~= Seq::<u8>::empty());
        assert(v.typed_run(bytes.drop_last()) == v);
    } else {
        lemma_first_byte(v, bytes.drop_last());
        assert(bytes.drop_last().skip(1) =~= bytes.skip(1).drop_last());
    }
}

/// Writing one byte where there is room.
proof fn lemma_one_byte(v: TermView, b: u8)
    requires
        plain(v),
        !v.cursor.wrap_pending,
        v.cursor.x < v.cols(),
    ensures
        v.typed(b) == spread(v, seq![b]),
{
    reveal(TermView::typed);
    reveal(TermView::put_char);
    reveal(TermView::drawn);
    lemma_output_once(v);
    lemma_wrap_is_mod(v.cursor.y, v.grid.cap());
    let x = v.cursor.x;
    let c = v.lead_cell(b as char, 1);
    assert(v.cursor_row().with_cell(x, c) =~= v.cursor_row().lettered(x, seq![b], v.inked(0)));
}

/// What a run that fits leaves is again plain, with the same size and modes.
proof fn lemma_spread_plain(v: TermView, bytes: Seq<u8>)
    requires
        plain(v),
        !v.cursor.wrap_pending,
        v.cursor.x + bytes.len() <= v.cols(),
    ensures
        plain(spread(v, bytes)),
        spread(v, bytes).cols() == v.cols(),
        spread(v, bytes).mode == v.mode,
        v.cursor.x + bytes.len() < v.cols() ==> !spread(v, bytes).cursor.wrap_pending && spread(
            v,
            bytes,
        ).cursor.x == v.cursor.x + bytes.len(),
{
    lemma_row_replaced(v, v.cursor_row().lettered(v.cursor.x, bytes, v.inked(0)));
    lemma_wrap_is_mod(v.cursor.y, v.grid.cap());
}

/// A run that fits in the line is written in one go.
proof fn lemma_run_that_fits(v: TermView, bytes: Seq<u8>)
    requires
        plain(v),
        !v.cursor.wrap_pending,
        0 < bytes.len() <= v.cols() - v.cursor.x,
    ensures
        v.typed_run(bytes) == spread(v, bytes),
    decreases bytes.len(),
{
    let before = bytes.drop_last();
    if before.len() == 0 {
        assert(v.typed_run(before) == v);
        assert(bytes =~= seq![bytes.last()]);
        lemma_one_byte(v, bytes.last());
    } else {
        lemma_run_that_fits(v, before);
        lemma_spread_plain(v, before);
        let w = spread(v, before);
        lemma_one_byte(w, bytes.last());
        lemma_wrap_is_mod(v.cursor.y, v.grid.cap());
        lemma_row_replaced(v, v.cursor_row().lettered(v.cursor.x, before, v.inked(0)));
        assert(w.cursor_row().lettered(w.cursor.x, seq![bytes.last()], w.inked(0))
            =~= v.cursor_row().lettered(v.cursor.x, bytes, v.inked(0)));
        assert(spread(w, seq![bytes.last()]).grid.ring =~= spread(v, bytes).grid.ring);
        assert(spread(w, seq![bytes.last()]) =~= spread(v, bytes));
    }
}

/// A pending wrap happens before the next byte.
proof fn lemma_wrap_first(v: TermView, bytes: Seq<u8>)
    requires
        plain(v),
        v.cursor.wrap_pending,
        bytes.len() > 0,
        plain(v.wrapped()),
        !v.wrapped().cursor.wrap_pending,
        v.wrapped().cursor.x == 0,
    ensures
        v.typed_run(bytes) == v.wrapped().typed_run(bytes),
{
    lemma_first_byte(v, bytes);
    lemma_first_byte(v.wrapped(), bytes);
    lemma_output_once(v);
    lemma_output_once(v.wrapped());
    assert(v.typed(bytes[0]) == v.wrapped().typed(bytes[0])) by {
        reveal(TermView::typed);
        reveal(TermView::put_char);
    }
}

/// A cursor beyond the margin is brought back before the next byte.
proof fn lemma_margin_first(v: TermView, bytes: Seq<u8>)
    requires
        plain(v),
        bytes.len() > 0,
    ensures
        v.typed_run(bytes) == v.within_margin().typed_run(bytes),
        plain(v.within_margin()),
{
    lemma_first_byte(v, bytes);
    lemma_first_byte(v.within_margin(), bytes);
    lemma_row_replaced(v, RowView { dirty: true, ..v.cursor_row() });
    lemma_wrap_is_mod(v.cursor.y, v.grid.cap());
    lemma_output_once(v);
    lemma_output_once(v.within_margin());
    assert(v.typed(bytes[0]) == v.within_margin().typed(bytes[0])) by {
        reveal(TermView::typed);
    }
}

/// Without autowrap, everything printed at the margin overstrikes the last column, so that only
/// the last byte stays.
proof fn lemma_overstrike(v: TermView, bytes: Seq<u8>)
    requires
        plain(v),
        !v.on(TermMode::AUTOWRAP),
        !v.cursor.wrap_pending,
        v.cursor.x == v.cols() - 1,
        bytes.len() > 0,
    ensures
        v.typed_run(bytes) == v.with_grid(
            v.grid.set_cell(v.cols() - 1, v.cursor.y, v.inked(bytes.last() as u32)),
        ),
    decreases bytes.len(),
{
    let before = bytes.drop_last();
    if before.len() == 0 {
        assert(v.typed_run(before) == v);
        lemma_strike(v, bytes.last());
    } else {
        lemma_overstrike(v, before);
        let w = v.typed_run(before);
        let x = v.cursor.x;
        let c = v.inked(before.last() as u32);
        let d = v.inked(bytes.last() as u32);
        lemma_row_replaced(v, v.cursor_row().with_cell(x, c));
        lemma_strike(w, bytes.last());
        lemma_wrap_is_mod(v.cursor.y, v.grid.cap());
        assert(w.cursor_row().with_cell(x, d) =~= v.cursor_row().with_cell(x, d));
        assert(w.grid.set_cell(x, v.cursor.y, d).ring =~= v.grid.set_cell(
            x,
            v.cursor.y,
            d,
        ).ring);
    }
}

/// Without autowrap, a byte printed at the margin overstrikes the last column.
proof fn lemma_strike(v: TermView, b: u8)
    requires
        plain(v),
        !v.on(TermMode::AUTOWRAP),
        !v.cursor.wrap_pending,
        v.cursor.x == v.cols() - 1,
    ensures
        v.typed(b) == v.with_grid(v.grid.set_cell(v.cols() - 1, v.cursor.y, v.inked(b as u32))),
{
    reveal(TermView::typed);
    reveal(TermView::put_char);
    reveal(TermView::drawn);
    lemma_output_once(v);
}

impl Term {
    /// Write a run of printable ASCII, which holds no control characters, no wide characters and
    /// no combining marks, so that whole spans of a line can be filled without looking at each
    /// byte again.
    pub fn write_ascii_run(&mut self, bytes: &[u8])
        requires
            old(self).wf(),
        ensures
            final(self).wf(),
            final(self)@ == old(self)@.typed_run(bytes@),
    {
        if bytes.len() == 0 {
            return ;
        }
        let ghost start = self@;
        // Output always brings the viewport back to the live screen.
        self.output();
        proof {
            lemma_first_byte(start, bytes@);
            lemma_first_byte(self@, bytes@);
            lemma_output_once(self@);
            assert(start.typed(bytes@[0]) == self@.typed(bytes@[0])) by {
                reveal(TermView::typed);
            }
        }
        if !self.cursor.charset_is_ascii() || self.mode.contains(TermMode::INSERT) {
            self.write_one_by_one(bytes);
        } else {
            self.write_spans(bytes);
        }
    }

    /// With another character set every byte needs translating, and in insert mode every byte
    /// shifts the rest of the line: there is nothing to batch.
    fn write_one_by_one(&mut self, bytes: &[u8])
        requires
            old(self).wf(),
            old(self)@.dirty,
            old(self)@.grid.display_offset == 0,
            old(self)@.cursor.charset() == Charset::Graphics || old(self)@.on(TermMode::INSERT),
        ensures
            final(self).wf(),
            final(self)@ == old(self)@.typed_run(bytes@),
    {
        let ghost start = self@;
        let graphics = !self.cursor.charset_is_ascii();
        let mut i: usize = 0;
        assert(bytes@.take(0) =~= Seq::<u8>::empty());
        while i < bytes.len()
            invariant
                self.wf(),
                i <= bytes@.len(),
                self@.dirty,
                self@.grid.display_offset == 0,
                graphics == (self@.cursor.charset() == Charset::Graphics),
                graphics || self@.on(TermMode::INSERT),
                self@ == start.typed_run(bytes@.take(i as int)),
            decreases bytes@.len() - i,
        {
            let ghost v = self@;
            let b: u8 = bytes[i];
            let c: char = if graphics {
                dec_graphics(b as char)
            } else {
                b as char
            };
            proof {
                lemma_output_once(v);
                lemma_put_keeps(v, c);
                assert(bytes@.take(i + 1).drop_last() =~= bytes@.take(i as int));
                reveal(TermView::typed);
            }
            self.put_char(c, 1);
            i += 1;
        }
        assert(bytes@.take(i as int) =~= bytes@);
    }

    fn write_spans(&mut self, bytes: &[u8])
        requires
            old(self).wf(),
            plain(old(self)@),
        ensures
            final(self).wf(),
            final(self)@ == old(self)@.typed_run(bytes@),
    {
        let ghost target = self@.typed_run(bytes@);
        let mut done: usize = 0;
        assert(bytes@.skip(0) =~= bytes@);
        while done < bytes.len()
            invariant
                self.wf(),
                plain(self@),
                done <= bytes@.len(),
                self@.typed_run(bytes@.skip(done as int)) == target,
            decreases bytes@.len() - done,
        {
            self.make_way(&bytes[done..bytes.len()]);
            assert(bytes@.subrange(done as int, bytes@.len() as int) =~= bytes@.skip(done as int));
            let took: usize = self.write_next(bytes, done);
            done += took;
        }
        assert(bytes@.skip(done as int) =~= Seq::<u8>::empty());
    }

    /// Do what has to happen before the next byte can be written: a pending wrap, or bringing a
    /// cursor beyond the right margin back.
    fn make_way(&mut self, rest: &[u8])
        requires
            old(self).wf(),
            plain(old(self)@),
            rest@.len() > 0,
        ensures
            final(self).wf(),
            plain(final(self)@),
            !final(self)@.cursor.wrap_pending,
            final(self)@.cursor.x < final(self)@.cols(),
            final(self)@.typed_run(rest@) == old(self)@.typed_run(rest@),
    {
        if !self.cursor.wrap_pending && self.cursor.x >= self.cols() {
            proof {
                lemma_margin_first(self@, rest@);
            }
            self.to_margin();
        }
        if self.cursor.wrap_pending {
            let ghost v = self@;
            self.wrap_line();
            proof {
                lemma_wrapped_keeps(v);
                lemma_wrap_first(v, rest@);
            }
        }
    }

    /// Write as many of the bytes from `done` on as the line takes, and tell how many are then
    /// dealt with.
    fn write_next(&mut self, bytes: &[u8], done: usize) -> (took: usize)
        requires
            old(self).wf(),
            plain(old(self)@),
            !old(self)@.cursor.wrap_pending,
            old(self)@.cursor.x < old(self)@.cols(),
            done < bytes@.len(),
        ensures
            final(self).wf(),
            plain(final(self)@),
            0 < took <= bytes@.len() - done,
            final(self)@.typed_run(bytes@.skip(done + took)) == old(self)@.typed_run(
                bytes@.skip(done as int),
            ),
    {
        let ghost v = self@;
        let cols: usize = self.cols();
        let avail: usize = cols - self.cursor.x;
        let take: usize = lesser(avail, bytes.len() - done);
        let chunk = &bytes[done..done + take];
        self.write_span(chunk);
        let ghost w = self@;
        proof {
            assert(bytes@.skip(done as int) =~= chunk@ + bytes@.skip(done + take));
            runs_can_be_split(v, chunk@, bytes@.skip(done + take));
            lemma_run_that_fits(v, chunk@);
            lemma_spread_plain(v, chunk@);
        }
        if take == avail && done + take < bytes.len() && !self.mode.contains(TermMode::AUTOWRAP) {
            // No autowrap: everything else overstrikes the last column.
            let last: u8 = bytes[bytes.len() - 1];
            self.strike(last);
            proof {
                lemma_overstrike(w, bytes@.skip(done + take));
                lemma_row_replaced(
                    w,
                    w.cursor_row().with_cell(w.cursor.x, w.inked(last as u32)),
                );
                assert(bytes@.skip(bytes@.len() as int) =~= Seq::<u8>::empty());
                assert(self@.typed_run(Seq::<u8>::empty()) == self@);
            }
            bytes.len() - done
        } else {
            take
        }
    }

    /// Overstrike the last column.
    fn strike(&mut self, b: u8)
        requires
            old(self).wf(),
        ensures
            final(self).wf(),
            final(self)@ == old(self)@.with_grid(
                old(self)@.grid.set_cell(
                    old(self)@.cols() - 1,
                    old(self)@.cursor.y,
                    old(self)@.inked(b as u32),
                ),
            ),
    {
        let c = self.ink(b as u32);
        let y: usize = self.cursor.y;
        let x: usize = self.cols() - 1;
        self.grid.set_cell(x, y, c);
    }

    /// The cell that the pen makes of a character.
    fn ink(&self, ch: u32) -> (c: Cell)
        ensures
            c == self@.inked(ch),
    {
        let pen = self.cursor.pen;
        Cell { ch, fg: pen.fg, bg: pen.bg, flags: pen.flags, underline: pen.underline }
    }

    /// Bring a cursor beyond the right margin back to it.
    fn to_margin(&mut self)
        requires
            old(self).wf(),
            old(self)@.cursor.x >= old(self)@.cols(),
            !old(self)@.cursor.wrap_pending,
        ensures
            final(self).wf(),
            final(self)@ == old(self)@.within_margin(),
    {
        let y: usize = self.cursor.y;
        proof {
            lemma_wrap_is_mod(y as int, self@.grid.cap());
        }
        self.grid.row_mut(y).set_dirty(true);
        self.cursor.x = self.cols() - 1;
        self.cursor.wrap_pending = self.mode.contains(TermMode::AUTOWRAP);
    }

    /// Write a run of bytes that fits in the line.
    fn write_span(&mut self, bytes: &[u8])
        requires
            old(self).wf(),
            !old(self)@.cursor.wrap_pending,
            old(self)@.cursor.x + bytes@.len() <= old(self)@.cols(),
        ensures
            final(self).wf(),
            final(self)@ == spread(old(self)@, bytes@),
    {
        let y: usize = self.cursor.y;
        let x: usize = self.cursor.x;
        let cols: usize = self.cols();
        let ink = self.ink(0);
        proof {
            lemma_wrap_is_mod(y as int, self@.grid.cap());
        }
        self.grid.row_mut(y).letter(x, bytes, ink);
        let next: usize = x + bytes.len();
        if next >= cols {
            // Landed exactly on the right margin: defer the wrap.
            self.cursor.x = cols - 1;
            self.cursor.wrap_pending = self.mode.contains(TermMode::AUTOWRAP);
        } else {
            self.cursor.x = next;
        }
    }
}

/// Printing one narrow character keeps the viewport on the live screen, the modes and the
/// character set.
proof fn lemma_put_keeps(v: TermView, c: char)
    requires
        v.wf(),
        v.grid.display_offset == 0,
    ensures
        v.put_char(c, 1).dirty == v.dirty,
        v.put_char(c, 1).grid.display_offset == 0,
        v.put_char(c, 1).cursor.charset() == v.cursor.charset(),
        v.put_char(c, 1).mode == v.mode,
{
    reveal(TermView::put_char);
    reveal(TermView::drawn);
    reveal(TermView::shifted_right);
    lemma_wrapped_keeps(v);
}

} // verus!
