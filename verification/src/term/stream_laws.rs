//! What becomes of a stream of output, and what of it has to be drawn.

use vstd::prelude::*;

use super::cell::Cell;
use super::charset::graphics_of;
use super::cursor::{Charset, CursorShape};
use super::grid::{lemma_wrap_is_mod, GridView};
use super::model::{head, TermView};
use super::parser::Stream;
use super::vt::{display_width, vt_findings, VtEvent};

verus! {

/// What the parser finds is done: characters are printed, control bytes and sequences carried out.
/// Control strings for devices change nothing, but their end is the end of a sequence.
pub proof fn findings_are_carried_out(v: TermView, c: char, byte: u8)
    ensures
        v.performed(VtEvent::Print(c)) == v.print(c),
        v.performed(VtEvent::Execute(byte)) == v.execute(byte),
        forall|params: Seq<Seq<u16>>, marks: Seq<u8>, long: bool, action: char|
            v.performed(
                VtEvent::Csi { params, intermediates: marks, ignore: long, action },
            ) == #[trigger] v.csi(params, marks, long, action),
        forall|marks: Seq<u8>, long: bool|
            v.performed(VtEvent::Esc { intermediates: marks, ignore: long, byte }) == #[trigger] v.esc(
                marks,
                long,
                byte,
            ),
        forall|strings: Seq<Seq<u8>>|
            v.performed(VtEvent::Osc(strings)) == #[trigger] v.osc(strings),
        v.performed(VtEvent::Hook) == v,
        v.performed(VtEvent::Put(byte)) == v,
        v.performed(VtEvent::Unhook) == (TermView { ground_signal: true, ..v }),
{
}

/// Findings are carried out one after the other.
pub proof fn findings_come_in_turn(v: TermView, a: Seq<VtEvent>, b: Seq<VtEvent>, e: VtEvent)
    ensures
        v.performed_all(Seq::empty()) == v,
        v.performed_all(seq![e]) == v.performed(e),
        v.performed_all(a + b) == v.performed_all(a).performed_all(b),
    decreases b.len(),
{
    assert(seq![e].drop_last() =~= Seq::<VtEvent>::empty());
    assert(v.performed_all(seq![e].drop_last()) == v);
    if b.len() == 0 {
        assert(a + b =~= a);
    } else {
        findings_come_in_turn(v, a, b.drop_last(), e);
        assert((a + b).drop_last() =~= a + b.drop_last());
    }
}

/// Between sequences a printable byte is typed and a control byte is carried out, at once; an escape,
/// and what is no ASCII, goes through the parser, and so does everything within a sequence.
pub proof fn bytes_are_read(s: Stream, b: u8)
    ensures
        ({
            let after = s.step(b);
            let found = s.term.performed_all(vt_findings(s.fed, b));
            let typed = s.in_ground && 0x20 <= b <= 0x7E;
            let control = s.in_ground && b < 0x20 && b != 0x1B;
            &&& typed ==> after == (Stream { term: s.term.typed(b), ..s })
            &&& control ==> after == (Stream { term: s.term.execute(b), ..s })
            &&& !typed && !control ==> after.fed == s.fed.push(b)
            &&& !typed && !control ==> after.term == (TermView { ground_signal: false, ..found })
            &&& !typed && !control ==> after.in_ground == (found.ground_signal && b != 0x1B && b < 0xC0)
        }),
{
    reveal(Stream::step);
}

/// Nothing is read from nothing, and one byte as one byte.
pub proof fn streams_are_read_byte_by_byte(s: Stream, b: u8, bytes: Seq<u8>)
    ensures
        s.run(Seq::empty()) == s,
        s.run(seq![b]) == s.step(b),
        s.run(bytes.push(b)) == s.run(bytes).step(b),
{
    assert(seq![b].drop_last() =~= Seq::<u8>::empty());
    assert(s.run(seq![b].drop_last()) == s);
    assert(bytes.push(b).drop_last() =~= bytes);
}

/// A run of text between sequences is typed byte by byte, and the parser hears nothing of it.
pub proof fn text_is_typed(s: Stream, bytes: Seq<u8>)
    requires
        s.in_ground,
        forall|i: int| 0 <= i < bytes.len() ==> 0x20 <= #[trigger] bytes[i] <= 0x7E,
    ensures
        s.run(bytes) == (Stream { term: s.term.typed_run(bytes), ..s }),
    decreases bytes.len(),
{
    if bytes.len() > 0 {
        let before = bytes.drop_last();
        assert forall|i: int| 0 <= i < before.len() implies 0x20 <= #[trigger] before[i] <= 0x7E by {
            assert(before[i] == bytes[i]);
        }
        text_is_typed(s, before);
        let last = bytes[bytes.len() - 1];
        bytes_are_read(s.run(before), last);
    }
}

/// The signs that stand for the characters from the underscore to the tilde in the set of line-drawing
/// characters.
pub open spec fn drawing_signs() -> Seq<char> {
    seq![
        ' ',
        '\u{25C6}',
        '\u{2592}',
        '\u{2409}',
        '\u{240C}',
        '\u{240D}',
        '\u{240A}',
        '\u{00B0}',
        '\u{00B1}',
        '\u{2424}',
        '\u{240B}',
        '\u{2518}',
        '\u{2510}',
        '\u{250C}',
        '\u{2514}',
        '\u{253C}',
        '\u{23BA}',
        '\u{23BB}',
        '\u{2500}',
        '\u{23BC}',
        '\u{23BD}',
        '\u{251C}',
        '\u{2524}',
        '\u{2534}',
        '\u{252C}',
        '\u{2502}',
        '\u{2264}',
        '\u{2265}',
        '\u{03C0}',
        '\u{2260}',
        '\u{00A3}',
        '\u{00B7}',
    ]
}

/// Lines are drawn with the characters from the underscore to the tilde; every other is itself.
pub proof fn lines_are_drawn_with_letters(c: char)
    ensures
        0x5F <= c as u32 <= 0x7E ==> graphics_of(c) == drawing_signs()[c as u32 - 0x5F],
        !(0x5F <= c as u32 <= 0x7E) ==> graphics_of(c) == c,
{
}

/// A character is shown as the set in use has it, and is as wide as what is shown.
pub proof fn the_set_in_use_shows(v: TermView, c: char)
    ensures
        ({
            let set = if v.cursor.shifted {
                v.cursor.g1
            } else {
                v.cursor.g0
            };
            let shown = if set == Charset::Graphics {
                graphics_of(c)
            } else {
                c
            };
            v.print(c) == v.printed_as(shown, display_width(shown))
        }),
{
}

/// A fresh terminal is blank, with the cursor at home, visible and blinking; it wraps lines, and has
/// its stops eight columns apart.
pub proof fn fresh_terminals_are_blank(cols: int, rows: int, scrollback: int, x: int, y: int)
    requires
        0 <= x < cols,
        0 <= y < rows,
        scrollback >= 0,
    ensures
        ({
            let v = TermView::fresh(cols, rows, scrollback);
            &&& v.grid.live(y).cells[x] == (Cell {
                ch: 0,
                fg: super::color::Color(0),
                bg: super::color::Color(0),
                flags: super::cell::CellFlags(0),
                underline: 0,
            })
            &&& v.grid.cols == cols && v.grid.rows == rows && v.grid.max_scrollback == scrollback
            &&& v.inactive.cols == cols && v.inactive.rows == rows && v.inactive.max_scrollback == 0
            &&& v.grid.history == 0 && v.grid.display_offset == 0
            &&& v.cursor.x == 0 && v.cursor.y == 0 && !v.cursor.wrap_pending
            &&& v.cursor.pen.fg.0 == 0 && v.cursor.pen.bg.0 == 0 && v.cursor.pen.flags.0 == 0
            &&& v.cursor.g0 == Charset::Ascii && v.cursor.g1 == Charset::Graphics && !v.cursor.shifted
            &&& v.cursor_shape == CursorShape::Block && v.cursor_blinks
            &&& v.scroll_top == 0 && v.scroll_bot == rows - 1
            &&& v.tabs.len() == cols && v.tabs[x] == (x > 0 && x % 8 == 0)
            &&& v.replies.len() == 0 && v.title is None && v.dirty
            &&& v.mode.0 == 0x0001_0005
        }),
{
    let v = TermView::fresh(cols, rows, scrollback);
    lemma_wrap_is_mod(y, rows + scrollback);
    assert(v.grid.cap() == rows + scrollback);
    assert(v.grid.live(y) == super::grid::empty_row(cols));
    assert(v.tabs[x] == (x > 0 && x % 8 == 0));
}

/// The view moves by lines, as far as there is history, and not past the live screen; nothing else
/// changes, and what is shown anew is drawn.
pub proof fn views_move_by_lines(v: TermView, delta: int)
    requires
        v.wf(),
    ensures
        ({
            let after = v.scroll_display(delta);
            let offset = after.grid.display_offset;
            let asked = v.grid.display_offset + delta;
            &&& 0 <= asked <= v.grid.history ==> offset == asked
            &&& asked < 0 ==> offset == 0
            &&& asked > v.grid.history ==> offset == v.grid.history
            &&& after.grid == (GridView {
                display_offset: offset,
                full_damage: after.grid.full_damage,
                ..v.grid
            })
            &&& after == (TermView { grid: after.grid, dirty: after.dirty, ..v })
            &&& offset != v.grid.display_offset ==> after.dirty && after.grid.full_damage
            &&& offset == v.grid.display_offset ==> after == v
        }),
{
}

// ---------------------------------------------------------------------------
// What has to be drawn again
// ---------------------------------------------------------------------------

/// A grid has as many lines as it should.
spec fn shaped(g: GridView) -> bool {
    g.rows >= 1 && g.max_scrollback >= 0 && g.ring.len() == g.rows + g.max_scrollback
}

/// Both screens have as many lines as they should.
spec fn both_shaped(v: TermView) -> bool {
    shaped(v.grid) && shaped(v.inactive)
}

/// Every line of `b` that differs from that of `a`, or was to be drawn already, is to be drawn.
spec fn redrawn(a: GridView, b: GridView) -> bool {
    !b.full_damage ==> {
        &&& !a.full_damage
        &&& b.rows == a.rows
        &&& b.max_scrollback == a.max_scrollback
        &&& b.display_offset == a.display_offset
        &&& b.ring.len() == a.ring.len()
        &&& forall|i: int|
            0 <= i < b.ring.len() ==> (#[trigger] b.ring[i]).dirty || b.ring[i].cells == a.ring[i].cells
                && !a.ring[i].dirty
    }
}

proof fn lemma_redrawn_twice(a: GridView, b: GridView, c: GridView)
    requires
        redrawn(a, b),
        redrawn(b, c),
    ensures
        redrawn(a, c),
{
    if !c.full_damage {
        assert forall|i: int| 0 <= i < c.ring.len() implies (#[trigger] c.ring[i]).dirty
            || c.ring[i].cells == a.ring[i].cells && !a.ring[i].dirty by {
            if !c.ring[i].dirty {
                assert(!b.ring[i].dirty);
            }
        }
    }
}

proof fn lemma_redrawn_linefeed(v: TermView)
    requires
        both_shaped(v),
    ensures
        both_shaped(v.linefeed()),
        redrawn(v.grid, v.linefeed().grid),
{
    reveal(TermView::linefeed);
}

proof fn lemma_redrawn_wrapped(v: TermView)
    requires
        both_shaped(v),
    ensures
        both_shaped(v.wrapped()),
        redrawn(v.grid, v.wrapped().grid),
{
    lemma_wrap_is_mod(v.cursor.y, v.grid.cap());
    reveal(TermView::wrapped);
    let marked = v.with_cursor_row(
        super::grid::RowView { wrapped: true, ..v.cursor_row() },
    ).at(0, v.cursor.y).settled();
    assert(redrawn(v.grid, marked.grid));
    lemma_redrawn_linefeed(marked);
    lemma_redrawn_twice(v.grid, marked.grid, v.wrapped().grid);
}

proof fn lemma_redrawn_placed(v: TermView, c: char, width: int)
    requires
        both_shaped(v),
    ensures
        both_shaped(v.placed(c, width)),
        redrawn(v.grid, v.placed(c, width).grid),
{
    lemma_wrap_is_mod(v.cursor.y, v.grid.cap());
    reveal(TermView::drawn);
    reveal(TermView::shifted_right);
}

proof fn lemma_redrawn_put(v: TermView, c: char, width: int)
    requires
        both_shaped(v),
    ensures
        both_shaped(v.put_char(c, width)),
        redrawn(v.grid, v.put_char(c, width).grid),
{
    lemma_wrap_is_mod(v.cursor.y, v.grid.cap());
    reveal(TermView::put_char);
    let w = if v.cursor.wrap_pending {
        v.wrapped()
    } else {
        v
    };
    lemma_redrawn_wrapped(v);
    assert(redrawn(v.grid, w.grid));
    lemma_wrap_is_mod(w.cursor.y, w.grid.cap());
    let g = w.gapped();
    assert(redrawn(w.grid, g.grid));
    lemma_redrawn_wrapped(g);
    lemma_redrawn_placed(w, c, width);
    lemma_redrawn_placed(g.wrapped(), c, width);
    lemma_redrawn_twice(w.grid, g.grid, g.wrapped().grid);
    lemma_redrawn_twice(w.grid, g.wrapped().grid, g.wrapped().placed(c, width).grid);
    lemma_redrawn_twice(v.grid, w.grid, v.put_char(c, width).grid);
}

proof fn lemma_redrawn_print(v: TermView, c: char)
    requires
        both_shaped(v),
    ensures
        redrawn(v.grid, v.print(c).grid),
        v.print(c).dirty,
{
    lemma_wrap_is_mod(v.cursor.y, v.grid.cap());
    reveal(TermView::printed_as);
    reveal(TermView::combined);
    let shown = v.shown(c);
    let w = v.output().signalled();
    assert(redrawn(v.grid, w.grid));
    assert(redrawn(w.grid, w.combined(shown).grid));
    lemma_redrawn_twice(v.grid, w.grid, w.combined(shown).grid);
    match display_width(shown) {
        Some(n) => {
            lemma_redrawn_put(w, shown, n as int);
            lemma_redrawn_twice(v.grid, w.grid, w.put_char(shown, n as int).grid);
            lemma_put_dirty(w, shown, n as int);
        },
        None => {},
    }
}

/// Printing marks the terminal.
proof fn lemma_put_dirty(v: TermView, c: char, width: int)
    ensures
        v.put_char(c, width).dirty == v.dirty,
{
    reveal(TermView::put_char);
    reveal(TermView::wrapped);
    reveal(TermView::linefeed);
    reveal(TermView::drawn);
}

proof fn lemma_redrawn_execute(v: TermView, byte: u8)
    requires
        both_shaped(v),
    ensures
        redrawn(v.grid, v.execute(byte).grid),
        v.execute(byte).dirty,
{
    reveal(TermView::execute);
    let w = v.marked_dirty();
    let live = w.with_grid(w.grid.scroll_to_bottom());
    assert(redrawn(v.grid, live.grid));
    lemma_redrawn_linefeed(live);
    lemma_redrawn_twice(v.grid, live.grid, live.linefeed().grid);
    lemma_linefeed_dirty(live);
}

proof fn lemma_linefeed_dirty(v: TermView)
    ensures
        v.linefeed().dirty == v.dirty,
        v.reverse_index().dirty == v.dirty,
{
    reveal(TermView::linefeed);
    reveal(TermView::reverse_index);
}

proof fn lemma_redrawn_edit(v: TermView, params: Seq<Seq<u16>>, action: char)
    requires
        both_shaped(v),
        v.dirty,
    ensures
        redrawn(v.grid, v.csi_edit(params, action).grid),
        v.csi_edit(params, action).dirty,
{
    lemma_wrap_is_mod(v.cursor.y, v.grid.cap());
    reveal(TermView::csi_edit);
    reveal(TermView::shifted_right);
    reveal(TermView::erase_in_display);
}

proof fn lemma_redrawn_alt(v: TermView, enable: bool, save_restore: bool)
    requires
        both_shaped(v),
    ensures
        both_shaped(v.set_alt_screen(enable, save_restore)),
        redrawn(v.grid, v.set_alt_screen(enable, save_restore).grid),
        v.dirty ==> v.set_alt_screen(enable, save_restore).dirty,
        !v.grid.full_damage && v.set_alt_screen(enable, save_restore) != v
            ==> v.set_alt_screen(enable, save_restore).grid.full_damage,
{
    reveal(TermView::set_alt_screen);
}

proof fn lemma_redrawn_mode(v: TermView, number: u16, enable: bool)
    requires
        both_shaped(v),
    ensures
        both_shaped(v.set_private_mode(number, enable)),
        redrawn(v.grid, v.set_private_mode(number, enable).grid),
        v.set_private_mode(number, enable).dirty,
{
    reveal(TermView::set_private_mode);
    lemma_redrawn_alt(v, enable, false);
    lemma_redrawn_alt(v, enable, true);
}

proof fn lemma_redrawn_modes(v: TermView, params: Seq<Seq<u16>>, n: int, private: bool, enable: bool)
    requires
        both_shaped(v),
        v.dirty,
    ensures
        both_shaped(v.set_modes(params, n, private, enable)),
        redrawn(v.grid, v.set_modes(params, n, private, enable).grid),
        v.set_modes(params, n, private, enable).dirty,
    decreases n,
{
    if n > 0 {
        lemma_redrawn_modes(v, params, n - 1, private, enable);
        let w = v.set_modes(params, n - 1, private, enable);
        match head(params[n - 1]) {
            Some(number) => {
                if private {
                    lemma_redrawn_mode(w, number, enable);
                    let after = w.set_private_mode(number, enable);
                    lemma_redrawn_twice(v.grid, w.grid, after.grid);
                } else {
                    assert(w.set_ansi_mode(number, enable).grid == w.grid);
                }
            },
            None => {},
        }
    }
}

proof fn lemma_sgr_keeps_the_grid(v: TermView, params: Seq<Seq<u16>>, i: int)
    ensures
        v.sgr_from(params, i).grid == v.grid,
        v.sgr_from(params, i).dirty == v.dirty,
    decreases params.len() - i,
{
    if 0 <= i < params.len() {
        let group = params[i];
        let code = if group.len() > 0 {
            group[0]
        } else {
            0
        };
        let pen = v.cursor.pen;
        if code == 38 || code == 48 || code == 58 {
            match super::model::extended_color(params, i) {
                Some((c, used)) => {
                    let w = if code == 38 {
                        v.with_pen(super::cell::Pen { fg: c, ..pen })
                    } else if code == 48 {
                        v.with_pen(super::cell::Pen { bg: c, ..pen })
                    } else {
                        let colors = v.underline_colors.push(c);
                        TermView { underline_colors: colors, ..v }.with_pen(
                            super::cell::Pen { underline: colors.len() as u16, ..pen },
                        )
                    };
                    lemma_sgr_keeps_the_grid(w, params, i + super::model::max(used, 1));
                },
                None => {
                    lemma_sgr_keeps_the_grid(v, params, i + 1);
                },
            }
        } else {
            lemma_sgr_keeps_the_grid(
                v.with_pen(super::model::sgr_pen(pen, code, group)),
                params,
                i + 1,
            );
        }
    }
}

proof fn lemma_redrawn_set(v: TermView, params: Seq<Seq<u16>>, intermediates: Seq<u8>, action: char)
    requires
        both_shaped(v),
        v.dirty,
    ensures
        redrawn(v.grid, v.csi_set(params, intermediates, action).grid),
        v.csi_set(params, intermediates, action).dirty,
{
    reveal(TermView::csi_set);
    reveal(TermView::sgr);
    let private = intermediates.len() > 0 && intermediates[0] == 0x3F;
    lemma_redrawn_modes(v, params, params.len() as int, private, action == 'h');
    lemma_sgr_keeps_the_grid(v, params, 0);
}

proof fn lemma_redrawn_move(v: TermView, params: Seq<Seq<u16>>, action: char)
    requires
        v.dirty,
    ensures
        v.csi_move(params, action).grid == v.grid,
        v.csi_move(params, action).dirty,
{
    reveal(TermView::csi_move);
}

proof fn lemma_redrawn_esc(v: TermView, intermediates: Seq<u8>, ignore: bool, byte: u8)
    requires
        both_shaped(v),
    ensures
        redrawn(v.grid, v.esc(intermediates, ignore, byte).grid),
        !ignore || v.dirty ==> v.esc(intermediates, ignore, byte).dirty,
        ignore ==> v.esc(intermediates, ignore, byte).grid == v.grid,
{
    reveal(TermView::esc);
    reveal(TermView::reverse_index);
    reveal(TermView::full_reset);
    let w = v.signalled().marked_dirty();
    lemma_redrawn_linefeed(w);
    lemma_linefeed_dirty(w);
}

/// Whatever changes on the screen is drawn again: a row that shows something else after a finding than
/// before it, or was to be drawn already, is marked, or all of them are; and the terminal says that
/// there is something to draw.
pub proof fn changes_are_drawn_again(v: TermView, event: VtEvent, y: int)
    requires
        v.wf(),
        0 <= y < v.rows(),
    ensures
        ({
            let after = v.performed(event).grid;
            &&& after.shown(y).cells != v.grid.shown(y).cells ==> after.full_damage || after.shown(
                y,
            ).dirty
            &&& v.grid.full_damage || v.grid.shown(y).dirty ==> after.full_damage || after.shown(
                y,
            ).dirty
            &&& after != v.grid ==> v.performed(event).dirty
            &&& v.dirty ==> v.performed(event).dirty
        }),
{
    match event {
        VtEvent::Print(c) => {
            lemma_redrawn_print(v, c);
        },
        VtEvent::Execute(byte) => {
            lemma_redrawn_execute(v, byte);
        },
        VtEvent::Csi { params, intermediates, ignore, action } => {
            reveal(TermView::csi);
            let w = v.signalled().marked_dirty();
            lemma_redrawn_move(w, params, action);
            lemma_redrawn_edit(w, params, action);
            lemma_redrawn_set(w, params, intermediates, action);
        },
        VtEvent::Esc { intermediates, ignore, byte } => {
            lemma_redrawn_esc(v, intermediates, ignore, byte);
        },
        VtEvent::Osc(params) => {
            reveal(TermView::osc);
        },
        _ => {},
    }
    let after = v.performed(event).grid;
    assert(redrawn(v.grid, after));
    if !after.full_damage {
        let k = y - v.grid.display_offset;
        lemma_wrap_is_mod(k, v.grid.cap());
        let i = super::grid::wrap(k, v.grid.cap());
        assert(after.ring[i].dirty || after.ring[i].cells == v.grid.ring[i].cells);
    }
}

/// Every number up to 0x10FFFF is that of a character, but for the halves of surrogate pairs.
pub proof fn characters_have_numbers(n: u32)
    ensures
        n <= 0x10_FFFF && !(0xD800 <= n <= 0xDFFF) ==> super::cell::is_scalar(n),
        n > 0x10_FFFF || 0xD800 <= n <= 0xDFFF ==> !super::cell::is_scalar(n),
{
}

/// A screen has at least one column and one row.
pub proof fn no_size_is_zero(n: usize)
    ensures
        n >= 1 ==> super::grid::at_least_one(n) == n,
        super::grid::at_least_one(0) == 1,
{
}

} // verus!
