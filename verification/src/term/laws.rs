//! What holds of terminals as a whole.

use vstd::prelude::*;

use super::cell::{blank_of, plain_pen, CellFlags};
use super::cursor::{Charset, CursorView};
use super::grid::{lemma_wrap_is_mod, used_len, wrap, GridView, RowView};
use super::mode::TermMode;
use super::model::{back_tab_column, head, min, param, stop_before, stop_from, tab_column, TermView};
use super::vt::{display_width, VtEvent};

verus! {

/// A position on the screen.
pub open spec fn inside(v: TermView, c: CursorView) -> bool {
    0 <= c.x < v.cols() && 0 <= c.y < v.rows()
}

/// The cursor and the saved cursor are on the screen, and so is the scroll region.
pub open spec fn on_screen(v: TermView) -> bool {
    &&& inside(v, v.cursor)
    &&& inside(v, v.saved_cursor)
    &&& 0 <= v.scroll_top <= v.scroll_bot < v.rows()
    &&& v.tabs.len() == v.cols()
    &&& v.inactive.cols == v.cols()
    &&& v.inactive.rows == v.rows()
}

/// No character takes more than eight scalars.
pub open spec fn clusters_bounded(v: TermView) -> bool {
    forall|i: int| 0 <= i < v.clusters.len() ==> (#[trigger] v.clusters[i]).len() <= 8
}

/// `w` has the size of `v`, everything on the screen, and bounded clusters.
spec fn sound(v: TermView, w: TermView) -> bool {
    &&& on_screen(w)
    &&& clusters_bounded(w)
    &&& w.cols() == v.cols()
    &&& w.rows() == v.rows()
}

/// `w` is sound, and the screens are as they were: which one is in use, and what the other holds.
spec fn steady(v: TermView, w: TermView) -> bool {
    sound(v, w) && w.inactive == v.inactive && w.on(TermMode::ALT_SCREEN) == v.on(
        TermMode::ALT_SCREEN,
    )
}

/// Switching any other mode leaves it alone which screen is in use.
proof fn lemma_other_mode(m: TermMode, bit: u32, enable: bool)
    requires
        bit & 0x2000 == 0,
    ensures
        m.with(bit, enable).contains(TermMode::ALT_SCREEN) == m.contains(TermMode::ALT_SCREEN),
{
    let w = m.0;
    assert(bit & 0x2000 == 0 ==> ((w | bit) & 0x2000 == 0x2000) == (w & 0x2000 == 0x2000) && ((w
        & !bit) & 0x2000 == 0x2000) == (w & 0x2000 == 0x2000)) by (bit_vector);
}

proof fn lemma_linefeed(v: TermView)
    requires
        on_screen(v),
        clusters_bounded(v),
    ensures
        steady(v, v.linefeed()),
        v.linefeed().mode == v.mode,
        v.linefeed().clusters == v.clusters,
        v.linefeed().saved_cursor == v.saved_cursor,
{
    reveal(TermView::linefeed);
}

proof fn lemma_wrapped(v: TermView)
    requires
        on_screen(v),
        clusters_bounded(v),
    ensures
        steady(v, v.wrapped()),
        v.wrapped().mode == v.mode,
{
    reveal(TermView::wrapped);
    let marked = v.with_cursor_row(RowView { wrapped: true, ..v.cursor_row() }).at(
        0,
        v.cursor.y,
    ).settled();
    lemma_linefeed(marked);
}

proof fn lemma_put_char(v: TermView, c: char, width: int)
    requires
        on_screen(v),
        clusters_bounded(v),
        width >= 1,
    ensures
        steady(v, v.put_char(c, width)),
{
    reveal(TermView::put_char);
    reveal(TermView::drawn);
    reveal(TermView::shifted_right);
    let w = if v.cursor.wrap_pending {
        v.wrapped()
    } else {
        v
    };
    if v.cursor.wrap_pending {
        lemma_wrapped(v);
    }
    lemma_wrapped(w.gapped());
}

proof fn lemma_combined(v: TermView, mark: char)
    requires
        on_screen(v),
        clusters_bounded(v),
    ensures
        steady(v, v.combined(mark)),
{
    reveal(TermView::combined);
}

proof fn lemma_print(v: TermView, c: char)
    requires
        on_screen(v),
        clusters_bounded(v),
    ensures
        steady(v, v.print(c)),
{
    reveal(TermView::printed_as);
    let w = v.output().signalled();
    let shown = v.shown(c);
    lemma_combined(w, shown);
    match display_width(shown) {
        Some(n) => {
            if n > 0 {
                lemma_put_char(w, shown, n as int);
            }
        },
        None => {},
    }
}

proof fn lemma_stop_from(tabs: Seq<bool>, x: int)
    requires
        tabs.len() > 0,
        x >= 0,
    ensures
        0 <= stop_from(tabs, x) < tabs.len(),
    decreases tabs.len() - x,
{
    if x < tabs.len() && !tabs[x] {
        lemma_stop_from(tabs, x + 1);
    }
}

proof fn lemma_stop_before(tabs: Seq<bool>, x: int)
    requires
        tabs.len() > 0,
        x <= tabs.len(),
    ensures
        0 <= stop_before(tabs, x) < tabs.len(),
    decreases x,
{
    if x > 0 && !tabs[x - 1] {
        lemma_stop_before(tabs, x - 1);
    }
}

proof fn lemma_tabs(tabs: Seq<bool>, x: int, n: nat)
    requires
        0 <= x < tabs.len(),
    ensures
        0 <= tab_column(tabs, x, n) < tabs.len(),
        0 <= back_tab_column(tabs, x, n) < tabs.len(),
    decreases n,
{
    if n > 0 {
        let m = (n - 1) as nat;
        lemma_tabs(tabs, x, m);
        lemma_stop_from(tabs, tab_column(tabs, x, m) + 1);
        lemma_stop_before(tabs, min(back_tab_column(tabs, x, m), tabs.len() as int));
    }
}

proof fn lemma_execute(v: TermView, byte: u8)
    requires
        on_screen(v),
        clusters_bounded(v),
    ensures
        steady(v, v.execute(byte)),
{
    reveal(TermView::execute);
    let w = v.marked_dirty();
    lemma_tabs(v.tabs, v.cursor.x, 1);
    lemma_linefeed(w.with_grid(w.grid.scroll_to_bottom()));
}

proof fn lemma_csi_move(v: TermView, params: Seq<Seq<u16>>, action: char)
    requires
        on_screen(v),
        clusters_bounded(v),
    ensures
        steady(v, v.csi_move(params, action)),
{
    lemma_csi_move_frame(v, params, action);
    reveal(TermView::csi_move);
    let n = param(params, 0, 1) as int;
    lemma_tabs(v.tabs, v.cursor.x, super::model::max(n, 1) as nat);
    let w = v.csi_move(params, action);
    assert(inside(v, w.cursor) && inside(v, w.saved_cursor));
}

/// A control sequence that moves the cursor touches nothing but cursors.
proof fn lemma_csi_move_frame(v: TermView, params: Seq<Seq<u16>>, action: char)
    ensures
        ({
            let w = v.csi_move(params, action);
            w == (TermView {
                cursor: w.cursor,
                saved_cursor: w.saved_cursor,
                dirty: w.dirty,
                ..v
            })
        }),
{
    reveal(TermView::csi_move);
}

proof fn lemma_csi_edit(v: TermView, params: Seq<Seq<u16>>, action: char)
    requires
        on_screen(v),
        clusters_bounded(v),
    ensures
        steady(v, v.csi_edit(params, action)),
{
    reveal(TermView::csi_edit);
    reveal(TermView::shifted_right);
    reveal(TermView::erase_in_display);
}

proof fn lemma_sgr_from(v: TermView, params: Seq<Seq<u16>>, i: int)
    requires
        on_screen(v),
        clusters_bounded(v),
    ensures
        steady(v, v.sgr_from(params, i)),
        v.sgr_from(params, i).grid == v.grid,
        v.sgr_from(params, i).cursor == (CursorView {
            pen: v.sgr_from(params, i).cursor.pen,
            ..v.cursor
        }),
    decreases params.len() - i,
{
    if 0 <= i < params.len() {
        let group = params[i];
        let code = if group.len() > 0 {
            group[0]
        } else {
            0
        };
        let pen = v.cursor.pen;
        if code == 38 || code == 48 || code == 58 {
            match super::model::extended_color(params, i) {
                Some((c, used)) => {
                    let w = if code == 38 {
                        v.with_pen(super::cell::Pen { fg: c, ..pen })
                    } else if code == 48 {
                        v.with_pen(super::cell::Pen { bg: c, ..pen })
                    } else {
                        let colors = v.underline_colors.push(c);
                        TermView { underline_colors: colors, ..v }.with_pen(
                            super::cell::Pen { underline: colors.len() as u16, ..pen },
                        )
                    };
                    lemma_sgr_from(w, params, i + super::model::max(used, 1));
                },
                None => {
                    lemma_sgr_from(v, params, i + 1);
                },
            }
        } else {
            lemma_sgr_from(
                v.with_pen(super::model::sgr_pen(pen, code, group)),
                params,
                i + 1,
            );
        }
    }
}

proof fn lemma_alt_screen(v: TermView, enable: bool, save_restore: bool)
    requires
        on_screen(v),
        clusters_bounded(v),
    ensures
        sound(v, v.set_alt_screen(enable, save_restore)),
{
    reveal(TermView::set_alt_screen);
}

/// Does a private mode number change screens?
pub open spec fn changes_screens(number: u16) -> bool {
    number == 47 || number == 1047 || number == 1049
}

proof fn lemma_private_mode(v: TermView, number: u16, enable: bool)
    requires
        on_screen(v),
        clusters_bounded(v),
    ensures
        sound(v, v.set_private_mode(number, enable)),
        !changes_screens(number) ==> steady(v, v.set_private_mode(number, enable)),
{
    reveal(TermView::set_private_mode);
    lemma_alt_screen(v, enable, false);
    lemma_alt_screen(v, enable, true);
    assert(0x08u32 & 0x2000 == 0 && 0x4000u32 & 0x2000 == 0 && 0x01u32 & 0x2000 == 0 && 0x04u32
        & 0x2000 == 0 && 0x200u32 & 0x2000 == 0 && 0x400u32 & 0x2000 == 0 && 0x800u32 & 0x2000 == 0
        && 0x100u32 & 0x2000 == 0 && 0x1000u32 & 0x2000 == 0 && 0x1_0000u32 & 0x2000 == 0 && 0x80u32
        & 0x2000 == 0 && 0x8000u32 & 0x2000 == 0 && 0x02u32 & 0x2000 == 0) by (bit_vector);
    match super::model::private_mode_bit(number) {
        Some(bit) => {
            lemma_other_mode(v.mode, bit, enable);
        },
        None => {
            lemma_other_mode(v.mode, TermMode::ORIGIN, enable);
        },
    }
}

proof fn lemma_ansi_mode(v: TermView, number: u16, enable: bool)
    requires
        on_screen(v),
        clusters_bounded(v),
    ensures
        steady(v, v.set_ansi_mode(number, enable)),
{
    assert(0x20u32 & 0x2000 == 0 && 0x40u32 & 0x2000 == 0) by (bit_vector);
    match super::model::ansi_mode_bit(number) {
        Some(bit) => {
            lemma_other_mode(v.mode, bit, enable);
        },
        None => {},
    }
}

/// Does any of the parameters name a screen change?
pub open spec fn names_screens(params: Seq<Seq<u16>>) -> bool {
    exists|i: int|
        0 <= i < params.len() && #[trigger] head(params[i]) is Some && changes_screens(
            head(params[i])->0,
        )
}

proof fn lemma_modes(v: TermView, params: Seq<Seq<u16>>, n: int, private: bool, enable: bool)
    requires
        on_screen(v),
        clusters_bounded(v),
        n <= params.len(),
    ensures
        sound(v, v.set_modes(params, n, private, enable)),
        !private || !names_screens(params) ==> steady(v, v.set_modes(params, n, private, enable)),
    decreases n,
{
    if n > 0 {
        lemma_modes(v, params, n - 1, private, enable);
        let w = v.set_modes(params, n - 1, private, enable);
        match head(params[n - 1]) {
            Some(number) => {
                lemma_private_mode(w, number, enable);
                lemma_ansi_mode(w, number, enable);
            },
            None => {},
        }
    }
}

/// Is this a control sequence that may change screens?
pub open spec fn screen_sequence(
    params: Seq<Seq<u16>>,
    intermediates: Seq<u8>,
    action: char,
) -> bool {
    (action == 'h' || action == 'l') && intermediates.len() > 0 && intermediates[0] == 0x3F
        && names_screens(params)
}

proof fn lemma_csi_set(v: TermView, params: Seq<Seq<u16>>, intermediates: Seq<u8>, action: char)
    requires
        on_screen(v),
        clusters_bounded(v),
    ensures
        sound(v, v.csi_set(params, intermediates, action)),
        !screen_sequence(params, intermediates, action) ==> steady(
            v,
            v.csi_set(params, intermediates, action),
        ),
{
    reveal(TermView::csi_set);
    reveal(TermView::sgr);
    let private = intermediates.len() > 0 && intermediates[0] == 0x3F;
    lemma_modes(v, params, params.len() as int, private, action == 'h');
    lemma_sgr_from(v, params, 0);
}

proof fn lemma_esc(v: TermView, intermediates: Seq<u8>, ignore: bool, byte: u8)
    requires
        on_screen(v),
        clusters_bounded(v),
    ensures
        sound(v, v.esc(intermediates, ignore, byte)),
        byte != 0x63 ==> steady(v, v.esc(intermediates, ignore, byte)),
{
    reveal(TermView::esc);
    reveal(TermView::reverse_index);
    reveal(TermView::full_reset);
    let w = v.signalled().marked_dirty();
    lemma_linefeed(w);
    lemma_alt_screen(w, false, false);
    assert(0x10u32 & 0x2000 == 0) by (bit_vector);
    lemma_other_mode(v.mode, TermMode::APP_KEYPAD, true);
    lemma_other_mode(v.mode, TermMode::APP_KEYPAD, false);
}

/// May this finding change screens? Only a private mode that names them, and a full reset.
pub open spec fn switches_screens(event: VtEvent) -> bool {
    match event {
        VtEvent::Csi { params, intermediates, ignore, action } => screen_sequence(
            params,
            intermediates,
            action,
        ),
        VtEvent::Esc { byte, .. } => byte == 0x63,
        _ => false,
    }
}

proof fn lemma_performed(v: TermView, event: VtEvent)
    requires
        on_screen(v),
        clusters_bounded(v),
    ensures
        sound(v, v.performed(event)),
        !switches_screens(event) ==> steady(v, v.performed(event)),
{
    match event {
        VtEvent::Print(c) => {
            lemma_print(v, c);
        },
        VtEvent::Execute(byte) => {
            lemma_execute(v, byte);
        },
        VtEvent::Csi { params, intermediates, ignore, action } => {
            reveal(TermView::csi);
            let w = v.signalled().marked_dirty();
            lemma_csi_move(w, params, action);
            lemma_csi_edit(w, params, action);
            lemma_csi_set(w, params, intermediates, action);
        },
        VtEvent::Esc { intermediates, ignore, byte } => {
            lemma_esc(v, intermediates, ignore, byte);
        },
        VtEvent::Osc(params) => {
            reveal(TermView::osc);
        },
        _ => {},
    }
}

/// Nothing in the stream moves the cursor off the screen, changes the screen's size, or breaks the
/// scroll region.
pub proof fn cursor_stays_on_the_screen(v: TermView, event: VtEvent)
    requires
        on_screen(v),
        clusters_bounded(v),
    ensures
        on_screen(v.performed(event)),
        v.performed(event).cols() == v.cols(),
        v.performed(event).rows() == v.rows(),
{
    lemma_performed(v, event);
}

/// However many marks are piled on a character, it keeps at most eight scalars.
pub proof fn clusters_stay_bounded(v: TermView, event: VtEvent)
    requires
        on_screen(v),
        clusters_bounded(v),
    ensures
        clusters_bounded(v.performed(event)),
{
    lemma_performed(v, event);
}

/// Whatever is done on one screen leaves the other one alone, until the screens are changed.
pub proof fn other_screen_is_untouched(v: TermView, event: VtEvent)
    requires
        on_screen(v),
        clusters_bounded(v),
        !switches_screens(event),
    ensures
        v.performed(event).inactive == v.inactive,
{
    lemma_performed(v, event);
}

/// Entering the alternate screen and leaving it brings the primary screen back, its cursor and
/// the mode included; it only has to be drawn again.
pub proof fn alt_screen_round_trips(v: TermView)
    requires
        !v.on(TermMode::ALT_SCREEN),
    ensures
        ({
            let there = v.set_alt_screen(true, true);
            let back = there.set_alt_screen(false, true);
            &&& there.on(TermMode::ALT_SCREEN)
            &&& there.inactive == v.grid
            &&& back.grid == v.grid.damage_all()
            &&& back.cursor == v.cursor
            &&& back.mode == v.mode
        }),
{
    reveal(TermView::set_alt_screen);
    let m = v.mode.0;
    assert((m | 0x2000) & 0x2000 == 0x2000 && (m & 0x2000 != 0x2000 ==> (m | 0x2000) & !0x2000u32
        == m)) by (bit_vector);
}

/// Whatever a program does on the alternate screen, the primary screen comes back as it was when
/// it leaves.
pub proof fn primary_screen_survives(v: TermView, events: Seq<VtEvent>, restore: bool)
    requires
        on_screen(v),
        clusters_bounded(v),
        !v.on(TermMode::ALT_SCREEN),
        forall|i: int| 0 <= i < events.len() ==> !switches_screens(#[trigger] events[i]),
    ensures
        v.set_alt_screen(true, true).performed_all(events).set_alt_screen(false, restore).grid
            == v.grid.damage_all(),
{
    let there = v.set_alt_screen(true, true);
    lemma_alt_screen(v, true, true);
    alt_screen_round_trips(v);
    lemma_steady_run(there, events);
    reveal(TermView::set_alt_screen);
}

/// Findings that do not change screens leave the screens as they were.
proof fn lemma_steady_run(v: TermView, events: Seq<VtEvent>)
    requires
        on_screen(v),
        clusters_bounded(v),
        forall|i: int| 0 <= i < events.len() ==> !switches_screens(#[trigger] events[i]),
    ensures
        steady(v, v.performed_all(events)),
    decreases events.len(),
{
    if events.len() > 0 {
        let before = events.drop_last();
        assert forall|i: int| 0 <= i < before.len() implies !switches_screens(
            #[trigger] before[i],
        ) by {
            assert(before[i] == events[i]);
        }
        lemma_steady_run(v, before);
        lemma_performed(v.performed_all(before), events.last());
    }
}

/// Entering the alternate screen shows an erased screen.
pub proof fn alt_screen_starts_blank(v: TermView, y: int, x: int)
    requires
        v.wf(),
        !v.on(TermMode::ALT_SCREEN),
        0 <= y < v.rows(),
        0 <= x < v.cols(),
    ensures
        v.set_alt_screen(true, true).grid.live(y).cells[x] == blank_of(v.cursor.pen),
{
    reveal(TermView::set_alt_screen);
}

proof fn lemma_wrapped_offset(v: TermView)
    requires
        v.grid.display_offset == 0,
    ensures
        v.wrapped().grid.display_offset == 0,
{
    reveal(TermView::wrapped);
    reveal(TermView::linefeed);
}

proof fn lemma_put_char_offset(v: TermView, c: char, width: int)
    requires
        v.grid.display_offset == 0,
    ensures
        v.put_char(c, width).grid.display_offset == 0,
{
    reveal(TermView::put_char);
    reveal(TermView::drawn);
    reveal(TermView::shifted_right);
    let w = if v.cursor.wrap_pending {
        v.wrapped()
    } else {
        v
    };
    lemma_wrapped_offset(v);
    lemma_wrapped_offset(w.gapped());
}

/// Output brings the viewport back to the live screen.
pub proof fn output_shows_the_live_screen(v: TermView, b: u8, c: char)
    requires
        v.wf(),
    ensures
        v.typed(b).grid.display_offset == 0,
        v.print(c).grid.display_offset == 0,
{
    assert(v.typed(b).grid.display_offset == 0) by {
        reveal(TermView::typed);
        let w = v.output();
        lemma_put_char_offset(w, super::charset::graphics_of(b as char), 1);
        lemma_put_char_offset(w, b as char, 1);
        lemma_put_char_offset(w.within_margin(), b as char, 1);
    }
    assert(v.print(c).grid.display_offset == 0) by {
        reveal(TermView::printed_as);
        let w = v.output().signalled();
        let shown = v.shown(c);
        match display_width(shown) {
            Some(n) => {
                lemma_put_char_offset(w, shown, n as int);
            },
            None => {},
        }
        reveal(TermView::combined);
    }
}

/// The fast path and the slow path agree: a printable byte written directly does what the same
/// character does when it comes through the parser, as one that takes one column, but for the
/// parser's own signal.
pub proof fn fast_path_agrees_with_slow_path(v: TermView, b: u8)
    requires
        v.wf(),
        v.cursor.x < v.cols() || v.cursor.wrap_pending,
    ensures
        v.printed_as(v.shown(b as char), Some(1usize)) == (TermView {
            ground_signal: true,
            ..v.typed(b)
        }),
        display_width(v.shown(b as char)) == Some(1usize) ==> v.print(b as char) == (TermView {
            ground_signal: true,
            ..v.typed(b)
        }),
{
    reveal(TermView::typed);
    reveal(TermView::printed_as);
    lemma_signal_commutes(v.output(), v.shown(b as char));
}

/// Printing a narrow character does not look at the parser's signal.
proof fn lemma_signal_commutes(v: TermView, c: char)
    ensures
        v.signalled().put_char(c, 1) == v.put_char(c, 1).signalled(),
{
    reveal(TermView::put_char);
    reveal(TermView::drawn);
    reveal(TermView::shifted_right);
    reveal(TermView::wrapped);
    reveal(TermView::linefeed);
}

/// A double-width character takes two cells, the second of which carries no glyph, and the cursor
/// moves on by two.
pub proof fn wide_characters_take_two_cells(v: TermView, c: char)
    requires
        v.wf(),
        !v.on(TermMode::INSERT),
        !v.cursor.wrap_pending,
        0 <= v.cursor.y < v.rows(),
        v.cursor.x + 2 < v.cols(),
    ensures
        ({
            let after = v.put_char(c, 2);
            let cells = after.grid.live(v.cursor.y).cells;
            &&& cells[v.cursor.x].ch == c as u32
            &&& cells[v.cursor.x].flags.contains(CellFlags::WIDE)
            &&& cells[v.cursor.x + 1].ch == 0
            &&& cells[v.cursor.x + 1].flags.contains(CellFlags::WIDE_SPACER)
            &&& !cells[v.cursor.x + 1].flags.contains(CellFlags::WIDE)
            &&& after.cursor.x == v.cursor.x + 2
        }),
{
    reveal(TermView::put_char);
    reveal(TermView::drawn);
    let f = v.cursor.pen.flags.0;
    assert((f | 0x2000) & 0x2000 == 0x2000 && (((f | 0x2000) & !0x2000u16) | 0x4000) & 0x4000
        == 0x4000 && (((f | 0x2000) & !0x2000u16) | 0x4000) & 0x2000 != 0x2000) by (bit_vector);
}

/// The wrap at the right margin is deferred: filling the last column leaves the cursor on it, and
/// only the next character goes to the next line.
pub proof fn wrap_is_deferred(v: TermView, c: char, d: char)
    requires
        v.wf(),
        v.on(TermMode::AUTOWRAP),
        !v.cursor.wrap_pending,
        v.cursor.x == v.cols() - 1,
        0 <= v.cursor.y,
        v.cursor.y + 1 < v.rows(),
        v.cursor.y != v.scroll_bot,
    ensures
        v.put_char(c, 1).cursor.x == v.cols() - 1,
        v.put_char(c, 1).cursor.y == v.cursor.y,
        v.put_char(c, 1).put_char(d, 1).cursor.y == v.cursor.y + 1,
        v.put_char(c, 1).put_char(d, 1).grid.live(v.cursor.y).wrapped,
{
    reveal(TermView::put_char);
    reveal(TermView::drawn);
    reveal(TermView::shifted_right);
    reveal(TermView::wrapped);
    reveal(TermView::linefeed);
}

/// Inserting blanks and deleting as many characters at the same place gives the line back, up to
/// what was pushed off its end: there are blanks. No other line changes, and the cursor stays.
pub proof fn delete_undoes_insert(v: TermView, n: int)
    requires
        v.wf(),
        v.cursor.x < v.cols(),
        1 <= n <= v.cols() - v.cursor.x,
    ensures
        ({
            let after = v.shifted_right(v.cursor.x, v.cursor.y, n).delete_chars(n);
            let here = wrap(v.cursor.y, v.grid.cap());
            &&& forall|i: int|
                0 <= i < v.cols() - n ==> #[trigger] after.cursor_row().cells[i]
                    == v.cursor_row().cells[i]
            &&& forall|i: int|
                v.cols() - n <= i < v.cols() ==> #[trigger] after.cursor_row().cells[i] == v.blank()
            &&& forall|k: int|
                0 <= k < v.grid.cap() && k != here ==> #[trigger] after.grid.ring[k]
                    == v.grid.ring[k]
            &&& after.grid.history == v.grid.history
            &&& after.grid.display_offset == v.grid.display_offset
            &&& after.cursor == v.cursor
        }),
{
    reveal(TermView::shifted_right);
    lemma_wrap_is_mod(v.cursor.y, v.grid.cap());
}

/// Printing `a` and then `b` is printing `a` followed by `b`: it makes no difference where a run
/// of printable bytes is cut in two.
pub proof fn runs_can_be_split(v: TermView, a: Seq<u8>, b: Seq<u8>)
    ensures
        v.typed_run(a + b) == v.typed_run(a).typed_run(b),
    decreases b.len(),
{
    if b.len() == 0 {
        assert(a + b =~= a);
    } else {
        runs_can_be_split(v, a, b.drop_last());
        assert((a + b).drop_last() =~= a + b.drop_last());
    }
}

/// Within margins, a line feed at the bottom margin scrolls the region and nothing else: no line
/// outside it changes, and nothing enters scrollback.
pub proof fn margins_confine_scrolling(v: TermView, i: int)
    requires
        v.wf(),
        v.scroll_top > 0 || v.scroll_bot < v.rows() - 1,
        0 <= i < v.grid.total(),
        i < v.grid.history + v.scroll_top || i > v.grid.history + v.scroll_bot,
    ensures
        v.linefeed().grid.line(i) == v.grid.line(i),
        v.linefeed().grid.history == v.grid.history,
{
    reveal(TermView::linefeed);
}

/// Saving the cursor and restoring it gives it back, pen and character sets included.
pub proof fn restoring_brings_the_cursor_back(v: TermView, elsewhere: CursorView)
    ensures
        (TermView { cursor: elsewhere, ..v.save_cursor() }).restore_cursor().cursor == v.cursor,
{
}

/// A full reset leaves the same terminal however often it is done.
pub proof fn reset_is_idempotent(v: TermView)
    requires
        v.wf(),
    ensures
        v.full_reset().full_reset() == v.full_reset(),
        v.full_reset().cursor == CursorView::home(plain_pen()),
        v.full_reset().grid.history == 0,
{
    reveal(TermView::full_reset);
    reveal(TermView::set_alt_screen);
    assert(0x0001_0005u32 & 0x2000 != 0x2000) by (bit_vector);
    let once = v.full_reset();
    assert(once.grid.clear_all(plain_pen()).clear_history() =~= once.grid);
    assert(once.inactive.clear_all(plain_pen()) =~= once.inactive);
}

/// Erasing a whole line leaves nothing but blanks in the pen's background.
pub proof fn erasing_keeps_the_background(v: TermView, x: int)
    requires
        v.wf(),
        0 <= x < v.cols(),
    ensures
        v.erase_in_line(2).cursor_row().cells[x].bg == v.cursor.pen.bg,
        v.erase_in_line(2).cursor_row().cells[x].ch == 0,
{
    lemma_wrap_is_mod(v.cursor.y, v.grid.cap());
}

/// After a change of size the cursor is on the screen, the scroll region is the whole screen, and
/// both screens have the new size.
pub proof fn resizing_keeps_the_cursor_on_the_screen(v: TermView, cols: int, rows: int)
    requires
        v.wf(),
        cols >= 1,
        rows >= 1,
        cols != v.cols() || rows != v.rows(),
    ensures
        ({
            let w = v.resized(cols, rows);
            &&& inside(w, w.cursor)
            &&& w.cols() == cols
            &&& w.rows() == rows
            &&& w.inactive.cols == cols
            &&& w.inactive.rows == rows
            &&& w.scroll_top == 0
            &&& w.scroll_bot == rows - 1
            &&& w.tabs.len() == cols
        }),
{
    reveal(GridView::resized);
    reveal(GridView::reflowed);
    super::grid::lemma_reflowed_on_screen(v.grid, v.cursor.x, v.cursor.y, cols, rows);
}

/// A logical line is copied as one: between two rows of a copied text there is a line break exactly
/// where the first does not continue into the second, and nothing else but what the rows show up to
/// their last character.
pub proof fn wrapped_lines_are_copied_as_one(
    v: TermView,
    line: int,
    start: (int, int),
    end: (int, int),
)
    requires
        start.0 <= line < end.0,
        0 <= start.1 < v.grid.line(start.0).cells.len(),
        v.grid.line(line).cells.len() > 0,
    ensures
        ({
            let r = v.grid.line(line);
            let tail = r.cells.skip(
                if line == start.0 {
                    start.1
                } else {
                    0
                },
            );
            let shown = v.text_of(tail.take(used_len(tail)));
            v.lines_text(start, end, line + 1) == v.lines_text(start, end, line) + (if r.wrapped {
                shown
            } else {
                shown.push('\n')
            })
        }),
{
    let r = v.grid.line(line);
    let from = if line == start.0 {
        start.1
    } else {
        0
    };
    assert(r.cells.subrange(from, r.cells.len() as int) =~= r.cells.skip(from));
}

} // verus!
