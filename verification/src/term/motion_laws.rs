//! What control bytes and sequences do to the cursor, the modes and the pen.
//!
//! Every law speaks of what the escape-sequence parser may find, and of the terminal before and
//! after it.

use vstd::prelude::*;

use super::cell::{CellFlags, Pen};
use super::color::Color;
use super::cursor::{Charset, CursorShape, CursorView};
use super::mode::TermMode;
use super::model::TermView;
use super::vt::VtEvent;

verus! {

/// The number that a control sequence gives in place `i`; nothing and zero both mean `otherwise`.
pub open spec fn number(params: Seq<Seq<u16>>, i: int, otherwise: int) -> int {
    if 0 <= i < params.len() && params[i].len() > 0 && params[i][0] > 0 {
        params[i][0] as int
    } else {
        otherwise
    }
}

/// The terminal after a control sequence without a private marker.
pub open spec fn after(v: TermView, params: Seq<Seq<u16>>, action: char) -> TermView {
    v.performed(
        VtEvent::Csi { params, intermediates: Seq::empty(), ignore: false, action },
    )
}

/// The terminal after a private control sequence.
pub open spec fn after_private(v: TermView, params: Seq<Seq<u16>>, action: char) -> TermView {
    v.performed(
        VtEvent::Csi { params, intermediates: seq![0x3Fu8], ignore: false, action },
    )
}

/// Is `w` the terminal `v` with nothing but the cursor's place changed? A pending wrap is forgotten.
pub open spec fn only_moved(v: TermView, w: TermView, x: int, y: int) -> bool {
    w == TermView {
        cursor: CursorView { x, y, wrap_pending: false, ..v.cursor },
        dirty: true,
        ground_signal: true,
        ..v
    }
}

/// Is `w` the terminal `v` after a control byte that only moves the cursor?
pub open spec fn only_stepped(v: TermView, w: TermView, x: int, y: int) -> bool {
    w == TermView {
        cursor: CursorView { x, y, wrap_pending: false, ..v.cursor },
        dirty: true,
        ..v
    }
}

/// A backspace goes one column to the left, but not past the first. Where a wrap is pending the
/// cursor is already on the character before, and stays. Nothing else changes.
pub proof fn backspace_goes_one_back(v: TermView)
    requires
        v.cursor.x >= 0,
    ensures
        !v.cursor.wrap_pending && v.cursor.x > 0 ==> only_stepped(
            v,
            v.execute(0x08),
            v.cursor.x - 1,
            v.cursor.y,
        ),
        v.cursor.wrap_pending || v.cursor.x == 0 ==> only_stepped(
            v,
            v.execute(0x08),
            v.cursor.x,
            v.cursor.y,
        ),
{
    reveal(TermView::execute);
}

/// A carriage return goes to the first column of the line. Nothing else changes.
pub proof fn carriage_return_goes_to_the_start(v: TermView)
    ensures
        only_stepped(v, v.execute(0x0D), 0, v.cursor.y),
{
    reveal(TermView::execute);
}

/// A tab goes right, over no stop, to a stop or to the last column. Nothing else changes.
pub proof fn tab_goes_to_the_next_stop(v: TermView)
    requires
        v.wf(),
        v.cursor.x < v.cols() - 1,
    ensures
        ({
            let w = v.execute(0x09);
            let x = w.cursor.x;
            &&& only_stepped(v, w, x, v.cursor.y)
            &&& v.cursor.x < x < v.cols()
            &&& v.tabs[x] || x == v.cols() - 1
            &&& forall|k: int| v.cursor.x < k < x ==> !#[trigger] v.tabs[k]
        }),
{
    reveal(TermView::execute);
    lemma_next_stop(v.tabs, v.cursor.x + 1);
    assert(super::model::tab_column(v.tabs, v.cursor.x, 0) == v.cursor.x);
}

proof fn lemma_next_stop(tabs: Seq<bool>, x: int)
    requires
        0 <= x < tabs.len(),
    ensures
        ({
            let to = super::model::stop_from(tabs, x);
            &&& x <= to < tabs.len()
            &&& tabs[to] || to == tabs.len() - 1
            &&& forall|k: int| x <= k < to ==> !#[trigger] tabs[k]
        }),
    decreases tabs.len() - x,
{
    if !tabs[x] {
        if x + 1 < tabs.len() {
            lemma_next_stop(tabs, x + 1);
        } else {
            assert(super::model::stop_from(tabs, x + 1) == tabs.len() - 1);
        }
    }
}

proof fn lemma_stop_behind(tabs: Seq<bool>, x: int)
    requires
        0 <= x <= tabs.len(),
    ensures
        ({
            let to = super::model::stop_before(tabs, x);
            &&& 0 <= to
            &&& x > 0 ==> to < x
            &&& x > 0 ==> tabs[to] || to == 0
            &&& forall|k: int| to < k < x ==> !#[trigger] tabs[k]
        }),
    decreases x,
{
    if x > 0 && !tabs[x - 1] {
        lemma_stop_behind(tabs, x - 1);
    }
}

/// Tabs forward: `n` of them are as good as one and then `n - 1`.
pub proof fn tabs_add_up(v: TermView, n: u16)
    requires
        1 < n,
    ensures
        after(v, seq![seq![n]], 'I') == after(
            after(v, seq![seq![(n - 1) as u16]], 'I'),
            seq![seq![1u16]],
            'I',
        ),
        after(v, seq![seq![1u16]], 'I') == (TermView {
            ground_signal: true,
            ..v.execute(0x09)
        }),
{
    reveal(TermView::execute);
    reveal(TermView::csi);
    reveal(TermView::csi_move);
    let x = v.cursor.x;
    let one = super::model::tab_column(v.tabs, x, (n - 1) as nat);
    assert(super::model::tab_column(v.tabs, one, 0) == one);
    assert(super::model::tab_column(v.tabs, one, 1) == super::model::stop_from(v.tabs, one + 1));
    assert(super::model::tab_column(v.tabs, x, n as nat) == super::model::stop_from(
        v.tabs,
        one + 1,
    ));
}

/// A tab backward goes left, over no stop, to a stop or to the first column; `n` of them are as good
/// as `n - 1` and then one.
pub proof fn back_tab_goes_to_the_stop_before(v: TermView, n: u16)
    requires
        v.wf(),
        0 < v.cursor.x < v.cols(),
        1 < n,
    ensures
        ({
            let w = after(v, seq![seq![1u16]], 'Z');
            let x = w.cursor.x;
            &&& only_moved(v, w, x, v.cursor.y)
            &&& 0 <= x < v.cursor.x
            &&& v.tabs[x] || x == 0
            &&& forall|k: int| x < k < v.cursor.x ==> !#[trigger] v.tabs[k]
        }),
        after(v, seq![seq![n]], 'Z') == after(
            after(v, seq![seq![(n - 1) as u16]], 'Z'),
            seq![seq![1u16]],
            'Z',
        ),
{
    reveal(TermView::csi);
    reveal(TermView::csi_move);
    let x = v.cursor.x;
    lemma_stop_behind(v.tabs, x);
    assert(super::model::back_tab_column(v.tabs, x, 0) == x);
    let one = super::model::back_tab_column(v.tabs, x, (n - 1) as nat);
    assert(super::model::back_tab_column(v.tabs, one, 0) == one);
    assert(super::model::back_tab_column(v.tabs, one, 1) == super::model::stop_before(
        v.tabs,
        super::model::min(one, v.tabs.len() as int),
    ));
}

/// A fresh terminal and one of a new size have a tab stop at every eighth column, and so has one that
/// was reset.
pub proof fn stops_are_eight_apart(v: TermView, cols: int, rows: int, x: int)
    requires
        v.wf(),
        1 <= cols,
        1 <= rows,
        cols != v.cols() || rows != v.rows(),
        0 < x,
    ensures
        x < cols ==> TermView::fresh(cols, rows, 0).tabs[x] == (x % 8 == 0),
        x < cols ==> v.resized(cols, rows).tabs[x] == (x % 8 == 0),
        x < v.cols() ==> v.full_reset().tabs[x] == (x % 8 == 0),
{
    reveal(TermView::full_reset);
}

/// A tab stop is set where the cursor is, cleared there, or all are cleared; no other changes.
pub proof fn stops_are_set_and_cleared(v: TermView, x: int)
    requires
        v.wf(),
        v.cursor.x < v.cols(),
        0 <= x < v.cols(),
    ensures
        ({
            let set = v.performed(
                VtEvent::Esc { intermediates: Seq::empty(), ignore: false, byte: 0x48 },
            );
            let cleared = after(v, Seq::empty(), 'g');
            let none = after(v, seq![seq![3u16]], 'g');
            &&& set.tabs[x] == (v.tabs[x] || x == v.cursor.x)
            &&& cleared.tabs[x] == (v.tabs[x] && x != v.cursor.x)
            &&& !none.tabs[x]
            &&& set == TermView { tabs: set.tabs, dirty: true, ground_signal: true, ..v }
            &&& cleared == TermView { tabs: cleared.tabs, dirty: true, ground_signal: true, ..v }
            &&& none == TermView { tabs: none.tabs, dirty: true, ground_signal: true, ..v }
        }),
{
    reveal(TermView::csi);
    reveal(TermView::csi_set);
    reveal(TermView::esc);
}

/// The bell is counted, and nothing else changes.
pub proof fn bells_are_counted(v: TermView)
    requires
        v.bell_revision < u64::MAX,
    ensures
        v.execute(0x07) == (TermView {
            bell_revision: (v.bell_revision + 1) as u64,
            dirty: true,
            ..v
        }),
{
    reveal(TermView::execute);
}

/// The arrow sequences move the cursor by their number, one where there is none, and stop at the
/// edge of the screen.
pub proof fn arrows_move_the_cursor(v: TermView, params: Seq<Seq<u16>>)
    requires
        v.wf(),
        !v.on(TermMode::ORIGIN),
        v.cursor.x < v.cols(),
        v.cursor.y < v.rows(),
    ensures
        ({
            let n = number(params, 0, 1);
            let (x, y) = (v.cursor.x, v.cursor.y);
            let up = if n <= y {
                y - n
            } else {
                0
            };
            let down = if y + n < v.rows() {
                y + n
            } else {
                v.rows() - 1
            };
            let left = if n <= x {
                x - n
            } else {
                0
            };
            let right = if x + n < v.cols() {
                x + n
            } else {
                v.cols() - 1
            };
            &&& only_moved(v, after(v, params, 'A'), x, up)
            &&& only_moved(v, after(v, params, 'B'), x, down)
            &&& only_moved(v, after(v, params, 'e'), x, down)
            &&& only_moved(v, after(v, params, 'C'), right, y)
            &&& only_moved(v, after(v, params, 'a'), right, y)
            &&& only_moved(v, after(v, params, 'D'), left, y)
            &&& only_moved(v, after(v, params, 'E'), 0, down)
            &&& only_moved(v, after(v, params, 'F'), 0, up)
        }),
{
    reveal(TermView::csi);
    reveal(TermView::csi_move);
}

/// In origin mode, moving up and down stops at the edge of the scroll region.
pub proof fn origin_mode_keeps_the_cursor_in_the_region(v: TermView, params: Seq<Seq<u16>>)
    requires
        v.wf(),
        v.on(TermMode::ORIGIN),
        v.scroll_top <= v.cursor.y <= v.scroll_bot,
    ensures
        ({
            let n = number(params, 0, 1);
            let (x, y) = (v.cursor.x, v.cursor.y);
            let up = if y - n >= v.scroll_top {
                y - n
            } else {
                v.scroll_top
            };
            let down = if y + n <= v.scroll_bot {
                y + n
            } else {
                v.scroll_bot
            };
            &&& only_moved(v, after(v, params, 'A'), x, up)
            &&& only_moved(v, after(v, params, 'B'), x, down)
        }),
{
    reveal(TermView::csi);
    reveal(TermView::csi_move);
}

/// Addressing the cursor puts it there, counted from one at the top left corner, or at the nearest
/// place on the screen. In origin mode rows are counted from the scroll region, and end with it.
pub proof fn the_cursor_is_addressed(v: TermView, params: Seq<Seq<u16>>)
    requires
        v.wf(),
        v.cursor.x < v.cols(),
    ensures
        ({
            let row = number(params, 0, 1);
            let col = number(params, 1, 1);
            let first = if v.on(TermMode::ORIGIN) {
                v.scroll_top
            } else {
                0
            };
            let last = if v.on(TermMode::ORIGIN) {
                v.scroll_bot
            } else {
                v.rows() - 1
            };
            let x = if col <= v.cols() {
                col - 1
            } else {
                v.cols() - 1
            };
            let y = if first + row - 1 <= last {
                first + row - 1
            } else {
                last
            };
            let across = if row <= v.cols() {
                row - 1
            } else {
                v.cols() - 1
            };
            &&& only_moved(v, after(v, params, 'H'), x, y)
            &&& only_moved(v, after(v, params, 'f'), x, y)
            &&& only_moved(v, after(v, params, 'd'), v.cursor.x, y)
            &&& only_moved(v, after(v, params, 'G'), across, v.cursor.y)
            &&& only_moved(v, after(v, params, '`'), across, v.cursor.y)
        }),
{
    reveal(TermView::csi);
    reveal(TermView::csi_move);
}

/// An escape sequence without intermediate bytes.
pub open spec fn after_escape(v: TermView, byte: u8) -> TermView {
    v.performed(VtEvent::Esc { intermediates: Seq::empty(), ignore: false, byte })
}

/// Either way of saving the cursor keeps its place, pen and character sets, and either way of
/// restoring brings all of them back, whatever was done to the cursor in between.
pub proof fn saved_cursors_come_back(v: TermView, moved: CursorView)
    ensures
        ({
            let saved = after(v, Seq::empty(), 's');
            let kept = after_escape(v, 0x37);
            let there = TermView { cursor: moved, ..saved };
            &&& saved == TermView {
                saved_cursor: v.cursor,
                dirty: true,
                ground_signal: true,
                ..v
            }
            &&& kept == saved
            &&& after(there, Seq::empty(), 'u') == TermView { cursor: v.cursor, ..saved }
            &&& after_escape(there, 0x38) == TermView { cursor: v.cursor, ..saved }
        }),
{
    reveal(TermView::csi);
    reveal(TermView::csi_move);
    reveal(TermView::esc);
}

/// The scroll region is set to the rows that are asked for, counted from one, if there are at least
/// two on the screen; the cursor goes home. Without numbers it is the whole screen.
pub proof fn the_region_is_set(v: TermView, params: Seq<Seq<u16>>)
    requires
        v.wf(),
        !v.on(TermMode::ORIGIN),
    ensures
        ({
            let top = number(params, 0, 1) - 1;
            let asked = number(params, 1, v.rows()) - 1;
            let bot = if asked < v.rows() {
                asked
            } else {
                v.rows() - 1
            };
            let w = after(v, params, 'r');
            &&& top < bot ==> only_moved(
                TermView { scroll_top: top, scroll_bot: bot, ..v },
                w,
                0,
                0,
            )
            &&& top >= bot ==> w == TermView { dirty: true, ground_signal: true, ..v }
        }),
{
    reveal(TermView::csi);
    reveal(TermView::csi_set);
}

/// A private mode: its number and its bit.
pub open spec fn private_modes() -> Seq<(u16, u32)> {
    seq![
        (1u16, 0x0008u32),
        (5u16, 0x4000u32),
        (7u16, 0x0001u32),
        (25u16, 0x0004u32),
        (1000u16, 0x0200u32),
        (1002u16, 0x0400u32),
        (1003u16, 0x0800u32),
        (1004u16, 0x0100u32),
        (1006u16, 0x1000u32),
        (1007u16, 0x1_0000u32),
        (2004u16, 0x0080u32),
        (2026u16, 0x8000u32),
    ]
}

/// Setting a private mode switches its bit on and resetting it switches it off. Nothing else
/// changes.
pub proof fn private_modes_are_switched(v: TermView, i: int)
    requires
        0 <= i < 12,
    ensures
        ({
            let (n, bit) = private_modes()[i];
            &&& after_private(v, seq![seq![n]], 'h') == TermView {
                mode: TermMode(v.mode.0 | bit),
                dirty: true,
                ground_signal: true,
                ..v
            }
            &&& after_private(v, seq![seq![n]], 'l') == TermView {
                mode: TermMode(v.mode.0 & !bit),
                dirty: true,
                ground_signal: true,
                ..v
            }
        }),
{
    reveal(TermView::csi);
    reveal(TermView::csi_set);
    reveal(TermView::set_private_mode);
    let (n, bit) = private_modes()[i];
    let w = v.signalled().marked_dirty();
    let params = seq![seq![n]];
    assert(w.set_modes(params, 0, true, true) == w);
    assert(w.set_modes(params, 0, true, false) == w);
}

/// The modes without a private marker: inserting, and line feeds that return to the first column.
pub proof fn plain_modes_are_switched(v: TermView)
    ensures
        after(v, seq![seq![4u16]], 'h').mode.0 == v.mode.0 | 0x20,
        after(v, seq![seq![4u16]], 'l').mode.0 == v.mode.0 & !0x20u32,
        after(v, seq![seq![20u16]], 'h').mode.0 == v.mode.0 | 0x40,
        after(v, seq![seq![20u16]], 'l').mode.0 == v.mode.0 & !0x40u32,
        after_escape(v, 0x3D).mode.0 == v.mode.0 | 0x10,
        after_escape(v, 0x3E).mode.0 == v.mode.0 & !0x10u32,
{
    reveal(TermView::csi);
    reveal(TermView::csi_set);
    reveal(TermView::esc);
    let w = v.signalled().marked_dirty();
    assert(w.set_modes(seq![seq![4u16]], 0, false, true) == w);
    assert(w.set_modes(seq![seq![4u16]], 0, false, false) == w);
    assert(w.set_modes(seq![seq![20u16]], 0, false, true) == w);
    assert(w.set_modes(seq![seq![20u16]], 0, false, false) == w);
}

/// Several modes in one sequence are switched one after the other.
pub proof fn modes_are_switched_in_turn(v: TermView, params: Seq<Seq<u16>>, enable: bool)
    requires
        params.len() > 1,
        params.last().len() > 0,
    ensures
        ({
            let action = if enable {
                'h'
            } else {
                'l'
            };
            after_private(v, params, action) == after_private(
                after_private(v, params.drop_last(), action),
                seq![params.last()],
                action,
            )
        }),
{
    reveal(TermView::csi);
    reveal(TermView::csi_set);
    let w = v.signalled().marked_dirty();
    let n = params.len() as int;
    lemma_modes_prefix(w, params, n - 1, enable);
    let u = w.set_modes(params.drop_last(), n - 1, true, enable);
    lemma_modes_marked(w, params.drop_last(), n - 1, enable);
    let one = seq![params.last()];
    assert(u.set_modes(one, 0, true, enable) == u);
    assert(one[0] == params.last());
    assert(u.signalled().marked_dirty() =~= u);
}

proof fn lemma_modes_prefix(w: TermView, params: Seq<Seq<u16>>, n: int, enable: bool)
    requires
        0 <= n < params.len(),
    ensures
        w.set_modes(params, n, true, enable) == w.set_modes(params.drop_last(), n, true, enable),
    decreases n,
{
    if n > 0 {
        lemma_modes_prefix(w, params, n - 1, enable);
    }
}

proof fn lemma_modes_marked(w: TermView, params: Seq<Seq<u16>>, n: int, enable: bool)
    requires
        w.dirty,
        w.ground_signal,
        n <= params.len(),
    ensures
        w.set_modes(params, n, true, enable).dirty,
        w.set_modes(params, n, true, enable).ground_signal,
    decreases n,
{
    if n > 0 {
        lemma_modes_marked(w, params, n - 1, enable);
        reveal(TermView::set_private_mode);
        reveal(TermView::set_alt_screen);
    }
}

/// Switching origin mode moves the cursor to the top left corner: of the scroll region where it is
/// switched on, of the screen where it is switched off.
pub proof fn origin_mode_sends_the_cursor_home(v: TermView)
    requires
        v.wf(),
    ensures
        ({
            let on = after_private(v, seq![seq![6u16]], 'h');
            let off = after_private(v, seq![seq![6u16]], 'l');
            &&& on.mode.0 == v.mode.0 | 2
            &&& (on.cursor.x, on.cursor.y) == (0int, v.scroll_top)
            &&& on.grid == v.grid
            &&& off.mode.0 == v.mode.0 & !2u32
            &&& (off.cursor.x, off.cursor.y) == (0int, 0int)
            &&& off.grid == v.grid
        }),
{
    reveal(TermView::csi);
    reveal(TermView::csi_set);
    reveal(TermView::set_private_mode);
    let w = v.signalled().marked_dirty();
    let params = seq![seq![6u16]];
    assert(w.set_modes(params, 0, true, true) == w);
    assert(w.set_modes(params, 0, true, false) == w);
    let m = v.mode.0;
    assert((m | 2) & 2 == 2 && (m & !2u32) & 2 != 2) by (bit_vector);
}

/// The alternate screen is reached and left by its three numbers. Only the last of them saves the
/// cursor, sends it home, and brings it back.
pub proof fn screens_are_changed(v: TermView)
    requires
        !v.on(TermMode::ALT_SCREEN),
    ensures
        ({
            let a = after_private(v, seq![seq![47u16]], 'h');
            let b = after_private(v, seq![seq![1047u16]], 'h');
            let c = after_private(v, seq![seq![1049u16]], 'h');
            &&& a == b
            &&& a.on(TermMode::ALT_SCREEN) && c.on(TermMode::ALT_SCREEN)
            &&& a.inactive == v.grid && c.inactive == v.grid
            &&& a.cursor == v.cursor
            &&& (c.cursor.x, c.cursor.y) == (0int, 0int)
            &&& c.cursor.pen == v.cursor.pen
            &&& after_private(a, seq![seq![47u16]], 'l').cursor == v.cursor
            &&& after_private(c, seq![seq![1049u16]], 'l').cursor == v.cursor
            &&& after_private(a, seq![seq![47u16]], 'l').grid == v.grid.damage_all()
            &&& after_private(c, seq![seq![1049u16]], 'l').grid == v.grid.damage_all()
            &&& after_private(c, seq![seq![1049u16]], 'l').mode == v.mode
        }),
{
    reveal(TermView::set_private_mode);
    reveal(TermView::set_alt_screen);
    let m = v.mode.0;
    assert((m | 0x2000) & 0x2000 == 0x2000 && (m & 0x2000 != 0x2000 ==> (m | 0x2000) & !0x2000u32
        == m)) by (bit_vector);
    lemma_one_private_mode(v, 47);
    lemma_one_private_mode(v, 1047);
    lemma_one_private_mode(v, 1049);
    lemma_one_private_mode(after_private(v, seq![seq![47u16]], 'h'), 47);
    lemma_one_private_mode(after_private(v, seq![seq![1049u16]], 'h'), 1049);
}

/// A single private mode is set or reset.
proof fn lemma_one_private_mode(v: TermView, n: u16)
    ensures
        after_private(v, seq![seq![n]], 'h') == v.signalled().marked_dirty().set_private_mode(n, true),
        after_private(v, seq![seq![n]], 'l') == v.signalled().marked_dirty().set_private_mode(n, false),
{
    reveal(TermView::csi);
    reveal(TermView::csi_set);
    let w = v.signalled().marked_dirty();
    let params = seq![seq![n]];
    assert(w.set_modes(params, 0, true, true) == w);
    assert(w.set_modes(params, 0, true, false) == w);
    assert(super::model::head(params[0]) == Some(n));
}

/// Some private modes do other things: the twelfth lets the cursor blink, or not; the third clears the
/// screen and its region, and sends the cursor home; the one thousand and forty-eighth saves the cursor
/// and brings it back. Others do nothing.
pub proof fn other_private_modes_act(v: TermView, n: u16)
    requires
        v.wf(),
    ensures
        after_private(v, seq![seq![12u16]], 'h') == (TermView {
            cursor_blinks: true,
            dirty: true,
            ground_signal: true,
            ..v
        }),
        after_private(v, seq![seq![12u16]], 'l') == (TermView {
            cursor_blinks: false,
            dirty: true,
            ground_signal: true,
            ..v
        }),
        after_private(v, seq![seq![1048u16]], 'h') == (TermView {
            saved_cursor: v.cursor,
            dirty: true,
            ground_signal: true,
            ..v
        }),
        after_private(v, seq![seq![1048u16]], 'l') == (TermView {
            cursor: v.saved_cursor,
            dirty: true,
            ground_signal: true,
            ..v
        }),
        ({
            let w = after_private(v, seq![seq![3u16]], 'h');
            &&& w == after_private(v, seq![seq![3u16]], 'l')
            &&& w.cursor == (CursorView { x: 0, y: 0, ..v.cursor })
            &&& w.scroll_top == 0 && w.scroll_bot == v.rows() - 1
            &&& w.cols() == v.cols() && w.rows() == v.rows() && w.grid.history == v.grid.history
            &&& forall|x: int, y: int|
                0 <= x < v.cols() && 0 <= y < v.rows() ==> (#[trigger] w.grid.live(y).cells[x]).ch == 0
                    && w.grid.live(y).cells[x].bg == v.cursor.pen.bg
        }),
        n != 1 && n != 3 && n != 5 && n != 6 && n != 7 && n != 12 && n != 25 && n != 47 && !(1000 <= n
            <= 1049) && n != 2004 && n != 2026 ==> after_private(v, seq![seq![n]], 'h') == (TermView {
            dirty: true,
            ground_signal: true,
            ..v
        }),
{
    reveal(TermView::set_private_mode);
    lemma_one_private_mode(v, 12);
    lemma_one_private_mode(v, 1048);
    lemma_one_private_mode(v, 3);
    lemma_one_private_mode(v, n);
}

/// Every shape a cursor can be asked to have.
pub proof fn cursors_take_the_shape_asked_for(v: TermView, n: u16)
    ensures
        ({
            let w = v.performed(
                VtEvent::Csi {
                    params: seq![seq![n]],
                    intermediates: seq![0x20u8],
                    ignore: false,
                    action: 'q',
                },
            );
            &&& w.cursor_shape == (if n <= 2 {
                CursorShape::Block
            } else if n <= 4 {
                CursorShape::Underline
            } else {
                CursorShape::Beam
            })
            &&& w.cursor_blinks == (n == 0 || n == 1 || n == 3 || n == 5)
            &&& w == TermView {
                cursor_shape: w.cursor_shape,
                cursor_blinks: w.cursor_blinks,
                dirty: true,
                ground_signal: true,
                ..v
            }
        }),
{
    reveal(TermView::csi);
    reveal(TermView::csi_set);
}

/// Questions are answered behind the answers that already wait, and nothing else changes: that the
/// terminal is ready, where the cursor is, what terminal this is, and how large the screen is.
pub proof fn questions_are_answered(v: TermView)
    requires
        v.wf(),
        !v.on(TermMode::ORIGIN),
    ensures
        ({
            let ready = after(v, seq![seq![5u16]], 'n');
            let place = after(v, seq![seq![6u16]], 'n');
            let kind = after(v, Seq::empty(), 'c');
            let size = after(v, seq![seq![18u16]], 't');
            &&& ready.replies == v.replies + seq![0x1Bu8, '[' as u8, '0' as u8, 'n' as u8]
            &&& place.replies == v.replies + seq![0x1Bu8, '[' as u8] + crate::text::decimal(
                (v.cursor.y + 1) as nat,
            ) + seq![';' as u8] + crate::text::decimal((v.cursor.x + 1) as nat) + seq!['R' as u8]
            &&& kind.replies == v.replies + seq![
                0x1Bu8,
                '[' as u8,
                '?' as u8,
                '6' as u8,
                '2' as u8,
                ';' as u8,
                '2' as u8,
                '2' as u8,
                'c' as u8,
            ]
            &&& size.replies == v.replies + seq![0x1Bu8, '[' as u8, '8' as u8, ';' as u8]
                + crate::text::decimal(v.rows() as nat) + seq![';' as u8] + crate::text::decimal(
                v.cols() as nat,
            ) + seq!['t' as u8]
            &&& place == TermView { replies: place.replies, dirty: true, ground_signal: true, ..v }
        }),
{
    reveal(TermView::csi);
    reveal(TermView::csi_set);
    let ready = after(v, seq![seq![5u16]], 'n');
    assert(ready.replies =~= v.replies + seq![0x1Bu8, '[' as u8, '0' as u8, 'n' as u8]);
    let place = after(v, seq![seq![6u16]], 'n');
    assert(place.replies =~= v.replies + seq![0x1Bu8, '[' as u8] + crate::text::decimal(
        (v.cursor.y + 1) as nat,
    ) + seq![';' as u8] + crate::text::decimal((v.cursor.x + 1) as nat) + seq!['R' as u8]);
    let size = after(v, seq![seq![18u16]], 't');
    assert(size.replies =~= v.replies + seq![0x1Bu8, '[' as u8, '8' as u8, ';' as u8]
        + crate::text::decimal(v.rows() as nat) + seq![';' as u8] + crate::text::decimal(
        v.cols() as nat,
    ) + seq!['t' as u8]);
}

/// The title is what commands 0 and 2 say, and each of them is counted. Other commands change
/// nothing.
pub proof fn titles_are_set(v: TermView, command: Seq<u8>, text: Seq<u8>)
    requires
        v.title_revision < u64::MAX,
    ensures
        ({
            let w = v.performed(VtEvent::Osc(seq![command, text]));
            if command == seq![0x30u8] || command == seq![0x32u8] {
                w == TermView {
                    title: Some(super::vt::lossy_text(text)),
                    title_revision: (v.title_revision + 1) as u64,
                    ground_signal: true,
                    ..v
                }
            } else {
                w == TermView { ground_signal: true, ..v }
            }
        }),
{
    reveal(TermView::osc);
}

/// The character sets: G0 and G1 are designated one by one, and the shift bytes choose between
/// them. The one that is chosen decides how characters look.
pub proof fn character_sets_are_chosen(v: TermView, c: char)
    ensures
        ({
            let set = |first: u8, byte: u8|
                v.performed(
                    VtEvent::Esc { intermediates: seq![first], ignore: false, byte },
                ).cursor;
            &&& set(0x28, 0x30) == CursorView { g0: Charset::Graphics, ..v.cursor }
            &&& set(0x28, 0x42) == CursorView { g0: Charset::Ascii, ..v.cursor }
            &&& set(0x29, 0x30) == CursorView { g1: Charset::Graphics, ..v.cursor }
            &&& set(0x29, 0x42) == CursorView { g1: Charset::Ascii, ..v.cursor }
            &&& v.execute(0x0E).cursor == CursorView { shifted: true, ..v.cursor }
            &&& v.execute(0x0F).cursor == CursorView { shifted: false, ..v.cursor }
            &&& (if v.cursor.shifted {
                v.cursor.g1
            } else {
                v.cursor.g0
            }) == Charset::Ascii ==> v.shown(c) == c
            &&& (if v.cursor.shifted {
                v.cursor.g1
            } else {
                v.cursor.g0
            }) == Charset::Graphics && (c < '_' || c > '~') ==> v.shown(c) == c
            &&& (if v.cursor.shifted {
                v.cursor.g1
            } else {
                v.cursor.g0
            }) == Charset::Graphics && c == 'q' ==> v.shown(c) == '\u{2500}'
            &&& (if v.cursor.shifted {
                v.cursor.g1
            } else {
                v.cursor.g0
            }) == Charset::Graphics && c == 'x' ==> v.shown(c) == '\u{2502}'
        }),
{
    reveal(TermView::esc);
    reveal(TermView::execute);
}

/// The terminal after setting the rendition by one code.
pub open spec fn rendered(v: TermView, code: u16) -> TermView {
    after(v, seq![seq![code]], 'm')
}

/// A rendition code that switches attributes: the code, the attributes it switches, and which way.
pub open spec fn attribute_codes() -> Seq<(u16, u16, bool)> {
    seq![
        (1u16, 0x0001u16, true),
        (2u16, 0x0002u16, true),
        (3u16, 0x0004u16, true),
        (5u16, 0x0100u16, true),
        (6u16, 0x0100u16, true),
        (7u16, 0x0200u16, true),
        (8u16, 0x0400u16, true),
        (9u16, 0x0800u16, true),
        (53u16, 0x1000u16, true),
        (22u16, 0x0003u16, false),
        (23u16, 0x0004u16, false),
        (24u16, 0x00F8u16, false),
        (25u16, 0x0100u16, false),
        (27u16, 0x0200u16, false),
        (28u16, 0x0400u16, false),
        (29u16, 0x0800u16, false),
        (55u16, 0x1000u16, false),
    ]
}

/// One group of the rendition is read at a time.
proof fn lemma_one_code(v: TermView, group: Seq<u16>)
    requires
        group.len() > 0,
        group[0] != 38 && group[0] != 48 && group[0] != 58,
    ensures
        after(v, seq![group], 'm') == v.signalled().marked_dirty().with_pen(
            super::model::sgr_pen(v.cursor.pen, group[0], group),
        ),
{
    reveal(TermView::csi);
    reveal(TermView::csi_set);
    reveal(TermView::sgr);
    let w = v.signalled().marked_dirty();
    let params = seq![group];
    let u = w.with_pen(super::model::sgr_pen(w.cursor.pen, group[0], group));
    assert(w.sgr_from(params, 0) == u.sgr_from(params, 1));
    assert(u.sgr_from(params, 1) == u);
}

/// An attribute code switches its attributes on the pen, and changes nothing else.
pub proof fn attributes_are_switched(v: TermView, i: int)
    requires
        0 <= i < 17,
    ensures
        ({
            let (code, bits, on) = attribute_codes()[i];
            let pen = v.cursor.pen;
            let flags = if on {
                CellFlags(pen.flags.0 | bits)
            } else {
                CellFlags(pen.flags.0 & !bits)
            };
            rendered(v, code) == TermView {
                cursor: CursorView { pen: Pen { flags, ..pen }, ..v.cursor },
                dirty: true,
                ground_signal: true,
                ..v
            }
        }),
{
    let (code, bits, on) = attribute_codes()[i];
    lemma_one_code(v, seq![code]);
    assert((0x0001u16 | 0x0002u16) == 0x0003u16) by (bit_vector);
}

/// An underline has one style at a time: the one that was asked for last.
pub proof fn underlines_have_one_style(v: TermView, style: u16)
    ensures
        ({
            let old = v.cursor.pen.flags.0 & !0x00F8u16;
            let flags = after(v, seq![seq![4u16, style]], 'm').cursor.pen.flags.0;
            let plain = rendered(v, 4).cursor.pen.flags.0;
            &&& plain == old | 0x0008
            &&& rendered(v, 21).cursor.pen.flags.0 == old | 0x0010
            &&& style == 0 ==> flags == old | 0
            &&& style == 1 ==> flags == old | 0x0008
            &&& style == 2 ==> flags == old | 0x0010
            &&& style == 3 ==> flags == old | 0x0020
            &&& style == 4 ==> flags == old | 0x0040
            &&& style == 5 ==> flags == old | 0x0080
        }),
{
    lemma_one_code(v, seq![4u16, style]);
    lemma_one_code(v, seq![4u16]);
    lemma_one_code(v, seq![21u16]);
}

/// The sixteen colours have codes of their own, for the text and for what is behind it; 39 and 49
/// give the defaults back. Nothing but that colour of the pen changes.
pub proof fn colors_have_codes(v: TermView, n: u16)
    requires
        n < 8,
    ensures
        ({
            let pen = v.cursor.pen;
            &&& rendered(v, (30 + n) as u16).cursor.pen == Pen {
                fg: Color::spec_indexed(n as u8),
                ..pen
            }
            &&& rendered(v, (90 + n) as u16).cursor.pen == Pen {
                fg: Color::spec_indexed((n + 8) as u8),
                ..pen
            }
            &&& rendered(v, (40 + n) as u16).cursor.pen == Pen {
                bg: Color::spec_indexed(n as u8),
                ..pen
            }
            &&& rendered(v, (100 + n) as u16).cursor.pen == Pen {
                bg: Color::spec_indexed((n + 8) as u8),
                ..pen
            }
            &&& rendered(v, 39).cursor.pen == Pen { fg: Color(0), ..pen }
            &&& rendered(v, 49).cursor.pen == Pen { bg: Color(0), ..pen }
            &&& rendered(v, 59).cursor.pen == Pen { underline: 0, ..pen }
        }),
{
    lemma_one_code(v, seq![(30 + n) as u16]);
    lemma_one_code(v, seq![(90 + n) as u16]);
    lemma_one_code(v, seq![(40 + n) as u16]);
    lemma_one_code(v, seq![(100 + n) as u16]);
    lemma_one_code(v, seq![39u16]);
    lemma_one_code(v, seq![49u16]);
    lemma_one_code(v, seq![59u16]);
}

/// A reset of the rendition, with or without its number, leaves a plain pen.
pub proof fn renditions_are_reset(v: TermView)
    ensures
        ({
            let plain = Pen { fg: Color(0), bg: Color(0), flags: CellFlags(0), underline: 0 };
            &&& after(v, Seq::empty(), 'm').cursor == CursorView { pen: plain, ..v.cursor }
            &&& rendered(v, 0).cursor == CursorView { pen: plain, ..v.cursor }
        }),
{
    reveal(TermView::csi);
    reveal(TermView::csi_set);
    reveal(TermView::sgr);
    lemma_one_code(v, seq![0u16]);
}

/// A colour can be given by red, green and blue, or by its number, in one parameter or in several.
/// What it is given for is the text, what is behind it, or the underline.
pub proof fn colors_are_given_in_full(v: TermView, r: u8, g: u8, b: u8, space: u16)
    ensures
        ({
            let (x, y, z) = (r as u16, g as u16, b as u16);
            let pen = v.cursor.pen;
            let rgb = Color::spec_rgb(r, g, b);
            let slot = Color::spec_indexed(r);
            &&& after(
                v,
                seq![seq![38u16], seq![2u16], seq![x], seq![y], seq![z]],
                'm',
            ).cursor.pen == Pen { fg: rgb, ..pen }
            &&& after(v, seq![seq![38u16, 2, x, y, z]], 'm').cursor.pen == Pen { fg: rgb, ..pen }
            &&& after(v, seq![seq![38u16, 2, space, x, y, z]], 'm').cursor.pen == Pen {
                fg: rgb,
                ..pen
            }
            &&& after(
                v,
                seq![seq![48u16], seq![2u16], seq![x], seq![y], seq![z]],
                'm',
            ).cursor.pen == Pen { bg: rgb, ..pen }
            &&& after(v, seq![seq![38u16], seq![5u16], seq![x]], 'm').cursor.pen == Pen {
                fg: slot,
                ..pen
            }
            &&& after(v, seq![seq![48u16, 5, x]], 'm').cursor.pen == Pen { bg: slot, ..pen }
            &&& after(v, seq![seq![58u16, 2, space, x, y, z]], 'm').underline_colors
                == v.underline_colors.push(rgb)
            &&& after(v, seq![seq![58u16, 2, space, x, y, z]], 'm').cursor.pen == Pen {
                underline: (v.underline_colors.len() + 1) as u16,
                ..pen
            }
        }),
{
    let (x, y, z) = (r as u16, g as u16, b as u16);
    let rgb = Color::spec_rgb(r, g, b);
    let slot = Color::spec_indexed(r);
    lemma_spread(38, r, g, b);
    lemma_spread(48, r, g, b);
    lemma_grouped(38, space, r, g, b);
    lemma_grouped(58, space, r, g, b);
    lemma_slots(38, r);
    lemma_slots(48, r);
    lemma_after_color(v, seq![seq![38u16], seq![2u16], seq![x], seq![y], seq![z]], rgb);
    lemma_after_color(v, seq![seq![38u16, 2, x, y, z]], rgb);
    lemma_after_color(v, seq![seq![38u16, 2, space, x, y, z]], rgb);
    lemma_after_color(v, seq![seq![48u16], seq![2u16], seq![x], seq![y], seq![z]], rgb);
    lemma_after_color(v, seq![seq![38u16], seq![5u16], seq![x]], slot);
    lemma_after_color(v, seq![seq![48u16, 5, x]], slot);
    lemma_after_color(v, seq![seq![58u16, 2, space, x, y, z]], rgb);
}

proof fn lemma_spread(code: u16, r: u8, g: u8, b: u8)
    ensures
        super::model::extended_color(
            seq![seq![code], seq![2u16], seq![r as u16], seq![g as u16], seq![b as u16]],
            0,
        ) == Some((Color::spec_rgb(r, g, b), 5int)),
{
}

proof fn lemma_grouped(code: u16, space: u16, r: u8, g: u8, b: u8)
    ensures
        super::model::extended_color(
            seq![seq![code, 2u16, r as u16, g as u16, b as u16]],
            0,
        ) == Some((Color::spec_rgb(r, g, b), 1int)),
        super::model::extended_color(
            seq![seq![code, 2u16, space, r as u16, g as u16, b as u16]],
            0,
        ) == Some((Color::spec_rgb(r, g, b), 1int)),
{
}

proof fn lemma_slots(code: u16, n: u8)
    ensures
        super::model::extended_color(seq![seq![code], seq![5u16], seq![n as u16]], 0) == Some(
            (Color::spec_indexed(n), 3int),
        ),
        super::model::extended_color(seq![seq![code, 5u16, n as u16]], 0) == Some(
            (Color::spec_indexed(n), 1int),
        ),
{
}

proof fn lemma_after_color(v: TermView, params: Seq<Seq<u16>>, c: Color)
    requires
        params.len() > 0,
        params[0].len() > 0,
        params[0][0] == 38 || params[0][0] == 48 || params[0][0] == 58,
        super::model::extended_color(params, 0) == Some((c, params.len() as int)),
    ensures
        ({
            let w = after(v, params, 'm');
            let pen = v.cursor.pen;
            &&& params[0][0] == 38 ==> w.cursor.pen == Pen { fg: c, ..pen }
            &&& params[0][0] == 48 ==> w.cursor.pen == Pen { bg: c, ..pen }
            &&& params[0][0] == 58 ==> w.underline_colors == v.underline_colors.push(c)
            &&& params[0][0] == 58 ==> w.cursor.pen == Pen {
                underline: (v.underline_colors.len() + 1) as u16,
                ..pen
            }
        }),
{
    reveal(TermView::csi);
    reveal(TermView::csi_set);
    lemma_last_color(v.signalled().marked_dirty(), params);
}

/// A rendition that is one colour and nothing else.
proof fn lemma_last_color(w: TermView, params: Seq<Seq<u16>>)
    requires
        params.len() > 0,
        params[0].len() > 0,
        params[0][0] == 38 || params[0][0] == 48 || params[0][0] == 58,
        super::model::extended_color(params, 0) matches Some((c, used)) && used == params.len(),
    ensures
        ({
            let (c, _) = super::model::extended_color(params, 0)->0;
            let pen = w.cursor.pen;
            let colors = w.underline_colors.push(c);
            w.sgr(params) == (if params[0][0] == 38 {
                w.with_pen(Pen { fg: c, ..pen })
            } else if params[0][0] == 48 {
                w.with_pen(Pen { bg: c, ..pen })
            } else {
                TermView { underline_colors: colors, ..w }.with_pen(
                    Pen { underline: colors.len() as u16, ..pen },
                )
            })
        }),
{
    reveal(TermView::sgr);
    let (c, _) = super::model::extended_color(params, 0)->0;
    let pen = w.cursor.pen;
    let colors = w.underline_colors.push(c);
    let u = if params[0][0] == 38 {
        w.with_pen(Pen { fg: c, ..pen })
    } else if params[0][0] == 48 {
        w.with_pen(Pen { bg: c, ..pen })
    } else {
        TermView { underline_colors: colors, ..w }.with_pen(
            Pen { underline: colors.len() as u16, ..pen },
        )
    };
    assert(w.sgr_from(params, 0) == u.sgr_from(params, params.len() as int));
    assert(u.sgr_from(params, params.len() as int) == u);
}

/// Several rendition codes in one sequence are the same as one sequence for each.
pub proof fn codes_are_read_in_turn(v: TermView, a: u16, rest: Seq<Seq<u16>>)
    requires
        a != 38 && a != 48 && a != 58,
        rest.len() > 0,
    ensures
        after(v, seq![seq![a]] + rest, 'm') == after(rendered(v, a), rest, 'm'),
{
    reveal(TermView::csi);
    reveal(TermView::csi_set);
    reveal(TermView::sgr);
    lemma_one_code(v, seq![a]);
    let w = v.signalled().marked_dirty();
    let all = seq![seq![a]] + rest;
    let u = w.with_pen(super::model::sgr_pen(w.cursor.pen, a, seq![a]));
    assert(all[0] == seq![a]);
    assert(w.sgr_from(all, 0) == u.sgr_from(all, 1));
    lemma_codes_shift(u, seq![a], rest, 0);
    assert(u.signalled().marked_dirty() =~= u);
}

proof fn lemma_codes_shift(u: TermView, first: Seq<u16>, rest: Seq<Seq<u16>>, i: int)
    requires
        0 <= i,
    ensures
        u.sgr_from(seq![first] + rest, i + 1) == u.sgr_from(rest, i),
    decreases rest.len() - i,
{
    let all = seq![first] + rest;
    if i < rest.len() {
        assert(forall|k: int| 0 <= k < rest.len() ==> all[k + 1] == #[trigger] rest[k]);
        assert(all[i + 1] == rest[i]);
        let group = rest[i];
        let code = if group.len() > 0 {
            group[0]
        } else {
            0
        };
        let pen = u.cursor.pen;
        if code == 38 || code == 48 || code == 58 {
            lemma_color_shift(first, rest, i);
            match super::model::extended_color(rest, i) {
                Some((c, used)) => {
                    let n = super::model::max(used, 1);
                    let colors = u.underline_colors.push(c);
                    let w = if code == 38 {
                        u.with_pen(Pen { fg: c, ..pen })
                    } else if code == 48 {
                        u.with_pen(Pen { bg: c, ..pen })
                    } else {
                        TermView { underline_colors: colors, ..u }.with_pen(
                            Pen { underline: colors.len() as u16, ..pen },
                        )
                    };
                    lemma_codes_shift(w, first, rest, i + n);
                },
                None => {
                    lemma_codes_shift(u, first, rest, i + 1);
                },
            }
        } else {
            lemma_codes_shift(
                u.with_pen(super::model::sgr_pen(pen, code, group)),
                first,
                rest,
                i + 1,
            );
        }
    }
}

proof fn lemma_color_shift(first: Seq<u16>, rest: Seq<Seq<u16>>, i: int)
    requires
        0 <= i < rest.len(),
    ensures
        super::model::extended_color(seq![first] + rest, i + 1) == super::model::extended_color(
            rest,
            i,
        ),
{
    let all = seq![first] + rest;
    assert(all[i + 1] == rest[i]);
    assert(i + 1 < rest.len() ==> all[i + 2] == rest[i + 1]);
    assert(i + 2 < rest.len() ==> all[i + 3] == rest[i + 2]);
    assert(i + 3 < rest.len() ==> all[i + 4] == rest[i + 3]);
    assert(i + 4 < rest.len() ==> all[i + 5] == rest[i + 4]);
}

/// A sequence that was too long to be kept does nothing, and neither does a device control string.
pub proof fn broken_sequences_do_nothing(
    v: TermView,
    params: Seq<Seq<u16>>,
    intermediates: Seq<u8>,
    action: char,
    byte: u8,
)
    ensures
        v.performed(VtEvent::Csi { params, intermediates, ignore: true, action }) == (TermView {
            ground_signal: true,
            ..v
        }),
        v.performed(VtEvent::Esc { intermediates, ignore: true, byte }) == (TermView {
            ground_signal: true,
            ..v
        }),
        v.performed(VtEvent::Hook) == v,
        v.performed(VtEvent::Put(byte)) == v,
        v.performed(VtEvent::Unhook) == (TermView { ground_signal: true, ..v }),
{
    reveal(TermView::csi);
    reveal(TermView::esc);
}

} // verus!
