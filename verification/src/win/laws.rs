//! What the window does with keys, the mouse and its tabs.

use vstd::prelude::*;
use vstd::utf8::encode_utf8;

use super::geometry::Edge;
use super::install::{bare, names, with_dir};
use super::keys::{focus_bytes, key_meaning, typed_bytes, KeyMeaning};
use super::messages::{answered, meaning, Message};
use super::mouse::{
    moved, pressed, released, screen_place, taken_away, text_place, turned_lines, wheel_meaning,
    Motion, Pointed, Pointer, Press, Release, WheelMeaning,
};
use super::pacing::Pacer;
use super::paste::{keyed, paste_bytes};
use super::selection::{range_between, Selection};
use super::tabs::{label_of, leaf, title_bar, Closed, Tabs};
use super::wide::{before_zero, bytes_of, text_of, units_of};
use crate::input::{key_bytes, Modifiers, MouseButton};
use crate::term::model::TermView;
use crate::term::TermMode;
use crate::text::{ascii_lower, same_ignoring_case, whitespace};
use crate::text_laws::trimmed_texts_stay;

verus! {

/// Ctrl and Shift with C copy, with V paste, with T open a tab and with W close one.
pub proof fn shortcuts_are_taken(mods: Modifiers, term: TermView, tab_count: int)
    requires
        mods.ctrl,
        mods.shift,
    ensures
        key_meaning(0x43, mods, term, tab_count) == KeyMeaning::Copy,
        key_meaning(0x56, mods, term, tab_count) == KeyMeaning::Paste,
        key_meaning(0x54, mods, term, tab_count) == KeyMeaning::OpenTab,
        key_meaning(0x57, mods, term, tab_count) == KeyMeaning::CloseTab,
{
}

/// Ctrl with Tab shows the next tab, and with Shift as well the one before.
pub proof fn ctrl_tab_cycles(mods: Modifiers, term: TermView, tab_count: int)
    requires
        mods.ctrl,
    ensures
        mods.shift ==> key_meaning(0x09, mods, term, tab_count) == KeyMeaning::CycleTabs(false),
        !mods.shift ==> key_meaning(0x09, mods, term, tab_count) == KeyMeaning::CycleTabs(true),
{
}

/// Alt with a digit from 1 to 9 shows the tab at that place, counted from one; with 0 the last.
pub proof fn alt_digits_show_tabs(digit: u16, mods: Modifiers, term: TermView, tab_count: int)
    requires
        mods.alt,
        !mods.ctrl,
        tab_count >= 0,
    ensures
        1 <= digit <= 9 ==> key_meaning((0x30 + digit) as u16, mods, term, tab_count)
            == KeyMeaning::ShowTab(digit - 1),
        tab_count > 0 ==> key_meaning(0x30, mods, term, tab_count) == KeyMeaning::ShowTab(
            tab_count - 1,
        ),
{
}

/// Shift with Page Up and Page Down moves the view by a screen, towards history and back; with Home
/// and End to either end.
pub proof fn shift_moves_the_view(mods: Modifiers, term: TermView, tab_count: int)
    requires
        mods.shift,
    ensures
        key_meaning(0x21, mods, term, tab_count) == KeyMeaning::ScrollBy(term.grid.rows),
        key_meaning(0x22, mods, term, tab_count) == KeyMeaning::ScrollBy(-term.grid.rows),
        key_meaning(0x24, mods, term, tab_count) == KeyMeaning::ScrollBy(term.grid.history),
        key_meaning(0x23, mods, term, tab_count) == KeyMeaning::ScrollToEnd,
{
}

/// Every other key goes to the application, as far as it sends anything.
pub proof fn other_keys_are_sent(vk: u16, mods: Modifiers, term: TermView, tab_count: int)
    requires
        !(mods.ctrl && mods.shift && (vk == 0x43 || vk == 0x56 || vk == 0x54 || vk == 0x57)),
        !(mods.ctrl && vk == 0x09),
        !(mods.alt && !mods.ctrl && 0x30 <= vk <= 0x39),
        !(mods.shift && 0x21 <= vk <= 0x24),
    ensures
        key_bytes(vk, mods, term.mode) is Some ==> key_meaning(vk, mods, term, tab_count)
            == KeyMeaning::Send(key_bytes(vk, mods, term.mode)->0),
        key_bytes(vk, mods, term.mode) is None ==> key_meaning(vk, mods, term, tab_count)
            == KeyMeaning::Pass,
{
}

/// A typed character sends its own bytes; with Alt an escape comes first, and nothing else changes.
pub proof fn characters_send_themselves(c: char)
    ensures
        typed_bytes(c, false) == encode_utf8(seq![c]),
        typed_bytes(c, true).len() == 1 + encode_utf8(seq![c]).len(),
        typed_bytes(c, true)[0] == 0x1B,
        typed_bytes(c, true).skip(1) == encode_utf8(seq![c]),
{
    assert(typed_bytes(c, true).skip(1) =~= encode_utf8(seq![c]));
}

/// An application that asked for it is told `ESC [ I` when the window gains the focus and `ESC [ O`
/// when it loses it; another is told nothing.
pub proof fn focus_is_reported(mode: TermMode)
    ensures
        mode.0 & 0x100 == 0x100 ==> focus_bytes(mode, true) == Some(seq![0x1Bu8, 0x5B, 0x49])
            && focus_bytes(mode, false) == Some(seq![0x1Bu8, 0x5B, 0x4F]),
        mode.0 & 0x100 != 0x100 ==> focus_bytes(mode, true) is None && focus_bytes(mode, false) is None,
{
}

/// A line of a pasted text is sent as it is; what ends it is sent as one carriage return.
pub proof fn pasted_lines_are_typed(s: Seq<char>)
    requires
        forall|i: int| 0 <= i < s.len() ==> #[trigger] s[i] != '\n',
    ensures
        keyed(s) == s,
        keyed(s + seq!['\r', '\n']) == s.push('\r'),
        s.len() == 0 || s.last() != '\r' ==> keyed(s + seq!['\n']) == s.push('\r'),
        keyed(s.push('\r')) == s.push('\r'),
    decreases s.len(),
{
    lemma_unbroken_paste(s);
    let with_return = s.push('\r');
    lemma_unbroken_paste(with_return);
    let both = s + seq!['\r', '\n'];
    assert(both.drop_last() =~= with_return);
    assert(both[both.len() - 2] == '\r');
    let feed = s + seq!['\n'];
    assert(feed.drop_last() =~= s);
    assert(s.len() > 0 ==> feed[feed.len() - 2] == s.last());
}

proof fn lemma_unbroken_paste(s: Seq<char>)
    requires
        forall|i: int| 0 <= i < s.len() ==> #[trigger] s[i] != '\n',
    ensures
        keyed(s) == s,
    decreases s.len(),
{
    if s.len() > 0 {
        let before = s.drop_last();
        assert forall|i: int| 0 <= i < before.len() implies #[trigger] before[i] != '\n' by {
            assert(before[i] == s[i]);
        }
        lemma_unbroken_paste(before);
        assert(s[s.len() - 1] != '\n');
        assert(before.push(s.last()) =~= s);
    }
}

/// Pasting a text is pasting one part and then the other, unless they part a carriage return from the
/// line feed after it.
pub proof fn pastes_add_up(a: Seq<char>, b: Seq<char>)
    requires
        !(a.len() > 0 && b.len() > 0 && a.last() == '\r' && b[0] == '\n'),
    ensures
        keyed(a + b) == keyed(a) + keyed(b),
    decreases b.len(),
{
    let s = a + b;
    if b.len() == 0 {
        assert(s =~= a);
        assert(keyed(a) + keyed(b) =~= keyed(a));
    } else {
        let shorter = b.drop_last();
        assert(s.drop_last() =~= a + shorter);
        assert(s.last() == b.last());
        if b.len() > 1 {
            assert(shorter[0] == b[0]);
            assert(s[s.len() - 2] == b[b.len() - 2]);
        } else if a.len() > 0 {
            assert(s[s.len() - 2] == a.last());
        }
        pastes_add_up(a, shorter);
        assert(keyed(a) + keyed(shorter).push('\r') =~= (keyed(a) + keyed(shorter)).push('\r'));
        assert(keyed(a) + keyed(shorter).push(b.last()) =~= (keyed(a) + keyed(shorter)).push(b.last()));
    }
}

/// An application that asked for it is told where a paste starts, by `ESC [ 2 0 0 ~`, and where it
/// ends, by `ESC [ 2 0 1 ~`; otherwise the text is all that is sent.
pub proof fn pastes_are_bracketed(text: Seq<char>, mode: TermMode)
    ensures
        mode.0 & 0x80 != 0x80 ==> paste_bytes(text, mode) == encode_utf8(keyed(text)),
        mode.0 & 0x80 == 0x80 ==> paste_bytes(text, mode) == seq![0x1Bu8, 0x5B, 0x32, 0x30, 0x30, 0x7E]
            + encode_utf8(keyed(text)) + seq![0x1Bu8, 0x5B, 0x32, 0x30, 0x31, 0x7E],
{
}

/// A tab is named by the last part of its title: what follows the last slash or backslash.
pub proof fn tabs_are_named_by_the_last_part(path: Seq<char>, slash: char, name: Seq<char>)
    requires
        slash == '/' || slash == '\\',
        name.len() > 0,
        forall|i: int| 0 <= i < name.len() ==> #[trigger] name[i] != '/' && name[i] != '\\',
        path.len() > 0 ==> !whitespace(path[0]),
        !whitespace(name.last()),
    ensures
        label_of(path.push(slash) + name) == name,
{
    let title = path.push(slash) + name;
    assert(title.last() == name.last());
    assert(title[0] == (if path.len() > 0 {
        path[0]
    } else {
        slash
    }));
    trimmed_texts_stay(title);
    lemma_leaf_of(path.push(slash), name);
}

proof fn lemma_leaf_of(head: Seq<char>, name: Seq<char>)
    requires
        head.len() == 0 || head.last() == '/' || head.last() == '\\',
        forall|i: int| 0 <= i < name.len() ==> #[trigger] name[i] != '/' && name[i] != '\\',
    ensures
        leaf(head + name) == name,
    decreases name.len(),
{
    let s = head + name;
    if name.len() == 0 {
        assert(s =~= head);
        assert(name =~= Seq::<char>::empty());
    } else {
        let before = name.drop_last();
        assert forall|i: int| 0 <= i < before.len() implies #[trigger] before[i] != '/' && before[i]
            != '\\' by {
            assert(before[i] == name[i]);
        }
        assert(s.drop_last() =~= head + before);
        assert(name[name.len() - 1] != '/');
        lemma_leaf_of(head, before);
        assert(before.push(name.last()) =~= name);
    }
}

/// A title without slashes names its tab as it is, and so does one that ends in a slash; a tab without
/// a title is a shell.
pub proof fn plain_titles_name_their_tabs(title: Seq<char>)
    requires
        title.len() > 0 ==> !whitespace(title[0]) && !whitespace(title.last()),
    ensures
        title.len() == 0 ==> label_of(title) == seq!['s', 'h', 'e', 'l', 'l'],
        (forall|i: int| 0 <= i < title.len() ==> #[trigger] title[i] != '/' && title[i] != '\\')
            && title.len() > 0 ==> label_of(title) == title,
        title.len() > 0 && (title.last() == '/' || title.last() == '\\') ==> label_of(title) == title,
{
    reveal_strlit("shell");
    trimmed_texts_stay(title);
    assert("shell"@ =~= seq!['s', 'h', 'e', 'l', 'l']);
    if forall|i: int| 0 <= i < title.len() ==> #[trigger] title[i] != '/' && title[i] != '\\' {
        lemma_leaf_of(Seq::empty(), title);
        assert(Seq::<char>::empty() + title =~= title);
    }
}

/// The title bar says what the session says, and then the name of the program.
pub proof fn title_bars_name_the_program(title: Seq<char>)
    ensures
        ({
            let name = seq!['T', 'a', 'c', 'h', 'y', 'o', 'n'];
            title_bar(title) == (if title.len() == 0 {
                name
            } else {
                title + seq![' ', '-', ' '] + name
            })
        }),
{
    reveal_strlit("Tachyon");
    reveal_strlit(" - ");
    assert("Tachyon"@ =~= seq!['T', 'a', 'c', 'h', 'y', 'o', 'n']);
    assert(" - "@ =~= seq![' ', '-', ' ']);
}

/// A new tab comes last and is shown. Showing a tab changes no number, and shows it if it is there.
/// Closing one leaves one less; the place that is shown stays, or is the last where there is none.
pub proof fn tabs_are_counted(t: Tabs, index: int)
    requires
        t.wf(),
        t.count < usize::MAX,
        index >= 0,
    ensures
        t.opened().count == t.count + 1,
        t.opened().active == t.count,
        t.selected(index).count == t.count,
        index < t.count ==> t.selected(index).active == index,
        index >= t.count ==> t.selected(index) == t,
        index >= t.count ==> t.closed(index) == t,
        index < t.count ==> t.closed(index).count == t.count - 1,
        index < t.count && t.active < t.count - 1 ==> t.closed(index).active == t.active,
        index < t.count && t.count > 1 && t.active == t.count - 1 ==> t.closed(index).active
            == t.count - 2,
        t.cycled(true).count == t.count,
        t.count == 1 ==> t.cycled(true) == t && t.cycled(false) == t,
{
}

/// On the tab strip the left button shows a tab and the middle one closes it; nothing else happens
/// there.
pub proof fn tabs_are_clicked(p: Pointer, button: MouseButton, at: Pointed, mode: TermMode, shift: bool)
    requires
        at.tab is Some,
    ensures
        ({
            let (after, what) = pressed(p, button, at, mode, shift);
            &&& after == p
            &&& button is Left ==> what == Press::ShowTab(at.tab->0)
            &&& button is Middle ==> what == Press::CloseTab(at.tab->0)
            &&& !(button is Left || button is Middle) ==> what == Press::Nothing
        }),
{
}

/// On the screen of an application that did not ask for the mouse, or with Shift, the left button
/// starts a selection where the mouse is, and the others paste.
pub proof fn text_is_selected_and_pasted(
    p: Pointer,
    button: MouseButton,
    at: Pointed,
    mode: TermMode,
    shift: bool,
)
    requires
        at.tab is None,
        p.held is None,
        shift || mode.0 & 0x0E00 == 0,
    ensures
        ({
            let (after, what) = pressed(p, button, at, mode, shift);
            &&& after.held == p.held && after.cell == p.cell
            &&& button is Left ==> what == Press::Select && after.selection == Some(
                Selection { anchor: at.text, head: at.text, active: true },
            )
            &&& !(button is Left) ==> after == p
            &&& button is Middle || button is Right ==> what == Press::Paste
        }),
{
}

/// A press that is reported is remembered, with the cell it was made in, and leaves the selection as
/// it is.
pub proof fn reported_presses_are_remembered(
    p: Pointer,
    button: MouseButton,
    at: Pointed,
    mode: TermMode,
    shift: bool,
)
    requires
        at.tab is None,
        p.held is Some || !shift && mode.0 & 0x0E00 != 0,
    ensures
        pressed(p, button, at, mode, shift) == (
            Pointer { held: Some(button), cell: at.screen, selection: p.selection },
            Press::Report,
        ),
{
}

/// Motion that an application is to hear of is reported with the button that is held, or with none,
/// whenever the mouse comes to another cell.
pub proof fn motion_is_reported(p: Pointer, at: Pointed, mode: TermMode, shift: bool)
    requires
        p.selection is None || !p.selection->0.active,
        p.held is Some || at.tab is None && !shift && mode.0 & 0x0E00 != 0,
    ensures
        ({
            let (after, what) = moved(p, at, mode, shift);
            &&& at.screen == p.cell ==> after == p && what == Motion::Nothing
            &&& at.screen != p.cell ==> after == (Pointer { cell: at.screen, ..p })
            &&& at.screen != p.cell && p.held is Some ==> what == Motion::Report(p.held->0)
            &&& at.screen != p.cell && p.held is None ==> what == Motion::Report(MouseButton::NoButton)
        }),
{
}

/// Letting go of the button whose press was reported reports that; letting go of the left one
/// otherwise ends the selection, which stays as it is; any other changes nothing.
pub proof fn buttons_are_let_go(p: Pointer, button: MouseButton, at: Pointed)
    ensures
        ({
            let (after, what) = released(p, button, at);
            &&& p.held == Some(button) ==> after == (Pointer {
                held: None,
                cell: at.screen,
                selection: p.selection,
            }) && what == Release::Report
            &&& p.held != Some(button) && button is Left ==> what == Release::Finish && after.held
                == p.held && after.cell == p.cell
            &&& p.held != Some(button) && button is Left && p.selection is Some ==> after.selection
                == Some(
                Selection {
                    anchor: p.selection->0.anchor,
                    head: p.selection->0.head,
                    active: false,
                },
            )
            &&& p.held != Some(button) && button is Left && p.selection is None ==> after.selection
                is None
            &&& p.held != Some(button) && !(button is Left) ==> after == p && what
                == Release::Nothing
        }),
{
}

/// When the mouse is taken away no button is held and no selection goes on, but what is selected
/// stays selected.
pub proof fn lost_mice_finish_what_they_began(p: Pointer)
    ensures
        taken_away(p).held is None,
        taken_away(p).cell == p.cell,
        taken_away(p).selection is Some <==> p.selection is Some,
        p.selection is Some ==> taken_away(p).selection->0 == (Selection {
            anchor: p.selection->0.anchor,
            head: p.selection->0.head,
            active: false,
        }),
{
}

/// What a drag selects, whatever its direction: nothing where it ends where it began; otherwise, in
/// reading order, all from the earlier place on and before the later one. A place in the first column
/// counts as behind its cell.
pub proof fn drags_select_what_lies_between(
    a: (usize, usize),
    b: (usize, usize),
    line: int,
    col: int,
)
    requires
        a.0 < b.0 || a.0 == b.0 && a.1 < b.1,
        line >= 0,
        col >= 0,
    ensures
        range_between(a, a) is None,
        range_between(a, b) is Some,
        range_between(b, a) == range_between(a, b),
        range_between(a, b)->0.covers(line, col) <==> (line > a.0 || line == a.0 && col >= a.1) && (
        line < b.0 || line == b.0 && (col < b.1 || b.1 == 0 && col == 0)),
{
}

/// A notch of the wheel is three lines, and a part of one as much of them, rounded to the nearest.
pub proof fn notches_are_three_lines(notches: int, delta: int)
    ensures
        turned_lines(120 * notches) == 3 * notches,
        delta >= 0 ==> 240 * turned_lines(delta) <= 6 * delta + 120 < 240 * turned_lines(delta) + 240,
        delta >= 0 ==> turned_lines(-delta) == -turned_lines(delta),
{
    let n = if notches >= 0 {
        notches
    } else {
        -notches
    };
    assert((6 * (120 * n) + 120) / 240 == 3 * n);
    assert(-(120 * notches) == 120 * -notches);
}

/// The wheel is reported to an application that asked for the mouse, once for each line; it is sent as
/// cursor keys to one on the alternate screen that wants that; and otherwise it moves the view.
pub proof fn the_wheel_turns(lines: int, mode: TermMode)
    ensures
        ({
            let what = wheel_meaning(lines, mode);
            let mouse = mode.0 & 0x0E00 != 0;
            let keys = mode.contains(0x2000) && mode.contains(0x1_0000);
            let times = if lines < 0 {
                -lines
            } else {
                lines
            };
            let key = seq![
                0x1Bu8,
                if mode.contains(0x08) {
                    0x4Fu8
                } else {
                    0x5Bu8
                },
                if lines > 0 {
                    0x41u8
                } else {
                    0x42u8
                },
            ];
            &&& lines == 0 ==> what == WheelMeaning::Nothing
            &&& lines > 0 && mouse ==> what == WheelMeaning::Report(MouseButton::WheelUp, times)
            &&& lines < 0 && mouse ==> what == WheelMeaning::Report(MouseButton::WheelDown, times)
            &&& lines != 0 && !mouse && keys ==> what == WheelMeaning::Keys(key, times)
            &&& lines != 0 && !mouse && !keys ==> what == WheelMeaning::Scroll(lines)
        }),
{
}

/// A frame is drawn exactly when something changed, no batch of updates that began less than its
/// time ago is under way, and the last frame was long enough ago.
pub proof fn frames_are_drawn_when_due(p: Pacer, now: u64, dirty: bool, syncing: bool)
    requires
        p.sync_since is Some ==> p.sync_since->0 <= now,
        p.last_present <= now,
    ensures
        ({
            let changed = p.needs_redraw || dirty;
            let batch = syncing && (if p.sync_since is Some {
                now - p.sync_since->0 < p.sync_timeout
            } else {
                0 < p.sync_timeout
            });
            let early = p.min_interval is Some && now - p.last_present < p.min_interval->0;
            let after = p.asked(now, dirty, syncing);
            &&& p.draws(now, dirty, syncing) <==> changed && !batch && !early
            &&& after.needs_redraw == (changed && (batch || early))
            &&& changed && syncing && p.sync_since is None ==> after.sync_since == Some(now)
            &&& changed && syncing && p.sync_since is Some ==> after.sync_since == p.sync_since
            &&& changed && !syncing ==> after.sync_since is None
            &&& !changed ==> after == p
            &&& after.last_present == p.last_present && after.blink_on == p.blink_on
        }),
{
}

/// A point in two words: numbers from the upper half of a word are negative.
pub open spec fn word(n: int) -> int {
    if n >= 0x8000 {
        n - 0x1_0000
    } else {
        n
    }
}

/// Messages of the mouse: which button, and where, from two signed words.
pub proof fn mouse_messages_are_read(first: u32, second: u32)
    ensures
        ({
            let x = word(second as int % 0x1_0000) as i32;
            let y = word(second as int / 0x1_0000) as i32;
            let delta = word(first as int / 0x1_0000) as i16;
            let (left, middle, right) = (MouseButton::Left, MouseButton::Middle, MouseButton::Right);
            &&& meaning(0x0200, first, second) == Message::Moved { x, y }
            &&& meaning(0x0201, first, second) == Message::Pressed { button: left, x, y }
            &&& meaning(0x0202, first, second) == Message::Released { button: left, x, y }
            &&& meaning(0x0204, first, second) == Message::Pressed { button: right, x, y }
            &&& meaning(0x0205, first, second) == Message::Released { button: right, x, y }
            &&& meaning(0x0207, first, second) == Message::Pressed { button: middle, x, y }
            &&& meaning(0x0208, first, second) == Message::Released { button: middle, x, y }
            &&& meaning(0x020A, first, second) == Message::Wheel { delta, x, y }
            &&& meaning(0x0215, first, second) == Message::MouseLost
        }),
{
}

/// Messages of the keyboard: the key or the character is in the low word; Alt makes a character a
/// message of its own, and a key as well.
pub proof fn key_messages_are_read(first: u32, second: u32)
    ensures
        ({
            let code = (first as int % 0x1_0000) as u16;
            &&& meaning(0x0100, first, second) == Message::Key(code)
            &&& meaning(0x0104, first, second) == Message::Key(code)
            &&& meaning(0x0102, first, second) == Message::Typed { code, alt: false }
            &&& meaning(0x0106, first, second) == Message::Typed { code, alt: true }
            &&& meaning(0x0007, first, second) == Message::Focused(true)
            &&& meaning(0x0008, first, second) == Message::Focused(false)
        }),
{
}

/// Messages of the window: its size and density, what has to be painted, and its end.
pub proof fn window_messages_are_read(first: u32, second: u32)
    ensures
        ({
            let width = (second as int % 0x1_0000) as u32;
            let height = (second as int / 0x1_0000) as u32;
            let dpi = (first as int % 0x1_0000) as u32;
            &&& meaning(0x0005, first, second) == Message::Resized { width, height }
            &&& meaning(0x02E0, first, second) == Message::Rescaled { dpi }
            &&& meaning(0x0020, first, second) == (if width == 1 {
                Message::PointerShape
            } else {
                Message::Unhandled
            })
            &&& meaning(0x0014, first, second) == Message::Erase
            &&& meaning(0x000F, first, second) == Message::Paint
            &&& meaning(0x0010, first, second) == Message::Close
            &&& meaning(0x0002, first, second) == Message::Destroyed
        }),
{
}

/// A frame is dragged by one of eight edges, counted from the left one; the bottom is the sixth, and
/// what any other number is taken for.
pub proof fn frames_are_dragged_by_an_edge(first: u32, second: u32)
    ensures
        meaning(0x0214, first, second) == Message::Resizing(
            match first {
                1 => Edge::Left,
                2 => Edge::Right,
                3 => Edge::Top,
                4 => Edge::TopLeft,
                5 => Edge::TopRight,
                7 => Edge::BottomLeft,
                8 => Edge::BottomRight,
                _ => Edge::Bottom,
            },
        ),
        Edge::Left.left() && Edge::TopLeft.left() && Edge::BottomLeft.left(),
        !Edge::Right.left() && !Edge::TopRight.left() && !Edge::BottomRight.left() && !Edge::Top.left()
            && !Edge::Bottom.left(),
        Edge::Top.top() && Edge::TopLeft.top() && Edge::TopRight.top(),
        !Edge::Bottom.top() && !Edge::BottomLeft.top() && !Edge::BottomRight.top() && !Edge::Left.top()
            && !Edge::Right.top(),
{
}

/// Code units are read one by one: a unit outside the surrogates is its character, a pair is the
/// character it stands for, and a half that stands alone is marked as unreadable.
pub proof fn units_are_read_in_turn(unit: u16, rest: Seq<u16>)
    ensures
        !(0xD800 <= unit < 0xE000) ==> text_of(seq![unit] + rest) == seq![unit as char] + text_of(rest),
        0xDC00 <= unit < 0xE000 ==> text_of(seq![unit] + rest) == seq!['\u{FFFD}'] + text_of(rest),
        0xD800 <= unit < 0xDC00 && (rest.len() == 0 || !(0xDC00 <= rest[0] < 0xE000)) ==> text_of(
            seq![unit] + rest,
        ) == seq!['\u{FFFD}'] + text_of(rest),
        0xD800 <= unit < 0xDC00 && rest.len() > 0 && 0xDC00 <= rest[0] < 0xE000 ==> text_of(
            seq![unit] + rest,
        ) == seq![(0x1_0000 + 0x400 * (unit - 0xD800) + (rest[0] - 0xDC00)) as char] + text_of(
            rest.skip(1),
        ),
{
    let all = seq![unit] + rest;
    assert(all.skip(1) =~= rest);
    assert(rest.len() > 0 ==> all[1] == rest[0]);
    if rest.len() > 0 {
        assert(all.skip(2) =~= rest.skip(1));
    }
}

/// A text ends at its first zero.
pub proof fn texts_end_at_zero(units: Seq<u16>, rest: Seq<u16>)
    requires
        forall|i: int| 0 <= i < units.len() ==> #[trigger] units[i] != 0,
    ensures
        before_zero(units) == units,
        before_zero(units.push(0) + rest) == units,
    decreases units.len(),
{
    let all = units.push(0) + rest;
    if units.len() > 0 {
        let others = units.skip(1);
        assert forall|i: int| 0 <= i < others.len() implies #[trigger] others[i] != 0 by {
            assert(others[i] == units[i + 1]);
        }
        texts_end_at_zero(others, rest);
        assert(all.skip(1) =~= others.push(0) + rest);
        assert(all[0] == units[0]);
        assert(seq![units[0]] + others =~= units);
    } else {
        assert(units =~= Seq::<u16>::empty());
    }
}

/// Values hold the low byte of a code unit first.
pub proof fn bytes_come_low_first(bytes: Seq<u8>, units: Seq<u16>, i: int)
    ensures
        units_of(bytes).len() == bytes.len() / 2,
        bytes_of(units).len() == 2 * units.len(),
        0 <= i < bytes.len() / 2 ==> units_of(bytes)[i] == bytes[2 * i] + 256 * bytes[2 * i + 1],
        0 <= i < units.len() ==> bytes_of(units)[2 * i] + 256 * bytes_of(units)[2 * i + 1] == units[i],
{
}

/// A directory is named in a search path by itself, whatever the case of its letters, with blanks
/// around it or backslashes behind it.
pub proof fn directories_have_many_names(dir: Seq<char>, entry: Seq<char>)
    requires
        dir.len() > 0,
        dir.last() != '\\',
        !whitespace(dir[0]) && !whitespace(dir.last()),
        same_ignoring_case(entry, dir),
        entry.len() > 0,
        !whitespace(entry[0]) && !whitespace(entry.last()),
    ensures
        names(entry, dir),
        names(entry.push('\\'), dir),
        names(entry.push(' '), dir),
        names(entry, dir.push('\\')),
        names(seq![' '] + entry, dir),
{
    assert(ascii_lower(entry[entry.len() - 1]) == ascii_lower(dir[dir.len() - 1]));
    lemma_no_backslash(entry.last(), dir.last());
    assert(bare(dir) == dir);
    assert(bare(entry) == entry);
    trimmed_texts_stay(entry);
    let slashed = entry.push('\\');
    assert(slashed[0] == entry[0]);
    trimmed_texts_stay(slashed);
    assert(slashed.drop_last() =~= entry);
    assert(dir.push('\\').drop_last() =~= dir);
    assert(entry.push(' ').drop_last() =~= entry);
    let shifted = seq![' '] + entry;
    assert(shifted.last() == entry.last());
    assert(shifted.skip(1) =~= entry);
}

proof fn lemma_no_backslash(a: char, b: char)
    requires
        ascii_lower(a) == ascii_lower(b),
        b != '\\',
    ensures
        a != '\\',
{
    if a == '\\' {
        assert(ascii_lower(a) as u32 == 92);
        if 'A' <= b <= 'Z' {
            assert(ascii_lower(b) as u32 == b as u32 + 32);
        }
    }
}

/// Entries of another length, backslashes and blanks aside, name another directory.
pub proof fn other_entries_name_others(dir: Seq<char>, entry: Seq<char>, i: int)
    requires
        dir.len() > 0 ==> dir.last() != '\\',
        entry.len() > 0 ==> entry.last() != '\\' && !whitespace(entry[0]) && !whitespace(entry.last()),
        entry.len() != dir.len() || 0 <= i < dir.len() && ascii_lower(entry[i]) != ascii_lower(dir[i]),
    ensures
        !names(entry, dir),
{
    trimmed_texts_stay(entry);
    assert(bare(dir) == dir);
    assert(bare(entry) == entry);
}

/// A directory is added behind the others, with a separator between them unless one is there.
pub proof fn directories_are_added_last(path: Seq<char>, dir: Seq<char>)
    ensures
        path.len() == 0 ==> with_dir(path, dir) == dir,
        path.len() > 0 && path.last() == ';' ==> with_dir(path, dir) == path + dir,
        path.len() > 0 && path.last() != ';' ==> with_dir(path, dir) == path + seq![';'] + dir,
{
    assert(path.len() == 0 ==> path + dir =~= dir);
    assert(path.push(';') + dir =~= path + seq![';'] + dir);
}

/// The cursor changes its phase when it has kept one for half a period, 530 milliseconds, and not
/// before; only where it blinks in a window with the focus is that worth a frame.
pub proof fn cursors_blink_in_time(p: Pacer, now: u64, blinking: bool, focused: bool)
    requires
        p.last_blink <= now,
    ensures
        ({
            let after = p.ticked(now, blinking, focused);
            let due = now - p.last_blink >= 530_000_000;
            &&& !due ==> after == p
            &&& due ==> after.blink_on == !p.blink_on && after.last_blink == now
            &&& due && blinking && focused ==> after.needs_redraw
            &&& due && !(blinking && focused) ==> after.needs_redraw == p.needs_redraw
            &&& after.sync_since == p.sync_since && after.last_present == p.last_present
        }),
{
}

/// The window waits no longer than a frame for what was put off, no longer than a blink while the
/// cursor blinks, and a second otherwise.
pub proof fn waiting_has_an_end(p: Pacer, blinking: bool, focused: bool)
    ensures
        p.needs_redraw ==> p.patience(blinking, focused) == 16,
        !p.needs_redraw && blinking && focused ==> p.patience(blinking, focused) == 530,
        !p.needs_redraw && !(blinking && focused) ==> p.patience(blinking, focused) == 1000,
{
}

/// What is not acted on is left to the system, and so is a key that was of no use; every other message
/// is answered.
pub proof fn messages_are_answered(message: Message, used: bool)
    ensures
        message is Unhandled ==> answered(message, used) is None,
        message is Key ==> (answered(message, used) is Some <==> used),
        !(message is Unhandled) && !(message is Key) ==> answered(message, used) is Some,
        message is PointerShape || message is Erase || message is Resizing ==> answered(message, used)
            == Some(1isize),
        message is Resized || message is Focused || message is Typed || message is Wheel || message
            is Pressed || message is Moved || message is Released || message is Paint || message
            is Close ==> answered(message, used) == Some(0isize),
{
}

/// The mouse points at the cell under it; beyond an edge, at the last column or row. For selecting, one
/// column past the end counts too, and lines are counted from the oldest in history.
pub proof fn the_mouse_points_at_cells(term: TermView, col: int, row: int)
    requires
        term.wf(),
        col >= 0,
        row >= 0,
    ensures
        ({
            let (line, x) = text_place(term, col, row);
            let (column, y) = screen_place(term, col, row);
            &&& row < term.rows() ==> y == row && term.grid.line(line) == term.grid.shown(row)
            &&& row >= term.rows() ==> y == term.rows() - 1
            &&& col < term.cols() ==> column == col && x == col
            &&& col >= term.cols() ==> column == term.cols() - 1 && x == term.cols()
        }),
{
}

/// Closing the only tab closes the window; closing one that is not there does nothing.
pub proof fn the_last_tab_closes_the_window(t: Tabs, index: int)
    requires
        t.wf(),
        index >= 0,
    ensures
        index >= t.count ==> t.closing(index) == Closed::NoSuchTab,
        index < t.count && t.closed(index).count == 0 ==> t.closing(index) == Closed::LastTab,
        index < t.count && t.closed(index).count > 0 ==> t.closing(index) == Closed::TabsLeft,
{
}

} // verus!
