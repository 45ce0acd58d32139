//! Who gets the mouse, and what becomes of it.

use vstd::prelude::*;

use super::selection::{same_cell, Selection};
use crate::input::MouseButton;
use crate::term::model::{min, TermView};
use crate::term::{Term, TermMode};

verus! {

/// Where the mouse points.
#[derive(Clone, Copy)]
pub struct Pointed {
    /// The tab of the strip, if it is on the strip.
    pub tab: Option<usize>,
    /// Absolute line and column, for selecting. One column past the end is allowed.
    pub text: (usize, usize),
    /// Column and row of the screen, for reporting.
    pub screen: (usize, usize),
}

/// The place of the text that the mouse points at: its absolute line, then its column.
pub open spec fn text_place(term: TermView, col: int, row: int) -> (int, int) {
    (
        term.grid.history - term.grid.display_offset + min(row, term.rows() - 1),
        min(col, term.cols()),
    )
}

/// The cell of the screen that the mouse points at: column, then row.
pub open spec fn screen_place(term: TermView, col: int, row: int) -> (int, int) {
    (min(col, term.cols() - 1), min(row, term.rows() - 1))
}

/// The cell at a column and a row of the screen, for selecting: its absolute line, then its column.
pub fn text_cell(term: &Term, col: usize, row: usize) -> (cell: (usize, usize))
    requires
        term.wf(),
    ensures
        (cell.0 as int, cell.1 as int) == text_place(term@, col as int, row as int),
        cell.0 == term@.grid.history - term@.grid.display_offset + min(
            row as int,
            term@.rows() - 1,
        ),
        cell.1 == min(col as int, term@.cols()),
{
    let last: usize = term.rows() - 1;
    let row: usize = if row < last {
        row
    } else {
        last
    };
    let cols: usize = term.cols();
    let col: usize = if col < cols {
        col
    } else {
        cols
    };
    (term.grid().history_len() - term.grid().display_offset() + row, col)
}

/// The cell at a column and a row of the screen, for reporting: column, then row.
///
/// This differs from the cell for selecting in two ways. The column lies inside the screen; the one
/// past the end has no cell to name. And the row counts from the top of the screen, because an
/// application knows nothing of the history above it.
pub fn report_cell(term: &Term, col: usize, row: usize) -> (cell: (usize, usize))
    requires
        term.wf(),
    ensures
        (cell.0 as int, cell.1 as int) == screen_place(term@, col as int, row as int),
        cell.0 == min(col as int, term@.cols() - 1),
        cell.1 == min(row as int, term@.rows() - 1),
{
    let (last_col, last_row): (usize, usize) = (term.cols() - 1, term.rows() - 1);
    (
        if col < last_col {
            col
        } else {
            last_col
        },
        if row < last_row {
            row
        } else {
            last_row
        },
    )
}

/// What the window remembers of the mouse.
#[derive(Clone, Copy)]
pub struct Pointer {
    /// The button whose press was reported. While there is one, its release is owed to the
    /// application, even if it no longer asks for the mouse by then.
    pub held: Option<MouseButton>,
    /// The cell that was reported last. Motion within a cell is not worth reporting: the protocol
    /// cannot express it.
    pub cell: (usize, usize),
    pub selection: Option<Selection>,
}

/// What a button press leads to.
#[derive(Clone, Copy, PartialEq, Eq, Structural, Debug)]
pub enum Press {
    Nothing,
    ShowTab(usize),
    CloseTab(usize),
    /// Report the press at the screen cell, and keep the mouse until the release.
    Report,
    /// A selection starts: draw it, and keep the mouse until the release.
    Select,
    Paste,
}

/// What moving the mouse leads to.
#[derive(Clone, Copy, PartialEq, Eq, Structural, Debug)]
pub enum Motion {
    Nothing,
    /// The selection changed.
    Redraw,
    /// Report the motion at the screen cell, with this button.
    Report(MouseButton),
}

/// What letting a button go leads to.
#[derive(Clone, Copy, PartialEq, Eq, Structural, Debug)]
pub enum Release {
    Nothing,
    /// Report the release at the screen cell, and let the mouse go.
    Report,
    /// Let the mouse go.
    Finish,
}

/// Does an event belong to the application?
///
/// It does while a press of its own is under way. Otherwise the tab strip is never its business,
/// and Shift takes the mouse back from one that asked for it.
pub open spec fn goes_to_application(
    p: Pointer,
    at: Pointed,
    mode: TermMode,
    shift: bool,
) -> bool {
    p.held is Some || (at.tab is None && mode.intersects(TermMode::ANY_MOUSE) && !shift)
}

/// The selection with the button let go.
pub open spec fn settled(s: Option<Selection>) -> Option<Selection> {
    match s {
        Some(sel) => Some(Selection { active: false, ..sel }),
        None => None,
    }
}

/// A button is pressed.
pub open spec fn pressed(
    p: Pointer,
    button: MouseButton,
    at: Pointed,
    mode: TermMode,
    shift: bool,
) -> (Pointer, Press) {
    match at.tab {
        Some(tab) => (
            p,
            if button == MouseButton::Left {
                Press::ShowTab(tab)
            } else if button == MouseButton::Middle {
                Press::CloseTab(tab)
            } else {
                Press::Nothing
            },
        ),
        None => if goes_to_application(p, at, mode, shift) {
            (Pointer { held: Some(button), cell: at.screen, ..p }, Press::Report)
        } else if button == MouseButton::Left {
            (
                Pointer {
                    selection: Some(Selection { anchor: at.text, head: at.text, active: true }),
                    ..p
                },
                Press::Select,
            )
        } else if button == MouseButton::Right || button == MouseButton::Middle {
            (p, Press::Paste)
        } else {
            (p, Press::Nothing)
        },
    }
}

/// The mouse is moved. A selection that is under way wins: the drag began as a selection and has to
/// finish as one, even if the application has asked for the mouse in the meantime.
pub open spec fn moved(p: Pointer, at: Pointed, mode: TermMode, shift: bool) -> (Pointer, Motion) {
    if p.selection is Some && p.selection->0.active {
        let sel = p.selection->0;
        if sel.head == at.text {
            (p, Motion::Nothing)
        } else {
            (
                Pointer { selection: Some(Selection { head: at.text, ..sel }), ..p },
                Motion::Redraw,
            )
        }
    } else if !goes_to_application(p, at, mode, shift) || at.screen == p.cell {
        (p, Motion::Nothing)
    } else {
        (
            Pointer { cell: at.screen, ..p },
            Motion::Report(
                match p.held {
                    Some(button) => button,
                    None => MouseButton::NoButton,
                },
            ),
        )
    }
}

/// A button is let go.
pub open spec fn released(p: Pointer, button: MouseButton, at: Pointed) -> (Pointer, Release) {
    if p.held == Some(button) {
        (Pointer { held: None, cell: at.screen, ..p }, Release::Report)
    } else if button == MouseButton::Left {
        (Pointer { selection: settled(p.selection), ..p }, Release::Finish)
    } else {
        (p, Release::Nothing)
    }
}

/// Something else took the mouse: no release will come, so what was under way ends here.
pub open spec fn taken_away(p: Pointer) -> Pointer {
    Pointer { held: None, selection: settled(p.selection), ..p }
}

impl Pointer {
    /// Nothing held, nothing reported, nothing selected.
    pub fn new() -> (p: Pointer)
        ensures
            p == (Pointer { held: None, cell: (usize::MAX, usize::MAX), selection: None }),
    {
        Pointer { held: None, cell: (usize::MAX, usize::MAX), selection: None }
    }

    fn for_application(&self, at: &Pointed, mode: TermMode, shift: bool) -> (r: bool)
        ensures
            r == goes_to_application(*self, *at, mode, shift),
    {
        if self.held.is_some() {
            return true;
        }
        if at.tab.is_some() {
            return false;
        }
        mode.intersects(TermMode::ANY_MOUSE) && !shift
    }

    /// Let the selection be, with the button no longer held.
    fn settle(&mut self)
        ensures
            *final(self) == (Pointer { selection: settled(old(self).selection), ..*old(self) }),
    {
        if let Some(sel) = self.selection {
            let mut sel = sel;
            sel.active = false;
            self.selection = Some(sel);
        }
    }

    /// A button is pressed.
    pub fn press(&mut self, button: MouseButton, at: &Pointed, mode: TermMode, shift: bool) -> (r:
        Press)
        ensures
            (*final(self), r) == pressed(*old(self), button, *at, mode, shift),
    {
        if let Some(tab) = at.tab {
            return match button {
                MouseButton::Left => Press::ShowTab(tab),
                MouseButton::Middle => Press::CloseTab(tab),
                _ => Press::Nothing,
            };
        }
        if self.for_application(at, mode, shift) {
            self.held = Some(button);
            self.cell = at.screen;
            return Press::Report;
        }
        match button {
            MouseButton::Left => {
                self.selection =
                Some(Selection { anchor: at.text, head: at.text, active: true });
                Press::Select
            },
            MouseButton::Right => Press::Paste,
            MouseButton::Middle => Press::Paste,
            _ => Press::Nothing,
        }
    }

    /// The mouse is moved.
    pub fn motion(&mut self, at: &Pointed, mode: TermMode, shift: bool) -> (r: Motion)
        ensures
            (*final(self), r) == moved(*old(self), *at, mode, shift),
    {
        if let Some(sel) = self.selection {
            if sel.active {
                if same_cell(sel.head, at.text) {
                    return Motion::Nothing;
                }
                let mut sel = sel;
                sel.head = at.text;
                self.selection = Some(sel);
                return Motion::Redraw;
            }
        }
        if !self.for_application(at, mode, shift) || same_cell(at.screen, self.cell) {
            return Motion::Nothing;
        }
        self.cell = at.screen;
        match self.held {
            Some(button) => Motion::Report(button),
            None => Motion::Report(MouseButton::NoButton),
        }
    }

    /// A button is let go.
    pub fn release(&mut self, button: MouseButton, at: &Pointed) -> (r: Release)
        ensures
            (*final(self), r) == released(*old(self), button, *at),
    {
        if let Some(held) = self.held {
            if held == button {
                self.held = None;
                self.cell = at.screen;
                return Release::Report;
            }
        }
        if button == MouseButton::Left {
            self.settle();
            Release::Finish
        } else {
            Release::Nothing
        }
    }

    /// Something else took the mouse.
    pub fn lose(&mut self)
        ensures
            *final(self) == taken_away(*old(self)),
    {
        self.settle();
        self.held = None;
    }

    /// What is selected no longer is: another tab is shown, or its text was moved.
    pub fn deselect(&mut self)
        ensures
            *final(self) == (Pointer { selection: None, ..*old(self) }),
    {
        self.selection = None;
    }
}

/// A press that was reported is followed by its release, whatever the mouse does in between and
/// whatever the application asks for by then; and then nothing is owed any more.
pub proof fn reported_presses_are_released(
    p: Pointer,
    button: MouseButton,
    at: Pointed,
    mode: TermMode,
    shift: bool,
    moves: Seq<(Pointed, TermMode, bool)>,
    last: Pointed,
)
    requires
        pressed(p, button, at, mode, shift).1 == Press::Report,
    ensures
        released(after_moves(pressed(p, button, at, mode, shift).0, moves), button, last).1
            == Release::Report,
        released(after_moves(pressed(p, button, at, mode, shift).0, moves), button, last).0.held
            is None,
{
    lemma_moves_keep_the_button(pressed(p, button, at, mode, shift).0, moves);
}

/// The pointer after some moves.
pub open spec fn after_moves(p: Pointer, moves: Seq<(Pointed, TermMode, bool)>) -> Pointer
    decreases moves.len(),
{
    if moves.len() == 0 {
        p
    } else {
        let before = after_moves(p, moves.drop_last());
        moved(before, moves.last().0, moves.last().1, moves.last().2).0
    }
}

proof fn lemma_moves_keep_the_button(p: Pointer, moves: Seq<(Pointed, TermMode, bool)>)
    ensures
        after_moves(p, moves).held == p.held,
    decreases moves.len(),
{
    if moves.len() > 0 {
        lemma_moves_keep_the_button(p, moves.drop_last());
    }
}

/// An application that asked for the mouse gets every press on the screen that is made without
/// Shift, so that dragging inside it is its own business.
pub proof fn applications_get_the_mouse_they_asked_for(
    p: Pointer,
    button: MouseButton,
    at: Pointed,
    mode: TermMode,
)
    requires
        mode.intersects(TermMode::ANY_MOUSE),
        at.tab is None,
    ensures
        pressed(p, button, at, mode, false).1 == Press::Report,
{
}

/// Shift takes the mouse back: unless a press of its own is under way, the application hears
/// nothing of a press or a motion made with Shift.
pub proof fn shift_takes_the_mouse_back(
    p: Pointer,
    button: MouseButton,
    at: Pointed,
    mode: TermMode,
)
    requires
        p.held is None,
    ensures
        pressed(p, button, at, mode, true).1 != Press::Report,
        !(moved(p, at, mode, true).1 is Report),
{
}

/// An application that did not ask for the mouse hears nothing of it, and neither does one whose
/// user points at the tab strip.
pub proof fn the_mouse_is_ours_unless_asked_for(
    p: Pointer,
    button: MouseButton,
    at: Pointed,
    mode: TermMode,
    shift: bool,
)
    requires
        p.held is None,
        at.tab is Some || !mode.intersects(TermMode::ANY_MOUSE),
    ensures
        pressed(p, button, at, mode, shift).1 != Press::Report,
        !(moved(p, at, mode, shift).1 is Report),
{
}

/// A cell is not reported twice in a row.
pub proof fn motion_is_reported_once(p: Pointer, at: Pointed, mode: TermMode, shift: bool)
    ensures
        moved(moved(p, at, mode, shift).0, at, mode, shift).1 == Motion::Nothing,
{
}

/// A drag that began as a selection stays one until the button is let go.
pub proof fn selections_are_finished(
    p: Pointer,
    at: Pointed,
    mode: TermMode,
    shift: bool,
)
    requires
        p.selection is Some && p.selection->0.active,
    ensures
        !(moved(p, at, mode, shift).1 is Report),
        moved(p, at, mode, shift).0.selection == Some(
            Selection { anchor: p.selection->0.anchor, head: at.text, active: true },
        ),
{
}

/// How many lines one notch of the wheel moves.
pub const LINES_PER_NOTCH: i32 = 3;

/// How much turning one notch counts.
pub const NOTCH: i32 = 120;

/// The lines that a turn of the wheel stands for: three for each notch, rounded to the nearest whole
/// number, halves away from zero. Positive is towards history.
pub open spec fn turned_lines(delta: int) -> int {
    if delta >= 0 {
        (2 * LINES_PER_NOTCH * delta + NOTCH) / (2 * NOTCH)
    } else {
        -((2 * LINES_PER_NOTCH * (-delta) + NOTCH) / (2 * NOTCH))
    }
}

/// The lines that a turn of the wheel stands for.
pub fn wheel_lines(delta: i16) -> (n: i32)
    ensures
        n == turned_lines(delta as int),
        -1000 < n < 1000,
{
    let d: i32 = delta as i32;
    if d >= 0 {
        (2 * LINES_PER_NOTCH * d + NOTCH) / (2 * NOTCH)
    } else {
        -((2 * LINES_PER_NOTCH * (-d) + NOTCH) / (2 * NOTCH))
    }
}

/// What the wheel does.
pub enum Wheel {
    Nothing,
    /// Report this many presses of this button at the screen cell.
    Report(MouseButton, u32),
    /// Send this many times a cursor key.
    Keys(Vec<u8>, u32),
    /// Move the view.
    Scroll(i32),
}

/// What the wheel does, with bytes as a sequence.
#[verifier::ext_equal]
pub ghost enum WheelMeaning {
    Nothing,
    Report(MouseButton, int),
    Keys(Seq<u8>, int),
    Scroll(int),
}

impl View for Wheel {
    type V = WheelMeaning;

    open spec fn view(&self) -> WheelMeaning {
        match self {
            Wheel::Nothing => WheelMeaning::Nothing,
            Wheel::Report(b, n) => WheelMeaning::Report(*b, *n as int),
            Wheel::Keys(bytes, n) => WheelMeaning::Keys(bytes@, *n as int),
            Wheel::Scroll(n) => WheelMeaning::Scroll(*n as int),
        }
    }
}

/// The magnitude of a number.
pub open spec fn magnitude(n: int) -> int {
    if n < 0 {
        -n
    } else {
        n
    }
}

/// What turning the wheel by some lines means.
///
/// An application that owns the mouse gets the wheel too. A full-screen application without a mouse
/// mode still expects it to move the cursor, having no scrollback of its own. Otherwise it moves
/// the view.
pub open spec fn wheel_meaning(lines: int, mode: TermMode) -> WheelMeaning {
    if lines == 0 {
        WheelMeaning::Nothing
    } else if mode.intersects(TermMode::ANY_MOUSE) {
        WheelMeaning::Report(
            if lines > 0 {
                MouseButton::WheelUp
            } else {
                MouseButton::WheelDown
            },
            magnitude(lines),
        )
    } else if mode.contains(TermMode::ALT_SCREEN) && mode.contains(TermMode::ALT_SCROLL) {
        WheelMeaning::Keys(
            seq![
                0x1bu8,
                if mode.contains(TermMode::APP_CURSOR) {
                    0x4f
                } else {
                    0x5b
                },
                if lines > 0 {
                    0x41
                } else {
                    0x42
                },
            ],
            magnitude(lines),
        )
    } else {
        WheelMeaning::Scroll(lines)
    }
}

/// Decide what a turn of the wheel does.
pub fn wheel_action(delta: i16, mode: TermMode) -> (w: Wheel)
    ensures
        w@ == wheel_meaning(turned_lines(delta as int), mode),
{
    let lines: i32 = wheel_lines(delta);
    if lines == 0 {
        return Wheel::Nothing;
    }
    let times: u32 = if lines < 0 {
        (-lines) as u32
    } else {
        lines as u32
    };
    if mode.intersects(TermMode::ANY_MOUSE) {
        let button = if lines > 0 {
            MouseButton::WheelUp
        } else {
            MouseButton::WheelDown
        };
        return Wheel::Report(button, times);
    }
    if mode.contains(TermMode::ALT_SCREEN) && mode.contains(TermMode::ALT_SCROLL) {
        let mut key: Vec<u8> = Vec::new();
        key.push(0x1b);
        key.push(
            if mode.contains(TermMode::APP_CURSOR) {
                0x4f
            } else {
                0x5b
            },
        );
        key.push(
            if lines > 0 {
                0x41
            } else {
                0x42
            },
        );
        assert(key@ =~= wheel_meaning(lines as int, mode)->Keys_0);
        return Wheel::Keys(key, times);
    }
    Wheel::Scroll(lines)
}

/// Turning the wheel one way and then the other as far moves the view back.
pub proof fn turning_back_undoes_turning(delta: int)
    ensures
        turned_lines(-delta) == -turned_lines(delta),
{
}

} // verus!
