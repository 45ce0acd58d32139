//! What a key does.

use vstd::prelude::*;
use vstd::utf8::encode_utf8;

use crate::input::{
    encode_key, key_bytes, Modifiers, VK_END, VK_HOME, VK_NEXT, VK_PRIOR, VK_TAB,
};
use crate::term::cell::{char_from_u32, is_scalar};
use crate::term::model::TermView;
use crate::term::{Term, TermMode};

verus! {

pub const VK_0: u16 = 0x30;

pub const VK_9: u16 = 0x39;

pub const VK_C: u16 = 0x43;

pub const VK_T: u16 = 0x54;

pub const VK_V: u16 = 0x56;

pub const VK_W: u16 = 0x57;

/// What a key press asks for.
pub enum KeyAction {
    /// Put the selected text on the clipboard.
    Copy,
    /// Send what is on the clipboard.
    Paste,
    OpenTab,
    /// Close the tab that is shown.
    CloseTab,
    /// Show the next tab, or the one before.
    CycleTabs(bool),
    /// Show a tab by its position.
    ShowTab(usize),
    /// Move the view; positive is towards history.
    ScrollBy(isize),
    /// Move the view back to the live screen.
    ScrollToEnd,
    /// Send bytes, with the live screen in view.
    Send(Vec<u8>),
    /// Nothing here: leave the key to the system.
    Pass,
}

/// What a key press asks for, with bytes as a sequence.
#[verifier::ext_equal]
pub ghost enum KeyMeaning {
    Copy,
    Paste,
    OpenTab,
    CloseTab,
    CycleTabs(bool),
    ShowTab(int),
    ScrollBy(int),
    ScrollToEnd,
    Send(Seq<u8>),
    Pass,
}

impl View for KeyAction {
    type V = KeyMeaning;

    open spec fn view(&self) -> KeyMeaning {
        match self {
            KeyAction::Copy => KeyMeaning::Copy,
            KeyAction::Paste => KeyMeaning::Paste,
            KeyAction::OpenTab => KeyMeaning::OpenTab,
            KeyAction::CloseTab => KeyMeaning::CloseTab,
            KeyAction::CycleTabs(forward) => KeyMeaning::CycleTabs(*forward),
            KeyAction::ShowTab(i) => KeyMeaning::ShowTab(*i as int),
            KeyAction::ScrollBy(n) => KeyMeaning::ScrollBy(*n as int),
            KeyAction::ScrollToEnd => KeyMeaning::ScrollToEnd,
            KeyAction::Send(bytes) => KeyMeaning::Send(bytes@),
            KeyAction::Pass => KeyMeaning::Pass,
        }
    }
}

/// The keys that Ctrl and Shift together take from the application.
pub open spec fn shortcut(vk: u16) -> Option<KeyMeaning> {
    if vk == VK_C {
        Some(KeyMeaning::Copy)
    } else if vk == VK_V {
        Some(KeyMeaning::Paste)
    } else if vk == VK_T {
        Some(KeyMeaning::OpenTab)
    } else if vk == VK_W {
        Some(KeyMeaning::CloseTab)
    } else {
        None
    }
}

/// The tab that a digit names: 1 to 9 by position, 0 the last.
pub open spec fn numbered_tab(vk: u16, tab_count: int) -> int {
    if vk == VK_0 {
        if tab_count == 0 {
            0
        } else {
            tab_count - 1
        }
    } else {
        vk - VK_0 - 1
    }
}

/// How Shift with a navigation key moves the view: by a screen, to the oldest line, to the end.
pub open spec fn navigation(vk: u16, term: TermView) -> Option<KeyMeaning> {
    if vk == VK_PRIOR {
        Some(KeyMeaning::ScrollBy(term.rows()))
    } else if vk == VK_NEXT {
        Some(KeyMeaning::ScrollBy(-term.rows()))
    } else if vk == VK_HOME {
        Some(KeyMeaning::ScrollBy(term.grid.history))
    } else if vk == VK_END {
        Some(KeyMeaning::ScrollToEnd)
    } else {
        None
    }
}

/// What a key means. Shortcuts come before anything that reaches the application; Ctrl with Tab has
/// to be among them, or the shell would try to complete something.
pub open spec fn key_meaning(
    vk: u16,
    mods: Modifiers,
    term: TermView,
    tab_count: int,
) -> KeyMeaning {
    if mods.ctrl && mods.shift && shortcut(vk) is Some {
        shortcut(vk)->0
    } else if mods.ctrl && vk == VK_TAB {
        KeyMeaning::CycleTabs(!mods.shift)
    } else if mods.alt && !mods.ctrl && VK_0 <= vk <= VK_9 {
        KeyMeaning::ShowTab(numbered_tab(vk, tab_count))
    } else if mods.shift && navigation(vk, term) is Some {
        navigation(vk, term)->0
    } else {
        match key_bytes(vk, mods, term.mode) {
            Some(bytes) => KeyMeaning::Send(bytes),
            None => KeyMeaning::Pass,
        }
    }
}

/// Decide what a key press does.
pub fn key_action(vk: u16, mods: Modifiers, term: &Term, tab_count: usize) -> (a: KeyAction)
    requires
        term.wf(),
    ensures
        a@ == key_meaning(vk, mods, term@, tab_count as int),
{
    if mods.ctrl && mods.shift {
        match vk {
            VK_C => {
                return KeyAction::Copy;
            },
            VK_V => {
                return KeyAction::Paste;
            },
            VK_T => {
                return KeyAction::OpenTab;
            },
            VK_W => {
                return KeyAction::CloseTab;
            },
            _ => {},
        }
    }
    if mods.ctrl && vk == VK_TAB {
        return KeyAction::CycleTabs(!mods.shift);
    }
    if mods.alt && !mods.ctrl && VK_0 <= vk && vk <= VK_9 {
        let index: usize = if vk == VK_0 {
            if tab_count == 0 {
                0
            } else {
                tab_count - 1
            }
        } else {
            (vk - VK_0 - 1) as usize
        };
        return KeyAction::ShowTab(index);
    }
    if mods.shift {
        let page: isize = term.rows() as isize;
        match vk {
            VK_PRIOR => {
                return KeyAction::ScrollBy(page);
            },
            VK_NEXT => {
                return KeyAction::ScrollBy(-page);
            },
            VK_HOME => {
                return KeyAction::ScrollBy(term.grid().history_len() as isize);
            },
            VK_END => {
                return KeyAction::ScrollToEnd;
            },
            _ => {},
        }
    }
    match encode_key(vk, mods, term.modes()) {
        Some(bytes) => KeyAction::Send(bytes),
        None => KeyAction::Pass,
    }
}

/// Shortcuts work whatever the application asked for: no mode changes what they mean.
pub proof fn shortcuts_do_not_depend_on_the_application(
    vk: u16,
    mods: Modifiers,
    a: TermView,
    b: TermView,
    tab_count: int,
)
    requires
        mods.ctrl && mods.shift && shortcut(vk) is Some || mods.ctrl && vk == VK_TAB || mods.alt
            && !mods.ctrl && VK_0 <= vk <= VK_9,
    ensures
        key_meaning(vk, mods, a, tab_count) == key_meaning(vk, mods, b, tab_count),
        !(key_meaning(vk, mods, a, tab_count) is Send),
{
}

/// What a key sends never depends on the tabs.
pub proof fn keys_send_what_they_encode(
    vk: u16,
    mods: Modifiers,
    term: TermView,
    tab_count: int,
    bytes: Seq<u8>,
)
    requires
        key_meaning(vk, mods, term, tab_count) == KeyMeaning::Send(bytes),
    ensures
        key_bytes(vk, mods, term.mode) == Some(bytes),
{
}

/// Shift with Home shows the oldest line there is, and Shift with End the live screen.
pub proof fn shift_reaches_both_ends(mods: Modifiers, term: TermView, tab_count: int)
    requires
        term.wf(),
        mods.shift,
    ensures
        key_meaning(VK_HOME, mods, term, tab_count) == KeyMeaning::ScrollBy(term.grid.history),
        term.scroll_display(term.grid.history).grid.display_offset == term.grid.history,
        key_meaning(VK_END, mods, term, tab_count) == KeyMeaning::ScrollToEnd,
        term.scroll_display(-term.grid.display_offset).grid.display_offset == 0,
{
}

/// The bytes that a typed character sends: itself, after an escape if Alt is held. That prefix is
/// what line editors and full-screen applications expect of Alt.
pub open spec fn typed_bytes(c: char, alt: bool) -> Seq<u8> {
    if alt {
        seq![0x1bu8] + encode_utf8(seq![c])
    } else {
        encode_utf8(seq![c])
    }
}

/// What a character code sends; nothing for half of a surrogate pair.
///
/// Nothing else is left out. Control codes belong to the shell, whether or not a key of their own
/// sends the same one.
pub fn char_input(code: u16, alt: bool) -> (bytes: Option<Vec<u8>>)
    ensures
        match bytes {
            Some(b) => is_scalar(code as u32) && b@ == typed_bytes(code as char, alt),
            None => !is_scalar(code as u32),
        },
{
    match char_from_u32(code as u32) {
        Some(c) => {
            let mut text = String::new();
            text.push(c);
            assert(text@ =~= seq![c]);
            let mut out: Vec<u8> = Vec::new();
            if alt {
                out.push(0x1b);
            }
            let ghost prefix = out@;
            out.extend_from_slice(text.as_str().as_bytes());
            assert(out@ =~= prefix + encode_utf8(seq![c]));
            assert(out@ =~= typed_bytes(c, alt));
            Some(out)
        },
        None => None,
    }
}

/// What an application is told when the window gains or loses the focus, if it asked.
pub open spec fn focus_bytes(mode: TermMode, focused: bool) -> Option<Seq<u8>> {
    if mode.contains(TermMode::FOCUS_REPORT) {
        Some(
            seq![
                0x1bu8,
                0x5b,
                if focused {
                    0x49
                } else {
                    0x4f
                },
            ],
        )
    } else {
        None
    }
}

/// What an application is told when the window gains or loses the focus.
pub fn focus_report(mode: TermMode, focused: bool) -> (bytes: Option<Vec<u8>>)
    ensures
        match bytes {
            Some(b) => focus_bytes(mode, focused) == Some(b@),
            None => focus_bytes(mode, focused) is None,
        },
{
    if !mode.contains(TermMode::FOCUS_REPORT) {
        return None;
    }
    let mut b: Vec<u8> = Vec::new();
    b.push(0x1b);
    b.push(0x5b);
    b.push(
        if focused {
            0x49
        } else {
            0x4f
        },
    );
    assert(b@ =~= focus_bytes(mode, focused)->0);
    Some(b)
}

} // verus!
