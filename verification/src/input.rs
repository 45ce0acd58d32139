//! Keyboard and mouse encoding.
//!
//! Text arrives as characters: that is the only path that gets dead keys, input methods and
//! foreign layouts right. Virtual keys are only consulted for keys that have no character (arrows,
//! function keys, navigation), for which an escape sequence is made here.

use vstd::prelude::*;

use crate::term::mode::TermMode;
use crate::text::{decimal, push_decimal};

verus! {

/// The modifier keys that are held.
#[derive(Clone, Copy, PartialEq, Eq, Structural, Debug)]
pub struct Modifiers {
    pub shift: bool,
    pub ctrl: bool,
    pub alt: bool,
}

impl Default for Modifiers {
    fn default() -> (m: Modifiers)
        ensures
            m == (Modifiers { shift: false, ctrl: false, alt: false }),
    {
        Modifiers { shift: false, ctrl: false, alt: false }
    }
}

impl Modifiers {
    #[verifier::allow_in_spec]
    pub fn any(&self) -> bool
        returns
            self.shift || self.ctrl || self.alt,
    {
        self.shift || self.ctrl || self.alt
    }

    /// The modifier parameter of a key sequence: one plus a bit each.
    pub open spec fn parameter(self) -> nat {
        1 + (if self.shift {
            1nat
        } else {
            0
        }) + (if self.alt {
            2nat
        } else {
            0
        }) + (if self.ctrl {
            4nat
        } else {
            0
        })
    }

    fn xterm_param(&self) -> (n: usize)
        ensures
            n == self.parameter(),
    {
        let mut n: usize = 1;
        if self.shift {
            n += 1;
        }
        if self.alt {
            n += 2;
        }
        if self.ctrl {
            n += 4;
        }
        n
    }
}

pub const VK_BACK: u16 = 0x08;

pub const VK_TAB: u16 = 0x09;

pub const VK_RETURN: u16 = 0x0D;

pub const VK_SPACE: u16 = 0x20;

pub const VK_PRIOR: u16 = 0x21;

pub const VK_NEXT: u16 = 0x22;

pub const VK_END: u16 = 0x23;

pub const VK_HOME: u16 = 0x24;

pub const VK_LEFT: u16 = 0x25;

pub const VK_UP: u16 = 0x26;

pub const VK_RIGHT: u16 = 0x27;

pub const VK_DOWN: u16 = 0x28;

pub const VK_INSERT: u16 = 0x2D;

pub const VK_DELETE: u16 = 0x2E;

pub const VK_A: u16 = 0x41;

pub const VK_F1: u16 = 0x70;

pub const VK_F2: u16 = 0x71;

pub const VK_F3: u16 = 0x72;

pub const VK_F4: u16 = 0x73;

pub const VK_F5: u16 = 0x74;

pub const VK_F6: u16 = 0x75;

pub const VK_F7: u16 = 0x76;

pub const VK_F8: u16 = 0x77;

pub const VK_F9: u16 = 0x78;

pub const VK_F10: u16 = 0x79;

pub const VK_F11: u16 = 0x7A;

pub const VK_F12: u16 = 0x7B;

/// The final byte of a cursor key's sequence.
pub open spec fn cursor_final(vk: u16) -> Option<u8> {
    if vk == VK_UP {
        Some(0x41u8)
    } else if vk == VK_DOWN {
        Some(0x42u8)
    } else if vk == VK_RIGHT {
        Some(0x43u8)
    } else if vk == VK_LEFT {
        Some(0x44u8)
    } else if vk == VK_HOME {
        Some(0x48u8)
    } else if vk == VK_END {
        Some(0x46u8)
    } else {
        None
    }
}

/// The number of a key that is addressed by number.
pub open spec fn key_number(vk: u16) -> Option<nat> {
    if vk == VK_INSERT {
        Some(2nat)
    } else if vk == VK_DELETE {
        Some(3nat)
    } else if vk == VK_PRIOR {
        Some(5nat)
    } else if vk == VK_NEXT {
        Some(6nat)
    } else if vk == VK_F5 {
        Some(15nat)
    } else if vk == VK_F6 {
        Some(17nat)
    } else if vk == VK_F7 {
        Some(18nat)
    } else if vk == VK_F8 {
        Some(19nat)
    } else if vk == VK_F9 {
        Some(20nat)
    } else if vk == VK_F10 {
        Some(21nat)
    } else if vk == VK_F11 {
        Some(23nat)
    } else if vk == VK_F12 {
        Some(24nat)
    } else {
        None
    }
}

/// A key sequence that ends in a letter: `CSI 1 ; modifiers final` with modifiers, else
/// `SS3 final` or `CSI final`.
pub open spec fn letter_sequence(last: u8, mods: Modifiers, ss3: bool) -> Seq<u8> {
    if mods.any() {
        seq![0x1Bu8, 0x5B, 0x31, 0x3B] + decimal(mods.parameter()) + seq![last]
    } else if ss3 {
        seq![0x1Bu8, 0x4F, last]
    } else {
        seq![0x1Bu8, 0x5B, last]
    }
}

/// A key sequence with a number: `CSI n ~`, with the modifiers as a second parameter.
pub open spec fn number_sequence(n: nat, mods: Modifiers) -> Seq<u8> {
    if mods.any() {
        seq![0x1Bu8, 0x5B] + decimal(n) + seq![0x3Bu8] + decimal(mods.parameter()) + seq![0x7Eu8]
    } else {
        seq![0x1Bu8, 0x5B] + decimal(n) + seq![0x7Eu8]
    }
}

/// `bytes`, after an escape where Alt is held.
pub open spec fn alt_prefixed(bytes: Seq<u8>, mods: Modifiers) -> Seq<u8> {
    if mods.alt {
        seq![0x1Bu8] + bytes
    } else {
        bytes
    }
}

/// What a key press sends, for a key without a character of its own.
pub open spec fn key_bytes(vk: u16, mods: Modifiers, mode: TermMode) -> Option<Seq<u8>> {
    if cursor_final(vk) is Some {
        Some(letter_sequence(cursor_final(vk)->0, mods, mode.contains(TermMode::APP_CURSOR)))
    } else if VK_F1 <= vk <= VK_F4 {
        Some(letter_sequence((0x50 + (vk - VK_F1)) as u8, mods, true))
    } else if key_number(vk) is Some {
        Some(number_sequence(key_number(vk)->0, mods))
    } else if vk == VK_BACK {
        Some(
            if mods.ctrl {
                seq![0x08u8]
            } else {
                alt_prefixed(seq![0x7Fu8], mods)
            },
        )
    } else if vk == VK_TAB {
        Some(
            if mods.shift {
                seq![0x1Bu8, 0x5B, 0x5A]
            } else {
                alt_prefixed(seq![0x09u8], mods)
            },
        )
    } else if vk == VK_RETURN {
        Some(
            alt_prefixed(
                if mode.contains(TermMode::LINE_FEED_NL) {
                    seq![0x0Du8, 0x0A]
                } else {
                    seq![0x0Du8]
                },
                mods,
            ),
        )
    } else {
        None
    }
}

/// Make a key sequence that ends in a letter.
fn letter_key(last: u8, mods: Modifiers, ss3: bool) -> (v: Vec<u8>)
    ensures
        v@ == letter_sequence(last, mods, ss3),
{
    let mut v: Vec<u8> = Vec::new();
    v.push(0x1B);
    if mods.any() {
        v.push(0x5B);
        v.push(0x31);
        v.push(0x3B);
        push_decimal(&mut v, mods.xterm_param());
    } else if ss3 {
        v.push(0x4F);
    } else {
        v.push(0x5B);
    }
    v.push(last);
    assert(v@ =~= letter_sequence(last, mods, ss3));
    v
}

/// Make a key sequence with a number.
fn number_key(n: usize, mods: Modifiers) -> (v: Vec<u8>)
    ensures
        v@ == number_sequence(n as nat, mods),
{
    let mut v: Vec<u8> = Vec::new();
    v.push(0x1B);
    v.push(0x5B);
    push_decimal(&mut v, n);
    if mods.any() {
        v.push(0x3B);
        push_decimal(&mut v, mods.xterm_param());
    }
    v.push(0x7E);
    assert(v@ =~= number_sequence(n as nat, mods));
    v
}

/// Encode a non-character key press, or `None` if the key produces text.
pub fn encode_key(vk: u16, mods: Modifiers, mode: TermMode) -> (bytes: Option<Vec<u8>>)
    ensures
        match bytes {
            Some(b) => key_bytes(vk, mods, mode) == Some(b@),
            None => key_bytes(vk, mods, mode) is None,
        },
{
    let app_cursor = mode.contains(TermMode::APP_CURSOR);
    let bytes = match vk {
        VK_UP => letter_key(0x41, mods, app_cursor),
        VK_DOWN => letter_key(0x42, mods, app_cursor),
        VK_RIGHT => letter_key(0x43, mods, app_cursor),
        VK_LEFT => letter_key(0x44, mods, app_cursor),
        VK_HOME => letter_key(0x48, mods, app_cursor),
        VK_END => letter_key(0x46, mods, app_cursor),
        VK_INSERT => number_key(2, mods),
        VK_DELETE => number_key(3, mods),
        VK_PRIOR => number_key(5, mods),
        VK_NEXT => number_key(6, mods),
        // F1-F4 keep their historical SS3 encoding when unmodified.
        VK_F1 | VK_F2 | VK_F3 | VK_F4 => letter_key(0x50 + (vk - VK_F1) as u8, mods, true),
        VK_F5 => number_key(15, mods),
        VK_F6 => number_key(17, mods),
        VK_F7 => number_key(18, mods),
        VK_F8 => number_key(19, mods),
        VK_F9 => number_key(20, mods),
        VK_F10 => number_key(21, mods),
        VK_F11 => number_key(23, mods),
        VK_F12 => number_key(24, mods),
        // DEL is the usual erase character; Ctrl makes it the "delete word" variant that shells
        // bind to BS.
        VK_BACK => {
            let mut v: Vec<u8> = Vec::new();
            if mods.ctrl {
                v.push(0x08);
                assert(v@ =~= seq![0x08u8]);
            } else {
                if mods.alt {
                    v.push(0x1B);
                }
                v.push(0x7F);
                assert(v@ =~= alt_prefixed(seq![0x7Fu8], mods));
            }
            v
        },
        // Shift+Tab is "back-tab"; plain Tab is just HT, which shells bind completion to.
        VK_TAB => {
            let mut v: Vec<u8> = Vec::new();
            if mods.shift {
                v.push(0x1B);
                v.push(0x5B);
                v.push(0x5A);
                assert(v@ =~= seq![0x1Bu8, 0x5B, 0x5A]);
            } else {
                if mods.alt {
                    v.push(0x1B);
                }
                v.push(0x09);
                assert(v@ =~= alt_prefixed(seq![0x09u8], mods));
            }
            v
        },
        VK_RETURN => {
            let mut v: Vec<u8> = Vec::new();
            if mods.alt {
                v.push(0x1B);
            }
            v.push(0x0D);
            if mode.contains(TermMode::LINE_FEED_NL) {
                v.push(0x0A);
                assert(v@ =~= alt_prefixed(seq![0x0Du8, 0x0A], mods));
            } else {
                assert(v@ =~= alt_prefixed(seq![0x0Du8], mods));
            }
            v
        },
        _ => {
            return None;
        },
    };
    Some(bytes)
}

/// Mouse buttons that are reported.
#[derive(Clone, Copy, PartialEq, Eq, Structural, Debug)]
pub enum MouseButton {
    Left,
    Middle,
    Right,
    /// No button held. Only meaningful for motion.
    NoButton,
    WheelUp,
    WheelDown,
}

impl MouseButton {
    /// The protocol's button number, before motion and modifier bits.
    pub open spec fn number(self) -> int {
        match self {
            MouseButton::Left => 0,
            MouseButton::Middle => 1,
            MouseButton::Right => 2,
            MouseButton::NoButton => 3,
            MouseButton::WheelUp => 64,
            MouseButton::WheelDown => 65,
        }
    }

    /// Is this the wheel?
    pub open spec fn wheel(self) -> bool {
        self == MouseButton::WheelUp || self == MouseButton::WheelDown
    }

    fn code(self) -> (n: u8)
        ensures
            n == self.number(),
    {
        match self {
            MouseButton::Left => 0,
            MouseButton::Middle => 1,
            MouseButton::Right => 2,
            MouseButton::NoButton => 3,
            MouseButton::WheelUp => 64,
            MouseButton::WheelDown => 65,
        }
    }

    fn is_wheel(self) -> (r: bool)
        ensures
            r == self.wheel(),
    {
        matches!(self, MouseButton::WheelUp | MouseButton::WheelDown)
    }
}

#[derive(Clone, Copy, PartialEq, Eq, Structural, Debug)]
pub enum MouseEventKind {
    Press,
    Release,
    Move,
}

/// Does an application in this mode want to hear of this event?
///
/// Some mouse mode has to be on. The wheel has no release. Motion needs the drag mode or the
/// motion mode, and without a button the motion mode. "No button" cannot be pressed or released.
pub open spec fn mouse_wanted(button: MouseButton, kind: MouseEventKind, mode: TermMode) -> bool {
    &&& mode.intersects(TermMode::ANY_MOUSE)
    &&& button.wheel() ==> kind == MouseEventKind::Press
    &&& kind == MouseEventKind::Move ==> mode.intersects(0x0C00) && (button == MouseButton::NoButton
        ==> mode.contains(TermMode::MOUSE_MOTION))
    &&& kind != MouseEventKind::Move ==> button != MouseButton::NoButton
}

/// What motion and modifiers add to the button number.
pub open spec fn mouse_bits(kind: MouseEventKind, mods: Modifiers) -> int {
    (if kind == MouseEventKind::Move {
        32int
    } else {
        0
    }) + (if mods.shift {
        4int
    } else {
        0
    }) + (if mods.alt {
        8int
    } else {
        0
    }) + (if mods.ctrl {
        16int
    } else {
        0
    })
}

/// The extended report: text, with no limit on positions.
pub open spec fn extended_report(number: int, col: int, row: int, release: bool) -> Seq<u8> {
    seq![0x1Bu8, 0x5B, 0x3C] + decimal(number as nat) + seq![0x3Bu8] + decimal((col + 1) as nat)
        + seq![0x3Bu8] + decimal((row + 1) as nat) + seq![
        if release {
            0x6Du8
        } else {
            0x4Du8
        },
    ]
}

/// The older report: a byte each.
pub open spec fn legacy_report(number: int, col: int, row: int) -> Seq<u8> {
    seq![0x1Bu8, 0x5B, 0x4D, (32 + number) as u8, (32 + col + 1) as u8, (32 + row + 1) as u8]
}

/// What a mouse event sends. Positions count from one. The older form takes positions up to
/// 223, and cannot tell which button was released.
pub open spec fn mouse_bytes(
    button: MouseButton,
    kind: MouseEventKind,
    col: int,
    row: int,
    mods: Modifiers,
    mode: TermMode,
) -> Option<Seq<u8>> {
    let release = kind == MouseEventKind::Release;
    if !mouse_wanted(button, kind, mode) {
        None
    } else if mode.contains(TermMode::MOUSE_SGR) {
        Some(extended_report(button.number() + mouse_bits(kind, mods), col, row, release))
    } else if col + 1 > 223 || row + 1 > 223 {
        None
    } else {
        let number = if release {
            3
        } else {
            button.number()
        };
        Some(legacy_report(number + mouse_bits(kind, mods), col, row))
    }
}

/// Does an application in this mode want to hear of this event?
fn is_wanted(button: MouseButton, kind: MouseEventKind, mode: TermMode) -> (r: bool)
    ensures
        r == mouse_wanted(button, kind, mode),
{
    if !mode.intersects(TermMode::ANY_MOUSE) {
        return false;
    }
    // The wheel has no release; reporting one would look like a button that was let go.
    if button.is_wheel() && kind != MouseEventKind::Press {
        return false;
    }
    if kind == MouseEventKind::Move {
        assert(0x400u32 | 0x800u32 == 0x0C00) by (bit_vector);
        // Bare motion belongs to the motion mode alone.
        mode.intersects(TermMode::MOUSE_DRAG | TermMode::MOUSE_MOTION) && (button
            != MouseButton::NoButton || mode.contains(TermMode::MOUSE_MOTION))
    } else {
        button != MouseButton::NoButton
    }
}

/// What motion and modifiers add to the button number.
fn extra_bits(kind: MouseEventKind, mods: Modifiers) -> (n: u8)
    ensures
        n == mouse_bits(kind, mods),
        n <= 60,
        kind != MouseEventKind::Move ==> n <= 28,
{
    let mut n: u8 = 0;
    if kind == MouseEventKind::Move {
        n += 32;
    }
    if mods.shift {
        n += 4;
    }
    if mods.alt {
        n += 8;
    }
    if mods.ctrl {
        n += 16;
    }
    n
}

fn make_extended(number: usize, col: usize, row: usize, release: bool) -> (v: Vec<u8>)
    requires
        col < usize::MAX,
        row < usize::MAX,
    ensures
        v@ == extended_report(number as int, col as int, row as int, release),
{
    let mut v: Vec<u8> = Vec::new();
    v.push(0x1B);
    v.push(0x5B);
    v.push(0x3C);
    push_decimal(&mut v, number);
    v.push(0x3B);
    push_decimal(&mut v, col + 1);
    v.push(0x3B);
    push_decimal(&mut v, row + 1);
    v.push(
        if release {
            0x6D
        } else {
            0x4D
        },
    );
    assert(v@ =~= extended_report(number as int, col as int, row as int, release));
    v
}

fn make_original(number: u8, col: usize, row: usize) -> (v: Vec<u8>)
    requires
        number <= 128,
        col < 223,
        row < 223,
    ensures
        v@ == legacy_report(number as int, col as int, row as int),
{
    let mut v: Vec<u8> = Vec::new();
    v.push(0x1B);
    v.push(0x5B);
    v.push(0x4D);
    v.push(32 + number);
    v.push(32 + (col + 1) as u8);
    v.push(32 + (row + 1) as u8);
    assert(v@ =~= legacy_report(number as int, col as int, row as int));
    v
}

/// Encode a mouse event for an application that asked for mouse reporting.
///
/// Which events it wants depends on the mode it selected: clicks only, motion while a button is
/// held as well, or any motion.
pub fn encode_mouse(
    button: MouseButton,
    kind: MouseEventKind,
    col: usize,
    row: usize,
    mods: Modifiers,
    mode: TermMode,
) -> (bytes: Option<Vec<u8>>)
    requires
        col < usize::MAX,
        row < usize::MAX,
    ensures
        match bytes {
            Some(b) => mouse_bytes(button, kind, col as int, row as int, mods, mode) == Some(b@),
            None => mouse_bytes(button, kind, col as int, row as int, mods, mode) is None,
        },
{
    if !is_wanted(button, kind, mode) {
        return None;
    }
    let base: u8 = button.code();
    let extra: u8 = extra_bits(kind, mods);
    let release = kind == MouseEventKind::Release;
    if mode.contains(TermMode::MOUSE_SGR) {
        Some(make_extended((base + extra) as usize, col, row, release))
    } else if col >= 223 || row >= 223 {
        // Coordinates are offset by 32 and must fit in a byte.
        None
    } else {
        // There is no way to say which button came up, so a release is button 3. The modifier
        // bits stay.
        let number: u8 = if release {
            3
        } else {
            base
        };
        Some(make_original(number + extra, col, row))
    }
}

/// Nothing is sent to an application that did not ask for the mouse.
pub proof fn mouse_is_silent_unless_asked(
    button: MouseButton,
    kind: MouseEventKind,
    col: int,
    row: int,
    mods: Modifiers,
    mode: TermMode,
)
    requires
        !mode.intersects(TermMode::ANY_MOUSE),
    ensures
        mouse_bytes(button, kind, col, row, mods, mode) is None,
{
}

/// The extended form reports every position, however far out.
pub proof fn extended_mouse_has_no_limit(
    button: MouseButton,
    kind: MouseEventKind,
    col: int,
    row: int,
    mods: Modifiers,
    mode: TermMode,
)
    requires
        mouse_wanted(button, kind, mode),
        mode.contains(TermMode::MOUSE_SGR),
    ensures
        mouse_bytes(button, kind, col, row, mods, mode) is Some,
{
}

/// No two cursor keys send the same plain sequence.
pub proof fn cursor_keys_are_told_apart(a: u16, b: u16, mode: TermMode)
    requires
        cursor_final(a) is Some,
        cursor_final(b) is Some,
        a != b,
    ensures
        ({
            let plain = Modifiers { shift: false, ctrl: false, alt: false };
            key_bytes(a, plain, mode) != key_bytes(b, plain, mode)
        }),
{
    let plain = Modifiers { shift: false, ctrl: false, alt: false };
    let x = key_bytes(a, plain, mode)->0;
    let y = key_bytes(b, plain, mode)->0;
    assert(x[2] == cursor_final(a)->0);
    assert(y[2] == cursor_final(b)->0);
}

} // verus!
