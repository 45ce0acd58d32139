//! What keys and the mouse send, byte by byte.

use vstd::prelude::*;

use crate::input::{key_bytes, mouse_bytes, Modifiers, MouseButton, MouseEventKind};
use crate::term::TermMode;
use crate::text::decimal;

verus! {

/// The digit for the modifiers that are held: one more than a sum of powers of two.
pub open spec fn modifier_digit(mods: Modifiers) -> u8 {
    match (mods.shift, mods.alt, mods.ctrl) {
        (false, false, false) => 0x31,
        (true, false, false) => 0x32,
        (false, true, false) => 0x33,
        (true, true, false) => 0x34,
        (false, false, true) => 0x35,
        (true, false, true) => 0x36,
        (false, true, true) => 0x37,
        (true, true, true) => 0x38,
    }
}

/// Numbers below a hundred are written with one digit or two.
proof fn lemma_short_numbers(n: nat)
    requires
        n < 100,
    ensures
        n < 10 ==> decimal(n) == seq![(48 + n) as u8],
        n >= 10 ==> decimal(n) == seq![(48 + n / 10) as u8, (48 + n % 10) as u8],
{
    if n >= 10 {
        assert(decimal(n / 10) == seq![(48 + n / 10) as u8]);
        assert(decimal(n) =~= seq![(48 + n / 10) as u8, (48 + n % 10) as u8]);
    }
}

/// The keys with a letter, and the letters: Up, Down, Right, Left, End, Home.
pub open spec fn cursor_keys() -> Seq<(u16, u8)> {
    seq![
        (0x26u16, 0x41u8),
        (0x28u16, 0x42u8),
        (0x27u16, 0x43u8),
        (0x25u16, 0x44u8),
        (0x23u16, 0x46u8),
        (0x24u16, 0x48u8),
    ]
}

/// A cursor key sends its letter after `ESC [`, or after `ESC O` where the application asked for that;
/// with modifiers it sends `ESC [ 1 ;`, the digit of the modifiers and the letter.
pub proof fn cursor_keys_send_letters(i: int, mods: Modifiers, mode: TermMode)
    requires
        0 <= i < 6,
    ensures
        ({
            let (vk, letter) = cursor_keys()[i];
            let sent = key_bytes(vk, mods, mode);
            if mods.shift || mods.alt || mods.ctrl {
                sent == Some(seq![0x1Bu8, 0x5B, 0x31, 0x3B, modifier_digit(mods), letter])
            } else if mode.contains(TermMode::APP_CURSOR) {
                sent == Some(seq![0x1Bu8, 0x4F, letter])
            } else {
                sent == Some(seq![0x1Bu8, 0x5B, letter])
            }
        }),
{
    let (vk, letter) = cursor_keys()[i];
    lemma_short_numbers(mods.parameter());
    if mods.any() {
        assert(key_bytes(vk, mods, mode)->0 =~= seq![
            0x1Bu8,
            0x5B,
            0x31,
            0x3B,
            modifier_digit(mods),
            letter,
        ]);
    }
}

/// The first four function keys send `ESC O` and a letter from `P` to `S`, whatever the mode; with
/// modifiers they are sent as the cursor keys are.
pub proof fn first_function_keys_send_letters(vk: u16, mods: Modifiers, mode: TermMode)
    requires
        0x70 <= vk <= 0x73,
    ensures
        ({
            let letter = (vk - 0x20) as u8;
            let sent = key_bytes(vk, mods, mode);
            if mods.shift || mods.alt || mods.ctrl {
                sent == Some(seq![0x1Bu8, 0x5B, 0x31, 0x3B, modifier_digit(mods), letter])
            } else {
                sent == Some(seq![0x1Bu8, 0x4F, letter])
            }
        }),
{
    let letter = (vk - 0x20) as u8;
    lemma_short_numbers(mods.parameter());
    if mods.any() {
        assert(key_bytes(vk, mods, mode)->0 =~= seq![
            0x1Bu8,
            0x5B,
            0x31,
            0x3B,
            modifier_digit(mods),
            letter,
        ]);
    }
}

/// The keys with a number of one digit, and the digits: Insert, Delete, Page Up, Page Down.
pub open spec fn editing_keys() -> Seq<(u16, u8)> {
    seq![(0x2Du16, 0x32u8), (0x2Eu16, 0x33u8), (0x21u16, 0x35u8), (0x22u16, 0x36u8)]
}

/// An editing key sends `ESC [`, its digit and `~`, with the digit of the modifiers after a semicolon
/// where any are held.
pub proof fn editing_keys_send_a_digit(i: int, mods: Modifiers, mode: TermMode)
    requires
        0 <= i < 4,
    ensures
        ({
            let (vk, digit) = editing_keys()[i];
            key_bytes(vk, mods, mode) == Some(
                if mods.shift || mods.alt || mods.ctrl {
                    seq![0x1Bu8, 0x5B, digit, 0x3B, modifier_digit(mods), 0x7E]
                } else {
                    seq![0x1Bu8, 0x5B, digit, 0x7E]
                },
            )
        }),
{
    let (vk, digit) = editing_keys()[i];
    lemma_short_numbers(mods.parameter());
    lemma_short_numbers((digit - 48) as nat);
    if mods.any() {
        assert(key_bytes(vk, mods, mode)->0 =~= seq![
            0x1Bu8,
            0x5B,
            digit,
            0x3B,
            modifier_digit(mods),
            0x7E,
        ]);
    } else {
        assert(key_bytes(vk, mods, mode)->0 =~= seq![0x1Bu8, 0x5B, digit, 0x7E]);
    }
}

/// The two digits of the function keys from the fifth on.
pub open spec fn function_numbers() -> Seq<(u8, u8)> {
    seq![
        (0x31u8, 0x35u8),
        (0x31u8, 0x37u8),
        (0x31u8, 0x38u8),
        (0x31u8, 0x39u8),
        (0x32u8, 0x30u8),
        (0x32u8, 0x31u8),
        (0x32u8, 0x33u8),
        (0x32u8, 0x34u8),
    ]
}

/// The function keys from the fifth to the twelfth send `ESC [`, two digits and `~`, with the digit of
/// the modifiers after a semicolon where any are held.
pub proof fn function_keys_send_digits(i: int, mods: Modifiers, mode: TermMode)
    requires
        0 <= i < 8,
    ensures
        ({
            let (ten, one) = function_numbers()[i];
            key_bytes((0x74 + i) as u16, mods, mode) == Some(
                if mods.shift || mods.alt || mods.ctrl {
                    seq![0x1Bu8, 0x5B, ten, one, 0x3B, modifier_digit(mods), 0x7E]
                } else {
                    seq![0x1Bu8, 0x5B, ten, one, 0x7E]
                },
            )
        }),
{
    let (ten, one) = function_numbers()[i];
    let vk = (0x74 + i) as u16;
    lemma_short_numbers(mods.parameter());
    lemma_short_numbers(((ten - 48) * 10 + (one - 48)) as nat);
    if mods.any() {
        assert(key_bytes(vk, mods, mode)->0 =~= seq![
            0x1Bu8,
            0x5B,
            ten,
            one,
            0x3B,
            modifier_digit(mods),
            0x7E,
        ]);
    } else {
        assert(key_bytes(vk, mods, mode)->0 =~= seq![0x1Bu8, 0x5B, ten, one, 0x7E]);
    }
}

/// Backspace sends DEL, or BS with Ctrl. Tab sends itself, or the back-tab sequence with Shift. Enter
/// sends a carriage return, with a line feed where the application asked for one. Alt puts an escape
/// before each that is sent as a plain character, but for Ctrl with Backspace.
pub proof fn plain_keys_send_themselves(mods: Modifiers, mode: TermMode)
    ensures
        key_bytes(0x08, mods, mode) == Some(
            if mods.ctrl {
                seq![0x08u8]
            } else if mods.alt {
                seq![0x1Bu8, 0x7F]
            } else {
                seq![0x7Fu8]
            },
        ),
        key_bytes(0x09, mods, mode) == Some(
            if mods.shift {
                seq![0x1Bu8, 0x5B, 0x5A]
            } else if mods.alt {
                seq![0x1Bu8, 0x09]
            } else {
                seq![0x09u8]
            },
        ),
        ({
            let both = mode.contains(TermMode::LINE_FEED_NL);
            key_bytes(0x0D, mods, mode) == Some(
                match (mods.alt, both) {
                    (false, false) => seq![0x0Du8],
                    (false, true) => seq![0x0Du8, 0x0A],
                    (true, false) => seq![0x1Bu8, 0x0D],
                    (true, true) => seq![0x1Bu8, 0x0D, 0x0A],
                },
            )
        }),
{
    assert(seq![0x1Bu8] + seq![0x7Fu8] =~= seq![0x1Bu8, 0x7F]);
    assert(seq![0x1Bu8] + seq![0x09u8] =~= seq![0x1Bu8, 0x09]);
    assert(seq![0x1Bu8] + seq![0x0Du8] =~= seq![0x1Bu8, 0x0D]);
    assert(seq![0x1Bu8] + seq![0x0Du8, 0x0A] =~= seq![0x1Bu8, 0x0D, 0x0A]);
}

/// Every other key is left to the characters that it makes.
pub proof fn other_keys_send_nothing(vk: u16, mods: Modifiers, mode: TermMode)
    requires
        vk != 0x08,
        vk != 0x09,
        vk != 0x0D,
        !(0x21 <= vk <= 0x28),
        vk != 0x2D,
        vk != 0x2E,
        !(0x70 <= vk <= 0x7B),
    ensures
        key_bytes(vk, mods, mode) is None,
{
}

/// The numbers of the buttons: the three of a mouse, none, and the two ways of the wheel.
pub open spec fn buttons() -> Seq<(MouseButton, int)> {
    seq![
        (MouseButton::Left, 0int),
        (MouseButton::Middle, 1int),
        (MouseButton::Right, 2int),
        (MouseButton::NoButton, 3int),
        (MouseButton::WheelUp, 64int),
        (MouseButton::WheelDown, 65int),
    ]
}

/// Shift, Alt and Ctrl each add a bit to what a button sends, and motion another.
pub open spec fn event_bits(kind: MouseEventKind, mods: Modifiers) -> int {
    let shift = if mods.shift {
        4int
    } else {
        0
    };
    let alt = if mods.alt {
        8int
    } else {
        0
    };
    let ctrl = if mods.ctrl {
        16int
    } else {
        0
    };
    let motion = if kind is Move {
        32int
    } else {
        0
    };
    shift + alt + ctrl + motion
}

/// An application hears of what it asked for: presses and releases of a button, and the wheel, in
/// every mouse mode; motion with a button held in the drag mode and in the motion mode; motion without
/// one in the motion mode alone. Without the extended form it hears of no position past the 223rd.
pub proof fn the_mouse_is_heard(
    button: MouseButton,
    kind: MouseEventKind,
    col: int,
    row: int,
    mods: Modifiers,
    mode: TermMode,
)
    ensures
        ({
            let clicks = mode.0 & TermMode::MOUSE_CLICK == TermMode::MOUSE_CLICK;
            let drags = mode.0 & TermMode::MOUSE_DRAG == TermMode::MOUSE_DRAG;
            let moves = mode.0 & TermMode::MOUSE_MOTION == TermMode::MOUSE_MOTION;
            let wheel = button is WheelUp || button is WheelDown;
            let asked = match kind {
                MouseEventKind::Press => !(button is NoButton) && (clicks || drags || moves),
                MouseEventKind::Release => !(button is NoButton) && !wheel && (clicks || drags
                    || moves),
                MouseEventKind::Move => !wheel && (moves || drags && !(button is NoButton)),
            };
            let near = col < 223 && row < 223;
            mouse_bytes(button, kind, col, row, mods, mode) is Some <==> asked && (mode.0
                & TermMode::MOUSE_SGR == TermMode::MOUSE_SGR || near)
        }),
{
    let m = mode.0;
    assert((m & 0x0E00u32 != 0) == (m & 0x0200u32 == 0x0200u32 || m & 0x0400u32 == 0x0400u32 || m
        & 0x0800u32 == 0x0800u32) && (m & 0x0C00u32 != 0) == (m & 0x0400u32 == 0x0400u32 || m
        & 0x0800u32 == 0x0800u32)) by (bit_vector);
}

/// The extended form says the number of the button and its bits, the column and the row, counted from
/// one, and whether the button was let go.
pub proof fn extended_reports_say_it_all(
    i: int,
    kind: MouseEventKind,
    col: int,
    row: int,
    mods: Modifiers,
    mode: TermMode,
)
    requires
        0 <= i < 6,
        col >= 0,
        row >= 0,
        mode.contains(TermMode::MOUSE_SGR),
        mouse_bytes(buttons()[i].0, kind, col, row, mods, mode) is Some,
    ensures
        mouse_bytes(buttons()[i].0, kind, col, row, mods, mode)->0 == seq![0x1Bu8, 0x5B, 0x3C]
            + decimal((buttons()[i].1 + event_bits(kind, mods)) as nat) + seq![0x3Bu8] + decimal(
            (1 + col) as nat,
        ) + seq![0x3Bu8] + decimal((1 + row) as nat) + seq![
            if kind is Release {
                0x6Du8
            } else {
                0x4Du8
            },
        ],
{
}

/// The older form says the same in a byte each, 32 more than the number; a button that was let go is
/// the third.
pub proof fn older_reports_take_a_byte_each(
    i: int,
    kind: MouseEventKind,
    col: int,
    row: int,
    mods: Modifiers,
    mode: TermMode,
)
    requires
        0 <= i < 6,
        col >= 0,
        row >= 0,
        !mode.contains(TermMode::MOUSE_SGR),
        mouse_bytes(buttons()[i].0, kind, col, row, mods, mode) is Some,
    ensures
        ({
            let sent = mouse_bytes(buttons()[i].0, kind, col, row, mods, mode)->0;
            let number = if kind is Release {
                3
            } else {
                buttons()[i].1
            };
            &&& sent.len() == 6
            &&& sent[0] == 0x1B && sent[1] == 0x5B && sent[2] == 0x4D
            &&& sent[3] == 32 + number + event_bits(kind, mods)
            &&& sent[4] == 33 + col
            &&& sent[5] == 33 + row
        }),
{
}

} // verus!
