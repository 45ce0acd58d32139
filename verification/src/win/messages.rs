//! What the messages of the system mean.

use vstd::prelude::*;

use super::geometry::{signed, unpack_point, unpack_size, Edge};
use crate::input::MouseButton;

verus! {

pub const WM_DESTROY: u32 = 0x0002;

pub const WM_SIZE: u32 = 0x0005;

pub const WM_SETFOCUS: u32 = 0x0007;

pub const WM_KILLFOCUS: u32 = 0x0008;

pub const WM_PAINT: u32 = 0x000F;

pub const WM_CLOSE: u32 = 0x0010;

pub const WM_ERASEBKGND: u32 = 0x0014;

pub const WM_SETCURSOR: u32 = 0x0020;

pub const WM_KEYDOWN: u32 = 0x0100;

pub const WM_CHAR: u32 = 0x0102;

pub const WM_SYSKEYDOWN: u32 = 0x0104;

pub const WM_SYSCHAR: u32 = 0x0106;

pub const WM_MOUSEMOVE: u32 = 0x0200;

pub const WM_LBUTTONDOWN: u32 = 0x0201;

pub const WM_LBUTTONUP: u32 = 0x0202;

pub const WM_RBUTTONDOWN: u32 = 0x0204;

pub const WM_RBUTTONUP: u32 = 0x0205;

pub const WM_MBUTTONDOWN: u32 = 0x0207;

pub const WM_MBUTTONUP: u32 = 0x0208;

pub const WM_MOUSEWHEEL: u32 = 0x020A;

pub const WM_SIZING: u32 = 0x0214;

pub const WM_CAPTURECHANGED: u32 = 0x0215;

pub const WM_DPICHANGED: u32 = 0x02E0;

/// Where the pointer is over the window's own area, not its frame.
pub const HTCLIENT: u32 = 1;

/// A message that the window acts on.
#[derive(Clone, Copy, PartialEq, Eq, Structural, Debug)]
pub enum Message {
    Resized { width: u32, height: u32 },
    /// The window is on a screen with another density.
    Rescaled { dpi: u32 },
    Focused(bool),
    Key(u16),
    /// A typed character, and whether Alt was held.
    Typed { code: u16, alt: bool },
    /// A turn of the wheel, and where on the screen.
    Wheel { delta: i16, x: i32, y: i32 },
    Pressed { button: MouseButton, x: i32, y: i32 },
    Moved { x: i32, y: i32 },
    Released { button: MouseButton, x: i32, y: i32 },
    /// Something took the mouse away; no release will come.
    MouseLost,
    /// The pointer over the text wants its shape.
    PointerShape,
    Erase,
    Paint,
    /// The frame is being dragged.
    Resizing(Edge),
    Close,
    Destroyed,
    /// None of these: the system's own handling is right.
    Unhandled,
}

/// The edge that a dragged frame is dragged by.
pub open spec fn edge_of(n: u32) -> Edge {
    if n == 1 {
        Edge::Left
    } else if n == 2 {
        Edge::Right
    } else if n == 3 {
        Edge::Top
    } else if n == 4 {
        Edge::TopLeft
    } else if n == 5 {
        Edge::TopRight
    } else if n == 7 {
        Edge::BottomLeft
    } else if n == 8 {
        Edge::BottomRight
    } else {
        Edge::Bottom
    }
}

/// The button that a press or a release is of.
pub open spec fn button_of(msg: u32) -> MouseButton {
    if msg == WM_LBUTTONDOWN || msg == WM_LBUTTONUP {
        MouseButton::Left
    } else if msg == WM_RBUTTONDOWN || msg == WM_RBUTTONUP {
        MouseButton::Right
    } else {
        MouseButton::Middle
    }
}

/// The low word.
pub open spec fn low(n: u32) -> int {
    n as int % 0x1_0000
}

/// The high word.
pub open spec fn high(n: u32) -> int {
    n as int / 0x1_0000
}

/// What a message means, by its number and the low halves of its two parameters.
pub open spec fn meaning(msg: u32, first: u32, second: u32) -> Message {
    let x = signed(low(second)) as i32;
    let y = signed(high(second)) as i32;
    if msg == WM_SIZE {
        Message::Resized { width: low(second) as u32, height: high(second) as u32 }
    } else if msg == WM_DPICHANGED {
        Message::Rescaled { dpi: low(first) as u32 }
    } else if msg == WM_SETFOCUS || msg == WM_KILLFOCUS {
        Message::Focused(msg == WM_SETFOCUS)
    } else if msg == WM_KEYDOWN || msg == WM_SYSKEYDOWN {
        Message::Key(low(first) as u16)
    } else if msg == WM_CHAR || msg == WM_SYSCHAR {
        Message::Typed { code: low(first) as u16, alt: msg == WM_SYSCHAR }
    } else if msg == WM_MOUSEWHEEL {
        Message::Wheel { delta: signed(high(first)) as i16, x, y }
    } else if msg == WM_LBUTTONDOWN || msg == WM_RBUTTONDOWN || msg == WM_MBUTTONDOWN {
        Message::Pressed { button: button_of(msg), x, y }
    } else if msg == WM_MOUSEMOVE {
        Message::Moved { x, y }
    } else if msg == WM_LBUTTONUP || msg == WM_RBUTTONUP || msg == WM_MBUTTONUP {
        Message::Released { button: button_of(msg), x, y }
    } else if msg == WM_CAPTURECHANGED {
        Message::MouseLost
    } else if msg == WM_SETCURSOR && low(second) == HTCLIENT {
        Message::PointerShape
    } else if msg == WM_ERASEBKGND {
        Message::Erase
    } else if msg == WM_PAINT {
        Message::Paint
    } else if msg == WM_SIZING {
        Message::Resizing(edge_of(first))
    } else if msg == WM_CLOSE {
        Message::Close
    } else if msg == WM_DESTROY {
        Message::Destroyed
    } else {
        Message::Unhandled
    }
}

/// The edge that a dragged frame is dragged by.
fn edge(n: u32) -> (e: Edge)
    ensures
        e == edge_of(n),
{
    match n {
        1 => Edge::Left,
        2 => Edge::Right,
        3 => Edge::Top,
        4 => Edge::TopLeft,
        5 => Edge::TopRight,
        7 => Edge::BottomLeft,
        8 => Edge::BottomRight,
        _ => Edge::Bottom,
    }
}

/// The button that a press or a release is of.
fn button(msg: u32) -> (b: MouseButton)
    ensures
        b == button_of(msg),
{
    match msg {
        WM_LBUTTONDOWN | WM_LBUTTONUP => MouseButton::Left,
        WM_RBUTTONDOWN | WM_RBUTTONUP => MouseButton::Right,
        _ => MouseButton::Middle,
    }
}

/// Read a message: its number and the low halves of its two parameters.
pub fn read_message(msg: u32, first: u32, second: u32) -> (m: Message)
    ensures
        m == meaning(msg, first, second),
{
    let (x, y): (i32, i32) = unpack_point(second);
    let (width, height): (u32, u32) = unpack_size(second);
    let (word, _): (u32, u32) = unpack_size(first);
    let (_, turn): (i32, i32) = unpack_point(first);
    match msg {
        WM_SIZE => Message::Resized { width, height },
        WM_DPICHANGED => Message::Rescaled { dpi: word },
        WM_SETFOCUS => Message::Focused(true),
        WM_KILLFOCUS => Message::Focused(false),
        WM_KEYDOWN | WM_SYSKEYDOWN => Message::Key(word as u16),
        WM_CHAR => Message::Typed { code: word as u16, alt: false },
        WM_SYSCHAR => Message::Typed { code: word as u16, alt: true },
        WM_MOUSEWHEEL => Message::Wheel { delta: turn as i16, x, y },
        WM_LBUTTONDOWN | WM_RBUTTONDOWN | WM_MBUTTONDOWN => Message::Pressed {
            button: button(msg),
            x,
            y,
        },
        WM_MOUSEMOVE => Message::Moved { x, y },
        WM_LBUTTONUP | WM_RBUTTONUP | WM_MBUTTONUP => Message::Released {
            button: button(msg),
            x,
            y,
        },
        WM_CAPTURECHANGED => Message::MouseLost,
        WM_SETCURSOR => if width == HTCLIENT {
            Message::PointerShape
        } else {
            Message::Unhandled
        },
        WM_ERASEBKGND => Message::Erase,
        WM_PAINT => Message::Paint,
        WM_SIZING => Message::Resizing(edge(first)),
        WM_CLOSE => Message::Close,
        WM_DESTROY => Message::Destroyed,
        _ => Message::Unhandled,
    }
}

/// What the system is answered to a message.
pub open spec fn answered(message: Message, key_used: bool) -> Option<isize> {
    match message {
        Message::Unhandled => None,
        Message::Key(_) => if key_used {
            Some(0isize)
        } else {
            None
        },
        Message::PointerShape | Message::Erase | Message::Resizing(_) => Some(1isize),
        _ => Some(0isize),
    }
}

/// What the system is answered: nothing, which asks for its own handling, or a number. A key that
/// was no use here is left to the system, so that its own shortcuts work.
pub fn answer(message: Message, key_used: bool) -> (r: Option<isize>)
    ensures
        r == answered(message, key_used),
        r == (match message {
            Message::Unhandled => None,
            Message::Key(_) => if key_used {
                Some(0isize)
            } else {
                None
            },
            Message::PointerShape | Message::Erase | Message::Resizing(_) => Some(1isize),
            _ => Some(0isize),
        }),
{
    match message {
        Message::Unhandled => None,
        Message::Key(_) => if key_used {
            Some(0)
        } else {
            None
        },
        Message::PointerShape | Message::Erase | Message::Resizing(_) => Some(1),
        _ => Some(0),
    }
}

} // verus!
