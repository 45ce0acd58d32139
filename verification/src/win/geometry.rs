//! Points and rectangles of the window.

use vstd::prelude::*;

use crate::render::coverage::Bounds;

verus! {

/// A number read from sixteen bits, the upper half of which stand for negative numbers.
pub open spec fn signed(word: int) -> int {
    if word < 0x8000 {
        word
    } else {
        word - 0x1_0000
    }
}

fn signed_word(word: u32) -> (n: i32)
    requires
        word < 0x1_0000,
    ensures
        n == signed(word as int),
{
    if word < 0x8000 {
        word as i32
    } else {
        word as i32 - 0x1_0000
    }
}

/// The point packed into two words: x in the low one, y in the high one, both signed. A point left
/// of the window or above it has negative coordinates.
pub fn unpack_point(packed: u32) -> (p: (i32, i32))
    ensures
        p.0 == signed(packed as int % 0x1_0000),
        p.1 == signed(packed as int / 0x1_0000),
{
    (signed_word(packed % 0x1_0000), signed_word(packed / 0x1_0000))
}

/// The size packed into two words: width in the low one, height in the high one.
pub fn unpack_size(packed: u32) -> (s: (u32, u32))
    ensures
        s.0 == packed as int % 0x1_0000,
        s.1 == packed as int / 0x1_0000,
{
    (packed % 0x1_0000, packed / 0x1_0000)
}

/// The edge or corner by which a window is resized.
#[derive(Clone, Copy, PartialEq, Eq, Structural, Debug)]
pub enum Edge {
    Left,
    Right,
    Top,
    TopLeft,
    TopRight,
    Bottom,
    BottomLeft,
    BottomRight,
}

impl Edge {
    /// Is the left side dragged?
    pub open spec fn left(self) -> bool {
        self == Edge::Left || self == Edge::TopLeft || self == Edge::BottomLeft
    }

    /// Is the top dragged?
    pub open spec fn top(self) -> bool {
        self == Edge::Top || self == Edge::TopLeft || self == Edge::TopRight
    }
}

/// Give a window that is being resized a size of whole cells, by moving the edge that is dragged.
pub fn snap(rect: &Bounds, edge: Edge, width: i32, height: i32) -> (r: Bounds)
    requires
        i32::MIN <= rect.right - width <= i32::MAX,
        i32::MIN <= rect.left + width <= i32::MAX,
        i32::MIN <= rect.bottom - height <= i32::MAX,
        i32::MIN <= rect.top + height <= i32::MAX,
    ensures
        r.right - r.left == width,
        r.bottom - r.top == height,
        edge.left() ==> r.right == rect.right,
        !edge.left() ==> r.left == rect.left,
        edge.top() ==> r.bottom == rect.bottom,
        !edge.top() ==> r.top == rect.top,
{
    let mut r: Bounds = *rect;
    match edge {
        Edge::Left | Edge::TopLeft | Edge::BottomLeft => {
            r.left = rect.right - width;
        },
        _ => {
            r.right = rect.left + width;
        },
    }
    match edge {
        Edge::Top | Edge::TopLeft | Edge::TopRight => {
            r.top = rect.bottom - height;
        },
        _ => {
            r.bottom = rect.top + height;
        },
    }
    r
}

} // verus!
