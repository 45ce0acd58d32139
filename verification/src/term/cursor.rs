//! The cursor.

use vstd::prelude::*;

use super::cell::{plain_pen, Pen};

verus! {

#[derive(Clone, Copy, PartialEq, Eq, Structural, Debug)]
pub enum CursorShape {
    Block,
    Underline,
    Beam,
}

#[derive(Clone, Copy, PartialEq, Eq, Structural, Debug)]
pub enum Charset {
    Ascii,
    /// DEC Special Graphics: the box-drawing set.
    Graphics,
}

#[derive(Clone, Copy)]
pub struct Cursor {
    pub x: usize,
    pub y: usize,
    pub pen: Pen,
    /// Deferred wrap: writing in the last column leaves the cursor there, and only the next
    /// character wraps.
    pub wrap_pending: bool,
    pub g0: Charset,
    pub g1: Charset,
    /// Which of G0/G1 is in use.
    pub shifted: bool,
}

/// The cursor with its position as plain numbers.
pub ghost struct CursorView {
    pub x: int,
    pub y: int,
    pub pen: Pen,
    pub wrap_pending: bool,
    pub g0: Charset,
    pub g1: Charset,
    pub shifted: bool,
}

impl View for Cursor {
    type V = CursorView;

    open spec fn view(&self) -> CursorView {
        CursorView {
            x: self.x as int,
            y: self.y as int,
            pen: self.pen,
            wrap_pending: self.wrap_pending,
            g0: self.g0,
            g1: self.g1,
            shifted: self.shifted,
        }
    }
}

impl CursorView {
    /// The cursor of a fresh terminal, with a given pen.
    pub open spec fn home(pen: Pen) -> CursorView {
        CursorView {
            x: 0,
            y: 0,
            pen,
            wrap_pending: false,
            g0: Charset::Ascii,
            g1: Charset::Graphics,
            shifted: false,
        }
    }

    /// The character set in use.
    pub open spec fn charset(self) -> Charset {
        if self.shifted {
            self.g1
        } else {
            self.g0
        }
    }
}

impl Cursor {
    /// The cursor of a fresh terminal, with a given pen.
    pub fn home(pen: Pen) -> (c: Cursor)
        ensures
            c@ == CursorView::home(pen),
    {
        Cursor {
            x: 0,
            y: 0,
            pen,
            wrap_pending: false,
            g0: Charset::Ascii,
            g1: Charset::Graphics,
            shifted: false,
        }
    }

    /// Is every printable ASCII byte shown as itself?
    pub fn charset_is_ascii(&self) -> (r: bool)
        ensures
            r == (self@.charset() == Charset::Ascii),
    {
        if self.shifted {
            self.g1 == Charset::Ascii
        } else {
            self.g0 == Charset::Ascii
        }
    }
}

impl Default for Cursor {
    fn default() -> (c: Cursor)
        ensures
            c@ == CursorView::home(plain_pen()),
    {
        Cursor::home(Pen::default())
    }
}

/// Everything a renderer needs about the cursor.
#[derive(Clone, Copy, PartialEq, Eq, Structural, Debug)]
pub struct CursorState {
    pub x: usize,
    pub y: usize,
    pub shape: CursorShape,
    pub visible: bool,
    pub blinking: bool,
}

} // verus!
