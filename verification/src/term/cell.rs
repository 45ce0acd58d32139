//! The grid cell and the pen that fills it.

use vstd::prelude::*;

use super::color::Color;

verus! {

/// Rendition attributes of a cell, one bit each.
#[derive(Clone, Copy, PartialEq, Eq, Structural, Hash, Debug)]
pub struct CellFlags(pub u16);

impl CellFlags {
    pub const BOLD: u16 = 0x0001;

    pub const DIM: u16 = 0x0002;

    pub const ITALIC: u16 = 0x0004;

    pub const UNDERLINE: u16 = 0x0008;

    pub const DOUBLE_UNDERLINE: u16 = 0x0010;

    pub const CURLY_UNDERLINE: u16 = 0x0020;

    pub const DOTTED_UNDERLINE: u16 = 0x0040;

    pub const DASHED_UNDERLINE: u16 = 0x0080;

    pub const BLINK: u16 = 0x0100;

    pub const REVERSE: u16 = 0x0200;

    pub const HIDDEN: u16 = 0x0400;

    pub const STRIKEOUT: u16 = 0x0800;

    pub const OVERLINE: u16 = 0x1000;

    /// The left half of a double-width character.
    pub const WIDE: u16 = 0x2000;

    /// The right half of a double-width character; carries no glyph.
    pub const WIDE_SPACER: u16 = 0x4000;

    /// Every underline style together.
    pub const ANY_UNDERLINE: u16 = 0x00F8;

    /// No attribute at all.
    #[verifier::allow_in_spec]
    pub fn empty() -> CellFlags
        returns
            CellFlags(0),
    {
        CellFlags(0)
    }

    /// Is every one of `bits` set?
    #[verifier::allow_in_spec]
    pub fn contains(self, bits: u16) -> bool
        returns
            self.0 & bits == bits,
    {
        self.0 & bits == bits
    }

    /// Is any one of `bits` set?
    #[verifier::allow_in_spec]
    pub fn intersects(self, bits: u16) -> bool
        returns
            self.0 & bits != 0,
    {
        self.0 & bits != 0
    }

    /// The attributes with `bits` added.
    #[verifier::allow_in_spec]
    pub fn with(self, bits: u16) -> CellFlags
        returns
            CellFlags(self.0 | bits),
    {
        CellFlags(self.0 | bits)
    }

    /// The attributes with `bits` taken away.
    #[verifier::allow_in_spec]
    pub fn without(self, bits: u16) -> CellFlags
        returns
            CellFlags(self.0 & !bits),
    {
        CellFlags(self.0 & !bits)
    }
}

impl Default for CellFlags {
    fn default() -> (f: CellFlags)
        ensures
            f == CellFlags(0),
    {
        CellFlags(0)
    }
}

/// Marks `Cell::ch` as an index into the cluster arena instead of a scalar value. Scalars end at
/// U+10FFFF, so the top bit is free.
pub const CLUSTER_TAG: u32 = 0x8000_0000;

/// A single grid position.
#[derive(Clone, Copy, PartialEq, Eq, Structural, Debug)]
pub struct Cell {
    /// Unicode scalar, or `CLUSTER_TAG | arena_index`. Zero means empty.
    pub ch: u32,
    pub fg: Color,
    pub bg: Color,
    pub flags: CellFlags,
    /// Index into the terminal's underline-colour table, biased by one; zero means "same as the
    /// foreground".
    pub underline: u16,
}

impl Default for Cell {
    fn default() -> (c: Cell)
        ensures
            c == Cell::empty(),
    {
        Cell::empty()
    }
}

impl Cell {
    /// The cell of a fresh grid.
    #[verifier::allow_in_spec]
    pub fn empty() -> Cell
        returns
            (Cell { ch: 0, fg: Color(0), bg: Color(0), flags: CellFlags(0), underline: 0 }),
    {
        Cell { ch: 0, fg: Color(0), bg: Color(0), flags: CellFlags(0), underline: 0 }
    }

    /// An empty cell carrying `pen`'s colours. Erasing fills with this, which is what keeps a
    /// themed background when the screen is cleared. Of the attributes only the one that affects
    /// the background survives.
    pub fn blank(pen: &Pen) -> (c: Cell)
        ensures
            c == blank_of(*pen),
    {
        Cell {
            ch: 0,
            fg: pen.fg,
            bg: pen.bg,
            flags: CellFlags(pen.flags.0 & CellFlags::REVERSE),
            underline: 0,
        }
    }

    #[verifier::allow_in_spec]
    pub fn is_empty(&self) -> bool
        returns
            self.ch == 0,
    {
        self.ch == 0
    }

    /// The scalar to draw, or `None` for a cluster index or a blank.
    pub fn scalar(&self) -> (s: Option<char>)
        ensures
            s == scalar_of(self.ch),
    {
        if self.ch == 0 || self.ch & CLUSTER_TAG != 0 {
            proof {
                lemma_tag_is_top_bit(self.ch);
            }
            None
        } else {
            proof {
                lemma_tag_is_top_bit(self.ch);
            }
            char_from_u32(self.ch)
        }
    }
}

/// Is `n` the number of a Unicode scalar value?
pub open spec fn is_scalar(n: u32) -> bool {
    n < 0xD800 || 0xE000 <= n <= 0x10FFFF
}

/// The scalar that a cell word holds outright, if it holds one.
pub open spec fn scalar_of(ch: u32) -> Option<char> {
    if ch != 0 && is_scalar(ch) {
        Some(ch as char)
    } else {
        None
    }
}

/// What erasing with `pen` leaves in a cell.
pub open spec fn blank_of(pen: Pen) -> Cell {
    Cell {
        ch: 0,
        fg: pen.fg,
        bg: pen.bg,
        flags: CellFlags(pen.flags.0 & CellFlags::REVERSE),
        underline: 0,
    }
}

/// The cluster tag is the top bit: a word carries it exactly when it is at least 2^31.
pub proof fn lemma_tag_is_top_bit(w: u32)
    ensures
        (w & CLUSTER_TAG != 0) == (w >= 0x8000_0000),
{
    assert((w & 0x8000_0000u32 != 0) == (w >= 0x8000_0000)) by (bit_vector);
}

/// `char::from_u32`: the scalar with the given number, and `None` exactly when the number is not
/// that of a scalar value (a surrogate, or beyond U+10FFFF).
#[verifier::external_body]
pub(crate) fn char_from_u32(n: u32) -> (c: Option<char>)
    ensures
        is_scalar(n) ==> c == Some(n as char),
        !is_scalar(n) ==> c is None,
{
    char::from_u32(n)
}

/// The current graphic rendition: everything SGR can set, applied to each cell as it is written.
#[derive(Clone, Copy, PartialEq, Eq, Structural, Debug)]
pub struct Pen {
    pub fg: Color,
    pub bg: Color,
    pub flags: CellFlags,
    pub underline: u16,
}

impl Default for Pen {
    fn default() -> (p: Pen)
        ensures
            p == plain_pen(),
    {
        Pen { fg: Color(0), bg: Color(0), flags: CellFlags(0), underline: 0 }
    }
}

impl Pen {
    pub fn reset(&mut self)
        ensures
            *final(self) == plain_pen(),
    {
        *self = Pen::default();
    }
}

/// The pen of a fresh terminal.
pub open spec fn plain_pen() -> Pen {
    Pen { fg: Color(0), bg: Color(0), flags: CellFlags(0), underline: 0 }
}

} // verus!
