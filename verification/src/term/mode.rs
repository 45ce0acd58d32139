//! Terminal modes.

use vstd::prelude::*;

verus! {

/// Private and ANSI modes that change how input is interpreted or how an application expects the
/// terminal to behave, one bit each.
#[derive(Clone, Copy, PartialEq, Eq, Structural, Debug)]
pub struct TermMode(pub u32);

impl TermMode {
    /// DECAWM: wrap at the right margin.
    pub const AUTOWRAP: u32 = 0x0000_0001;

    /// DECOM: cursor addressing is relative to the scroll region.
    pub const ORIGIN: u32 = 0x0000_0002;

    /// DECTCEM: the cursor is drawn.
    pub const SHOW_CURSOR: u32 = 0x0000_0004;

    /// DECCKM: arrow keys send SS3 instead of CSI.
    pub const APP_CURSOR: u32 = 0x0000_0008;

    /// DECKPAM: the keypad sends application sequences.
    pub const APP_KEYPAD: u32 = 0x0000_0010;

    /// IRM: printing shifts the rest of the line right.
    pub const INSERT: u32 = 0x0000_0020;

    /// LNM: Enter sends CR LF.
    pub const LINE_FEED_NL: u32 = 0x0000_0040;

    pub const BRACKETED_PASTE: u32 = 0x0000_0080;

    pub const FOCUS_REPORT: u32 = 0x0000_0100;

    pub const MOUSE_CLICK: u32 = 0x0000_0200;

    pub const MOUSE_DRAG: u32 = 0x0000_0400;

    pub const MOUSE_MOTION: u32 = 0x0000_0800;

    /// Extended SGR mouse coordinates (1006).
    pub const MOUSE_SGR: u32 = 0x0000_1000;

    pub const ALT_SCREEN: u32 = 0x0000_2000;

    /// DECSCNM: swap default foreground and background for the whole screen.
    pub const REVERSE_VIDEO: u32 = 0x0000_4000;

    /// Synchronised output (2026): hold presentation until released.
    pub const SYNC_UPDATE: u32 = 0x0000_8000;

    /// Alternate scroll: the wheel becomes arrow keys on the alternate screen.
    pub const ALT_SCROLL: u32 = 0x0001_0000;

    /// Every way of asking for the mouse.
    pub const ANY_MOUSE: u32 = 0x0000_0E00;

    /// Is every one of `bits` set?
    #[verifier::allow_in_spec]
    pub fn contains(self, bits: u32) -> bool
        returns
            self.0 & bits == bits,
    {
        self.0 & bits == bits
    }

    /// Is any one of `bits` set?
    #[verifier::allow_in_spec]
    pub fn intersects(self, bits: u32) -> bool
        returns
            self.0 & bits != 0,
    {
        self.0 & bits != 0
    }

    /// The modes with `bits` switched on or off.
    pub fn set(self, bits: u32, enable: bool) -> (m: TermMode)
        ensures
            m == self.with(bits, enable),
    {
        if enable {
            TermMode(self.0 | bits)
        } else {
            TermMode(self.0 & !bits)
        }
    }

    /// The modes with `bits` switched on or off.
    pub open spec fn with(self, bits: u32, enable: bool) -> TermMode {
        if enable {
            TermMode(self.0 | bits)
        } else {
            TermMode(self.0 & !bits)
        }
    }
}

/// The modes of a fresh terminal: autowrap, a visible cursor, alternate scroll.
pub open spec fn initial_mode() -> TermMode {
    TermMode(0x0001_0005)
}

impl Default for TermMode {
    fn default() -> (m: TermMode)
        ensures
            m == initial_mode(),
    {
        TermMode(0x0001_0005)
    }
}

impl core::ops::BitOr<u32> for TermMode {
    type Output = TermMode;

    fn bitor(self, bits: u32) -> (m: TermMode) {
        TermMode(self.0 | bits)
    }
}

impl vstd::std_specs::ops::BitOrSpecImpl<u32> for TermMode {
    open spec fn obeys_bitor_spec() -> bool {
        true
    }

    open spec fn bitor_req(self, bits: u32) -> bool {
        true
    }

    open spec fn bitor_spec(self, bits: u32) -> TermMode {
        TermMode(self.0 | bits)
    }
}

/// Switching a single mode on makes it hold, and switching it off makes it not hold; no other
/// single mode is touched either way.
pub proof fn switching_a_mode_touches_it_alone(m: TermMode, bit: u32, other: u32, enable: bool)
    requires
        exists|i: u32| i < 32 && bit == #[trigger] (1u32 << i),
        exists|j: u32| j < 32 && other == #[trigger] (1u32 << j),
    ensures
        m.with(bit, enable).contains(bit) == enable,
        other != bit ==> m.with(bit, enable).contains(other) == m.contains(other),
{
    let i = choose|i: u32| i < 32 && bit == #[trigger] (1u32 << i);
    let j = choose|j: u32| j < 32 && other == #[trigger] (1u32 << j);
    let w = m.0;
    assert(i < 32 && j < 32 ==> ((w | (1u32 << i)) & (1u32 << i) == 1u32 << i) && ((w & !(1u32
        << i)) & (1u32 << i) != 1u32 << i) && (1u32 << i != 1u32 << j ==> ((w | (1u32 << i)) & (1u32
        << j) == 1u32 << j) == (w & (1u32 << j) == 1u32 << j) && ((w & !(1u32 << i)) & (1u32 << j)
        == 1u32 << j) == (w & (1u32 << j) == 1u32 << j))) by (bit_vector);
}

} // verus!
