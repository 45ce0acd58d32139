//! Rendition (SGR) and modes.

use vstd::prelude::*;

use super::super::cell::{CellFlags, Pen};
use super::super::color::Color;
use super::super::mode::TermMode;
use super::super::model::{
    extended_color, head, low_byte, private_mode_bit, sgr_pen, underline_style, TermView,
};
use super::super::vt::groups;
use super::Term;

verus! {

/// The low byte of a parameter.
fn byte_of(n: u16) -> (b: u8)
    ensures
        b == low_byte(n),
{
    assert(n as u8 == n % 256) by (bit_vector);
    n as u8
}

/// The head of parameter `i`, if it is there.
fn value_at(params: &Vec<Vec<u16>>, i: usize) -> (v: Option<u16>)
    ensures
        v == (if i < params@.len() {
            head(params@[i as int]@)
        } else {
            None
        }),
{
    if i < params.len() && params[i].len() > 0 {
        Some(params[i][0])
    } else {
        None
    }
}

/// Parse the colour given after 38, 48 or 58 at parameter `i`, in the colon form or the semicolon
/// form. Returns the colour and how many parameters were consumed.
fn parse_extended_color(params: &Vec<Vec<u16>>, i: usize) -> (r: Option<(Color, usize)>)
    requires
        i < params@.len(),
    ensures
        match r {
            Some((c, used)) => extended_color(groups(params@), i as int) == Some((c, used as int))
                && i + used <= params@.len() && used >= 1,
            None => extended_color(groups(params@), i as int) is None,
        },
{
    let ghost all = groups(params@);
    let sub = &params[i];
    assert(all[i as int] == sub@);
    // Colon form: everything is inside `sub`.
    if sub.len() >= 2 {
        // Some emitters include a colour-space number, some do not.
        let base: usize = if sub.len() >= 6 {
            3
        } else {
            2
        };
        if sub[1] == 2 && base + 2 < sub.len() {
            return Some(
                (
                    Color::rgb(byte_of(sub[base]), byte_of(sub[base + 1]), byte_of(sub[base + 2])),
                    1,
                ),
            );
        }
        if sub[1] == 5 && sub.len() > 2 {
            return Some((Color::indexed(byte_of(sub[2])), 1));
        }
        return None;
    }
    // Semicolon form: read ahead across parameters.
    let left: usize = params.len() - i;
    if left < 3 {
        assert(left < 2 || params@[i + 1]@ == all[i + 1]);
        return None;
    }
    assert(all[i + 1] == params@[i + 1]@);
    assert(all[i + 2] == params@[i + 2]@);
    let kind = match value_at(params, i + 1) {
        Some(k) => k,
        None => {
            return None;
        },
    };
    if kind == 2 {
        if left < 5 {
            return None;
        }
        assert(all[i + 3] == params@[i + 3]@);
        assert(all[i + 4] == params@[i + 4]@);
        match (value_at(params, i + 2), value_at(params, i + 3), value_at(params, i + 4)) {
            (Some(r), Some(g), Some(b)) => Some(
                (Color::rgb(byte_of(r), byte_of(g), byte_of(b)), 5),
            ),
            _ => None,
        }
    } else if kind == 5 {
        match value_at(params, i + 2) {
            Some(slot) => Some((Color::indexed(byte_of(slot)), 3)),
            None => None,
        }
    } else {
        None
    }
}

/// The pen after a rendition code that reads nothing beyond its own group of sub-parameters.
fn changed_pen(pen: &Pen, code: u16, sub: &Vec<u16>) -> (p: Pen)
    ensures
        p == sgr_pen(*pen, code, sub@),
{
    let mut p = *pen;
    match code {
        0 => p.reset(),
        1 => p.flags = p.flags.with(CellFlags::BOLD),
        2 => p.flags = p.flags.with(CellFlags::DIM),
        3 => p.flags = p.flags.with(CellFlags::ITALIC),
        4 => {
            // `4:n` selects an underline style.
            let style: u16 = if sub.len() > 1 {
                sub[1]
            } else {
                1
            };
            p.flags = p.flags.without(CellFlags::ANY_UNDERLINE).with(style_bits(style));
        },
        5 | 6 => p.flags = p.flags.with(CellFlags::BLINK),
        7 => p.flags = p.flags.with(CellFlags::REVERSE),
        8 => p.flags = p.flags.with(CellFlags::HIDDEN),
        9 => p.flags = p.flags.with(CellFlags::STRIKEOUT),
        21 => {
            p.flags = p.flags.without(CellFlags::ANY_UNDERLINE).with(CellFlags::DOUBLE_UNDERLINE);
        },
        22 => p.flags = p.flags.without(CellFlags::BOLD | CellFlags::DIM),
        23 => p.flags = p.flags.without(CellFlags::ITALIC),
        24 => p.flags = p.flags.without(CellFlags::ANY_UNDERLINE),
        25 => p.flags = p.flags.without(CellFlags::BLINK),
        27 => p.flags = p.flags.without(CellFlags::REVERSE),
        28 => p.flags = p.flags.without(CellFlags::HIDDEN),
        29 => p.flags = p.flags.without(CellFlags::STRIKEOUT),
        30..=37 => p.fg = Color::indexed((code - 30) as u8),
        39 => p.fg = Color(0),
        40..=47 => p.bg = Color::indexed((code - 40) as u8),
        49 => p.bg = Color(0),
        53 => p.flags = p.flags.with(CellFlags::OVERLINE),
        55 => p.flags = p.flags.without(CellFlags::OVERLINE),
        59 => p.underline = 0,
        90..=97 => p.fg = Color::indexed((code - 90) as u8 + 8),
        100..=107 => p.bg = Color::indexed((code - 100) as u8 + 8),
        _ => {},
    }
    p
}

/// What underline style `style` sets.
fn style_bits(style: u16) -> (bits: u16)
    ensures
        bits == underline_style(style),
{
    match style {
        0 => 0,
        2 => CellFlags::DOUBLE_UNDERLINE,
        3 => CellFlags::CURLY_UNDERLINE,
        4 => CellFlags::DOTTED_UNDERLINE,
        5 => CellFlags::DASHED_UNDERLINE,
        _ => CellFlags::UNDERLINE,
    }
}

/// The mode that a private mode number switches, for those that do only that.
fn private_bit(number: u16) -> (bit: Option<u32>)
    ensures
        bit == private_mode_bit(number),
{
    match number {
        1 => Some(TermMode::APP_CURSOR),
        5 => Some(TermMode::REVERSE_VIDEO),
        7 => Some(TermMode::AUTOWRAP),
        25 => Some(TermMode::SHOW_CURSOR),
        1000 => Some(TermMode::MOUSE_CLICK),
        1002 => Some(TermMode::MOUSE_DRAG),
        1003 => Some(TermMode::MOUSE_MOTION),
        1004 => Some(TermMode::FOCUS_REPORT),
        1006 => Some(TermMode::MOUSE_SGR),
        1007 => Some(TermMode::ALT_SCROLL),
        2004 => Some(TermMode::BRACKETED_PASTE),
        2026 => Some(TermMode::SYNC_UPDATE),
        _ => None,
    }
}

impl Term {
    pub(super) fn apply_sgr(&mut self, params: &Vec<Vec<u16>>)
        requires
            old(self).wf(),
        ensures
            final(self).wf(),
            final(self)@ == old(self)@.sgr(groups(params@)),
    {
        proof {
            reveal(TermView::sgr);
        }
        if params.len() == 0 {
            self.cursor.pen.reset();
            return ;
        }
        let ghost all = groups(params@);
        let ghost target = self@.sgr(all);
        let mut i: usize = 0;
        while i < params.len()
            invariant
                self.wf(),
                all == groups(params@),
                i <= params@.len(),
                self@.sgr_from(all, i as int) == target,
            decreases params@.len() - i,
        {
            let sub = &params[i];
            assert(all[i as int] == sub@);
            let code: u16 = if sub.len() > 0 {
                sub[0]
            } else {
                0
            };
            if code == 38 || code == 48 || code == 58 {
                match parse_extended_color(params, i) {
                    Some((c, used)) => {
                        self.take_color(code, c);
                        i += used;
                    },
                    None => {
                        i += 1;
                    },
                }
            } else {
                self.cursor.pen = changed_pen(&self.cursor.pen, code, sub);
                i += 1;
            }
        }
    }

    /// Take a colour for the foreground, the background or the underline.
    fn take_color(&mut self, code: u16, c: Color)
        requires
            old(self).wf(),
            code == 38 || code == 48 || code == 58,
        ensures
            final(self).wf(),
            final(self)@ == (if code == 38 {
                old(self)@.with_pen(Pen { fg: c, ..old(self)@.cursor.pen })
            } else if code == 48 {
                old(self)@.with_pen(Pen { bg: c, ..old(self)@.cursor.pen })
            } else {
                let colors = old(self)@.underline_colors.push(c);
                (TermView { underline_colors: colors, ..old(self)@ }).with_pen(
                    Pen { underline: colors.len() as u16, ..old(self)@.cursor.pen },
                )
            }),
    {
        if code == 38 {
            self.cursor.pen.fg = c;
        } else if code == 48 {
            self.cursor.pen.bg = c;
        } else {
            self.underline_colors.push(c);
            self.cursor.pen.underline = self.underline_colors.len() as u16;
        }
    }

    /// Clear the screen, send the cursor home, and drop the scroll region.
    fn clear_and_home(&mut self)
        requires
            old(self).wf(),
        ensures
            final(self).wf(),
            final(self)@ == old(self)@.cleared_and_home(),
    {
        let pen = self.cursor.pen;
        self.grid.clear_all(&pen);
        self.cursor.x = 0;
        self.cursor.y = 0;
        self.scroll_top = 0;
        self.scroll_bot = self.rows() - 1;
    }

    /// Switch one mode.
    pub(super) fn switch(&mut self, bit: u32, enable: bool)
        requires
            old(self).wf(),
        ensures
            final(self).wf(),
            final(self)@ == (TermView { mode: old(self)@.mode.with(bit, enable), ..old(self)@ }),
    {
        self.mode = self.mode.set(bit, enable);
    }

    /// Something visible changed.
    pub(super) fn mark_dirty(&mut self)
        requires
            old(self).wf(),
        ensures
            final(self).wf(),
            final(self)@ == old(self)@.marked_dirty(),
    {
        self.dirty = true;
    }

    /// Does the cursor blink?
    fn set_blinking(&mut self, blinks: bool)
        requires
            old(self).wf(),
        ensures
            final(self).wf(),
            final(self)@ == (TermView { cursor_blinks: blinks, ..old(self)@ }),
    {
        self.cursor_blinks = blinks;
    }

    pub(super) fn set_private_mode(&mut self, number: u16, enable: bool)
        requires
            old(self).wf(),
        ensures
            final(self).wf(),
            final(self)@ == old(self)@.set_private_mode(number, enable),
    {
        proof {
            reveal(TermView::set_private_mode);
        }
        match private_bit(number) {
            Some(bit) => {
                self.switch(bit, enable);
            },
            None => match number {
                3 => {
                    // DECCOLM: the side effect applications actually rely on is the screen clear
                    // and cursor home, not the column count.
                    self.clear_and_home();
                },
                6 => {
                    self.switch(TermMode::ORIGIN, enable);
                    self.goto(0, 0);
                },
                12 => {
                    self.set_blinking(enable);
                },
                47 | 1047 => {
                    self.set_alt_screen(enable, false);
                },
                1048 => {
                    if enable {
                        self.save_cursor();
                    } else {
                        self.restore_cursor();
                    }
                },
                1049 => {
                    self.set_alt_screen(enable, true);
                },
                _ => {},
            },
        }
        self.mark_dirty();
    }

    pub(super) fn set_ansi_mode(&mut self, number: u16, enable: bool)
        requires
            old(self).wf(),
        ensures
            final(self).wf(),
            final(self)@ == old(self)@.set_ansi_mode(number, enable),
    {
        match number {
            4 => {
                self.switch(TermMode::INSERT, enable);
            },
            20 => {
                self.switch(TermMode::LINE_FEED_NL, enable);
            },
            _ => {},
        }
    }

    /// Set or reset every mode named in the parameters.
    pub(super) fn set_modes(&mut self, params: &Vec<Vec<u16>>, private: bool, enable: bool)
        requires
            old(self).wf(),
        ensures
            final(self).wf(),
            final(self)@ == old(self)@.set_modes(
                groups(params@),
                params@.len() as int,
                private,
                enable,
            ),
    {
        let ghost start = self@;
        let ghost all = groups(params@);
        let mut i: usize = 0;
        while i < params.len()
            invariant
                self.wf(),
                all == groups(params@),
                i <= params@.len(),
                self@ == start.set_modes(all, i as int, private, enable),
            decreases params@.len() - i,
        {
            assert(all[i as int] == params@[i as int]@);
            match value_at(params, i) {
                Some(number) => {
                    if private {
                        self.set_private_mode(number, enable);
                    } else {
                        self.set_ansi_mode(number, enable);
                    }
                },
                None => {},
            }
            i += 1;
        }
    }
}

} // verus!
