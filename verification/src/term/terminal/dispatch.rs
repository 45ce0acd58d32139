//! What each finding of the escape-sequence parser does.

use vstd::prelude::*;

use super::super::cell::Cell;
use super::super::charset::dec_graphics;
use super::super::cursor::{Charset, CursorShape, CursorView};
use super::super::mode::TermMode;
use super::super::model::{cursor_style, param, TermView};
use super::super::vt::{char_width, groups, strings, text_from_utf8_lossy, VtAction};
use super::motion::lesser;
use super::Term;
use crate::text::push_decimal;

verus! {

/// Parameter `i`, or `default` when absent or zero.
fn arg(params: &Vec<Vec<u16>>, i: usize, default: u16) -> (v: u16)
    ensures
        v == param(groups(params@), i as int, default),
{
    if i < params.len() {
        assert(groups(params@)[i as int] == params@[i as int]@);
        if params[i].len() > 0 && params[i][0] != 0 {
            return params[i][0];
        }
    }
    default
}

/// The first intermediate byte.
fn first_of(bytes: &Vec<u8>) -> (b: Option<u8>)
    ensures
        b == (if bytes@.len() > 0 {
            Some(bytes@[0])
        } else {
            None
        }),
{
    if bytes.len() > 0 {
        Some(bytes[0])
    } else {
        None
    }
}

impl Term {
    /// The parser is back in its ground state.
    fn signal(&mut self)
        requires
            old(self).wf(),
        ensures
            final(self).wf(),
            final(self)@ == old(self)@.signalled(),
    {
        self.ground_signal = true;
    }

    /// To the first column.
    fn to_first_column(&mut self)
        requires
            old(self).wf(),
        ensures
            final(self).wf(),
            final(self)@ == old(self)@.at(0, old(self)@.cursor.y),
    {
        self.cursor.x = 0;
    }

    /// Forget a pending wrap.
    fn settle(&mut self)
        requires
            old(self).wf(),
        ensures
            final(self).wf(),
            final(self)@ == old(self)@.settled(),
    {
        self.cursor.wrap_pending = false;
    }

    /// Something is printed: bring the viewport back to the live screen.
    pub(super) fn output(&mut self)
        requires
            old(self).wf(),
        ensures
            final(self).wf(),
            final(self)@ == old(self)@.output(),
    {
        self.dirty = true;
        let _ = self.grid.scroll_to_bottom();
    }

    fn print(&mut self, c: char)
        requires
            old(self).wf(),
        ensures
            final(self).wf(),
            final(self)@ == old(self)@.print(c),
    {
        let shown: char = if self.cursor.charset_is_ascii() {
            c
        } else {
            dec_graphics(c)
        };
        self.print_as(shown, char_width(shown));
    }

    /// Write a character that takes `width` columns. One that takes none joins the one before.
    pub fn print_as(&mut self, c: char, width: Option<usize>)
        requires
            old(self).wf(),
            width is Some ==> width->0 <= 3,
        ensures
            final(self).wf(),
            final(self)@ == old(self)@.printed_as(c, width),
    {
        proof {
            reveal(TermView::printed_as);
        }
        self.output();
        self.signal();
        match width {
            Some(w) => {
                if w == 0 {
                    self.combine_with_previous(c);
                } else {
                    self.put_char(c, w);
                }
            },
            None => {
                self.combine_with_previous(c);
            },
        }
    }

    /// Handle a C0 control byte that does not change the parser state.
    pub fn execute_c0(&mut self, byte: u8)
        requires
            old(self).wf(),
        ensures
            final(self).wf(),
            final(self)@ == old(self)@.execute(byte),
    {
        self.execute(byte);
    }

    fn execute(&mut self, byte: u8)
        requires
            old(self).wf(),
        ensures
            final(self).wf(),
            final(self)@ == old(self)@.execute(byte),
    {
        proof {
            reveal(TermView::execute);
        }
        // A C0 byte inside a control sequence is executed without leaving the sequence, so this
        // does not tell that the parser is back in its ground state.
        self.mark_dirty();
        match byte {
            // BEL
            0x07 => self.ring_bell(),
            // BS
            0x08 => self.backspace(),
            // HT
            0x09 => self.tab(1),
            // LF, VT, FF
            0x0A | 0x0B | 0x0C => self.linefeed(),
            // CR
            0x0D => {
                self.to_first_column();
                self.settle();
            },
            // SO / SI: shift out to G1, shift in to G0.
            0x0E => self.shift_charset(true),
            0x0F => self.shift_charset(false),
            _ => {},
        }
    }

    fn ring_bell(&mut self)
        requires
            old(self).wf(),
        ensures
            final(self).wf(),
            final(self)@ == (TermView {
                bell_revision: super::super::model::next_revision(old(self)@.bell_revision),
                ..old(self)@
            }),
    {
        self.bell_revision = self.bell_revision.wrapping_add(1);
    }

    fn backspace(&mut self)
        requires
            old(self).wf(),
        ensures
            final(self).wf(),
            final(self)@ == (if old(self)@.cursor.wrap_pending {
                old(self)@.settled()
            } else {
                old(self)@.at(
                    super::super::model::max(old(self)@.cursor.x - 1, 0),
                    old(self)@.cursor.y,
                )
            }),
    {
        if self.cursor.wrap_pending {
            self.cursor.wrap_pending = false;
        } else if self.cursor.x > 0 {
            self.cursor.x -= 1;
        }
    }

    fn linefeed(&mut self)
        requires
            old(self).wf(),
        ensures
            final(self).wf(),
            final(self)@ == ({
                let down = old(self)@.with_grid(old(self)@.grid.scroll_to_bottom()).linefeed();
                if old(self)@.on(TermMode::LINE_FEED_NL) {
                    down.at(0, down.cursor.y).settled()
                } else {
                    down.settled()
                }
            }),
    {
        let _ = self.grid.scroll_to_bottom();
        let newline = self.mode.contains(TermMode::LINE_FEED_NL);
        self.linefeed_raw();
        if newline {
            self.to_first_column();
        }
        self.settle();
    }

    fn shift_charset(&mut self, shifted: bool)
        requires
            old(self).wf(),
        ensures
            final(self).wf(),
            final(self)@ == (TermView {
                cursor: CursorView { shifted, ..old(self)@.cursor },
                ..old(self)@
            }),
    {
        self.cursor.shifted = shifted;
    }

    fn to_column(&mut self, x: usize)
        requires
            old(self).wf(),
        ensures
            final(self).wf(),
            final(self)@ == old(self)@.at(
                super::super::model::min(x as int, old(self)@.cols() - 1),
                old(self)@.cursor.y,
            ).settled(),
    {
        self.cursor.x = lesser(x, self.cols() - 1);
        self.cursor.wrap_pending = false;
    }

    /// A control sequence that moves the cursor.
    fn csi_move(&mut self, params: &Vec<Vec<u16>>, action: char)
        requires
            old(self).wf(),
        ensures
            final(self).wf(),
            final(self)@ == old(self)@.csi_move(groups(params@), action),
    {
        proof {
            reveal(TermView::csi_move);
        }
        let n: usize = arg(params, 0, 1) as usize;
        match action {
            'A' => self.move_up(n),
            'B' | 'e' => self.move_down(n),
            'C' | 'a' => self.move_right(n),
            'D' => self.move_left(n),
            'E' => {
                self.move_down(n);
                self.to_first_column();
            },
            'F' => {
                self.move_up(n);
                self.to_first_column();
            },
            'G' | '`' => self.to_column(n - 1),
            'H' | 'f' => {
                let col: usize = arg(params, 1, 1) as usize - 1;
                self.goto(col, n - 1);
            },
            'I' => self.tab(n),
            'Z' => self.back_tab(n),
            'd' => {
                let x: usize = self.cursor.x;
                self.goto(x, n - 1);
            },
            's' => self.save_cursor(),
            'u' => self.restore_cursor(),
            _ => {},
        }
    }

    /// Scroll the scroll region.
    fn scroll_region(&mut self, up: bool, n: usize)
        requires
            old(self).wf(),
        ensures
            final(self).wf(),
            final(self)@ == ({
                let v = old(self)@;
                v.with_grid(
                    if up {
                        v.grid.scroll_up(v.scroll_top, v.scroll_bot, n as int, v.cursor.pen)
                    } else {
                        v.grid.scroll_down(v.scroll_top, v.scroll_bot, n as int, v.cursor.pen)
                    },
                )
            }),
    {
        let pen = self.cursor.pen;
        if up {
            self.grid.scroll_up(self.scroll_top, self.scroll_bot, n, &pen);
        } else {
            self.grid.scroll_down(self.scroll_top, self.scroll_bot, n, &pen);
        }
    }

    /// A control sequence that edits the screen.
    fn csi_edit(&mut self, params: &Vec<Vec<u16>>, action: char)
        requires
            old(self).wf(),
        ensures
            final(self).wf(),
            final(self)@ == old(self)@.csi_edit(groups(params@), action),
    {
        proof {
            reveal(TermView::csi_edit);
        }
        let n: usize = arg(params, 0, 1) as usize;
        match action {
            '@' => {
                let (x, y): (usize, usize) = (self.cursor.x, self.cursor.y);
                self.shift_right(x, y, n);
            },
            'J' => self.erase_in_display(arg(params, 0, 0)),
            'K' => self.erase_in_line(arg(params, 0, 0)),
            'L' => self.insert_lines(n),
            'M' => self.delete_lines(n),
            'P' => self.delete_chars(n),
            'S' => self.scroll_region(true, n),
            'T' => self.scroll_region(false, n),
            'X' => self.erase_chars(n),
            _ => {},
        }
    }

    /// Clear one tab stop, or all of them.
    fn clear_tabs(&mut self, all: bool)
        requires
            old(self).wf(),
        ensures
            final(self).wf(),
            final(self)@ == (if all {
                TermView { tabs: Seq::new(old(self)@.tabs.len(), |i: int| false), ..old(self)@ }
            } else if old(self)@.cursor.x < old(self)@.tabs.len() {
                TermView {
                    tabs: old(self)@.tabs.update(old(self)@.cursor.x, false),
                    ..old(self)@
                }
            } else {
                old(self)@
            }),
    {
        if all {
            let n: usize = self.tabs.len();
            self.tabs = vec![false; n];
            assert(self.tabs@ =~= Seq::new(n as nat, |i: int| false));
        } else if self.cursor.x < self.tabs.len() {
            self.tabs.set(self.cursor.x, false);
        }
    }

    fn set_tab(&mut self)
        requires
            old(self).wf(),
        ensures
            final(self).wf(),
            final(self)@ == (if old(self)@.cursor.x < old(self)@.tabs.len() {
                TermView { tabs: old(self)@.tabs.update(old(self)@.cursor.x, true), ..old(self)@ }
            } else {
                old(self)@
            }),
    {
        if self.cursor.x < self.tabs.len() {
            self.tabs.set(self.cursor.x, true);
        }
    }

    /// Queue an answer.
    fn reply(&mut self, bytes: &[u8])
        requires
            old(self).wf(),
        ensures
            final(self).wf(),
            final(self)@ == old(self)@.replied(bytes@),
    {
        let ghost before = self.replies@;
        self.replies.extend_from_slice(bytes);
        assert(self.replies@ =~= before + bytes@);
    }

    /// Queue the cursor's position.
    fn report_position(&mut self)
        requires
            old(self).wf(),
        ensures
            final(self).wf(),
            final(self)@ == old(self)@.replied(old(self)@.position_report()),
    {
        let (top, _) = self.bounds();
        let row: usize = if self.cursor.y < top {
            1
        } else {
            self.cursor.y - top + 1
        };
        let mut s: Vec<u8> = vec![0x1B, 0x5B];
        push_decimal(&mut s, row);
        s.push(0x3B);
        push_decimal(&mut s, self.cursor.x + 1);
        s.push(0x52);
        assert(s@ =~= self@.position_report());
        self.reply(s.as_slice());
    }

    /// Queue the size of the screen.
    fn report_size(&mut self)
        requires
            old(self).wf(),
        ensures
            final(self).wf(),
            final(self)@ == old(self)@.replied(old(self)@.size_report()),
    {
        let mut s: Vec<u8> = vec![0x1B, 0x5B, 0x38, 0x3B];
        push_decimal(&mut s, self.rows());
        s.push(0x3B);
        push_decimal(&mut s, self.cols());
        s.push(0x74);
        assert(s@ =~= self@.size_report());
        self.reply(s.as_slice());
    }

    /// Answer a device status request.
    fn report_status(&mut self, asked: u16)
        requires
            old(self).wf(),
        ensures
            final(self).wf(),
            final(self)@ == (if asked == 5 {
                old(self)@.replied(seq![0x1Bu8, 0x5B, 0x30, 0x6E])
            } else if asked == 6 {
                old(self)@.replied(old(self)@.position_report())
            } else {
                old(self)@
            }),
    {
        if asked == 5 {
            let ready: Vec<u8> = vec![0x1B, 0x5B, 0x30, 0x6E];
            assert(ready@ =~= seq![0x1Bu8, 0x5B, 0x30, 0x6E]);
            self.reply(ready.as_slice());
        } else if asked == 6 {
            self.report_position();
        }
    }

    /// Primary device attributes: claim to be a VT220 with colour.
    fn report_attributes(&mut self)
        requires
            old(self).wf(),
        ensures
            final(self).wf(),
            final(self)@ == old(self)@.replied(
                seq![0x1Bu8, 0x5B, 0x3F, 0x36, 0x32, 0x3B, 0x32, 0x32, 0x63],
            ),
    {
        let answer: Vec<u8> = vec![0x1B, 0x5B, 0x3F, 0x36, 0x32, 0x3B, 0x32, 0x32, 0x63];
        assert(answer@ =~= seq![0x1Bu8, 0x5B, 0x3F, 0x36, 0x32, 0x3B, 0x32, 0x32, 0x63]);
        self.reply(answer.as_slice());
    }

    /// DECSCUSR.
    fn set_cursor_style(&mut self, n: u16)
        requires
            old(self).wf(),
        ensures
            final(self).wf(),
            final(self)@ == (TermView {
                cursor_shape: cursor_style(n).0,
                cursor_blinks: cursor_style(n).1,
                ..old(self)@
            }),
    {
        let (shape, blink) = match n {
            0 | 1 => (CursorShape::Block, true),
            2 => (CursorShape::Block, false),
            3 => (CursorShape::Underline, true),
            4 => (CursorShape::Underline, false),
            5 => (CursorShape::Beam, true),
            _ => (CursorShape::Beam, false),
        };
        self.cursor_shape = shape;
        self.cursor_blinks = blink;
    }

    /// DECSTBM.
    fn set_region(&mut self, params: &Vec<Vec<u16>>)
        requires
            old(self).wf(),
        ensures
            final(self).wf(),
            final(self)@ == old(self)@.set_region(groups(params@)),
    {
        let last: usize = self.rows() - 1;
        let top: usize = arg(params, 0, 1) as usize - 1;
        let asked: usize = arg(params, 1, 0) as usize;
        let bot: usize = if asked == 0 {
            last
        } else {
            lesser(asked - 1, last)
        };
        if top < bot {
            self.scroll_top = top;
            self.scroll_bot = bot;
            self.goto(0, 0);
        }
    }

    /// A control sequence that sets or reports something.
    fn csi_set(&mut self, params: &Vec<Vec<u16>>, intermediates: &Vec<u8>, action: char)
        requires
            old(self).wf(),
        ensures
            final(self).wf(),
            final(self)@ == old(self)@.csi_set(groups(params@), intermediates@, action),
    {
        proof {
            reveal(TermView::csi_set);
        }
        let first = first_of(intermediates);
        match action {
            'g' => self.clear_tabs(arg(params, 0, 0) == 3),
            'h' => self.set_modes(params, first == Some(0x3Fu8), true),
            'l' => self.set_modes(params, first == Some(0x3Fu8), false),
            'm' => self.apply_sgr(params),
            'n' => self.report_status(arg(params, 0, 0)),
            'q' => {
                if first == Some(0x20u8) {
                    self.set_cursor_style(arg(params, 0, 1));
                }
            },
            'r' => self.set_region(params),
            'c' => self.report_attributes(),
            't' => {
                // Window manipulation; report a plausible size for `18t`.
                if arg(params, 0, 0) == 18 {
                    self.report_size();
                }
            },
            _ => {},
        }
    }

    fn csi_dispatch(
        &mut self,
        params: &Vec<Vec<u16>>,
        intermediates: &Vec<u8>,
        ignore: bool,
        action: char,
    )
        requires
            old(self).wf(),
        ensures
            final(self).wf(),
            final(self)@ == old(self)@.csi(groups(params@), intermediates@, ignore, action),
    {
        proof {
            reveal(TermView::csi);
        }
        self.signal();
        if ignore {
            return ;
        }
        self.mark_dirty();
        match action {
            'A' | 'B' | 'e' | 'C' | 'a' | 'D' | 'E' | 'F' | 'G' | '`' | 'H' | 'f' | 'I' | 'Z' | 'd'
            | 's' | 'u' => self.csi_move(params, action),
            '@' | 'J' | 'K' | 'L' | 'M' | 'P' | 'S' | 'T' | 'X' => self.csi_edit(params, action),
            _ => self.csi_set(params, intermediates, action),
        }
    }

    /// Designate a character set.
    fn designate(&mut self, g1: bool, set: Charset)
        requires
            old(self).wf(),
        ensures
            final(self).wf(),
            final(self)@ == (TermView {
                cursor: if g1 {
                    CursorView { g1: set, ..old(self)@.cursor }
                } else {
                    CursorView { g0: set, ..old(self)@.cursor }
                },
                ..old(self)@
            }),
    {
        if g1 {
            self.cursor.g1 = set;
        } else {
            self.cursor.g0 = set;
        }
    }

    /// DECALN: fill the screen with 'E'.
    fn alignment_test(&mut self)
        requires
            old(self).wf(),
        ensures
            final(self).wf(),
            final(self)@ == old(self)@.with_grid(
                old(self)@.grid.with_lines_filled(
                    0,
                    old(self)@.rows(),
                    Cell { ch: 0x45, ..old(self)@.blank() },
                ).damage_all(),
            ),
    {
        let mut c = Cell::blank(&self.cursor.pen);
        c.ch = 0x45;
        let rows: usize = self.rows();
        self.grid.fill_lines(0, rows, c);
        self.grid.damage_all();
    }

    fn esc_dispatch(&mut self, intermediates: &Vec<u8>, ignore: bool, byte: u8)
        requires
            old(self).wf(),
        ensures
            final(self).wf(),
            final(self)@ == old(self)@.esc(intermediates@, ignore, byte),
    {
        proof {
            reveal(TermView::esc);
        }
        self.signal();
        if ignore {
            return ;
        }
        self.mark_dirty();
        let first = first_of(intermediates);
        match byte {
            // Charset designation.
            0x30 => {
                if first == Some(0x28u8) {
                    self.designate(false, Charset::Graphics);
                } else if first == Some(0x29u8) {
                    self.designate(true, Charset::Graphics);
                }
            },
            0x42 => {
                if first == Some(0x28u8) {
                    self.designate(false, Charset::Ascii);
                } else if first == Some(0x29u8) {
                    self.designate(true, Charset::Ascii);
                }
            },
            // DECSC / DECRC
            0x37 => self.save_cursor(),
            0x38 => {
                if first == Some(0x23u8) {
                    self.alignment_test();
                } else {
                    self.restore_cursor();
                }
            },
            // IND / NEL / RI
            0x44 => self.linefeed_raw(),
            0x45 => {
                self.linefeed_raw();
                self.to_first_column();
            },
            0x4D => self.reverse_index(),
            // HTS
            0x48 => self.set_tab(),
            // Keypad modes.
            0x3D => self.switch(TermMode::APP_KEYPAD, true),
            0x3E => self.switch(TermMode::APP_KEYPAD, false),
            // RIS
            0x63 => self.full_reset(),
            _ => {},
        }
    }

    fn osc_dispatch(&mut self, params: &Vec<Vec<u8>>)
        requires
            old(self).wf(),
        ensures
            final(self).wf(),
            final(self)@ == old(self)@.osc(strings(params@)),
    {
        proof {
            reveal(TermView::osc);
        }
        self.signal();
        if params.len() < 2 {
            return ;
        }
        assert(strings(params@)[0] == params@[0]@);
        assert(strings(params@)[1] == params@[1]@);
        // Window or icon title.
        let cmd = &params[0];
        if cmd.len() == 1 && (cmd[0] == 0x30 || cmd[0] == 0x32) {
            assert(cmd@ =~= seq![cmd@[0]]);
            self.set_title(text_from_utf8_lossy(params[1].as_slice()));
        }
    }

    /// Set the title that the application wants its window to have.
    pub fn set_title(&mut self, title: String)
        requires
            old(self).wf(),
        ensures
            final(self).wf(),
            final(self)@ == old(self)@.titled(title@),
    {
        self.title = Some(title);
        self.title_revision = self.title_revision.wrapping_add(1);
    }

    /// Do what the escape-sequence parser found.
    pub fn perform(&mut self, action: &VtAction)
        requires
            old(self).wf(),
        ensures
            final(self).wf(),
            final(self)@ == old(self)@.performed(action@),
    {
        match action {
            VtAction::Print(c) => self.print(*c),
            VtAction::Execute(byte) => self.execute(*byte),
            VtAction::Csi { params, intermediates, ignore, action } => self.csi_dispatch(
                params,
                intermediates,
                *ignore,
                *action,
            ),
            VtAction::Esc { intermediates, ignore, byte } => self.esc_dispatch(
                intermediates,
                *ignore,
                *byte,
            ),
            VtAction::Osc(params) => self.osc_dispatch(params),
            // Entering a device control string is explicitly not a return to the ground state.
            VtAction::Hook => {},
            VtAction::Put(_) => {},
            VtAction::Unhook => self.signal(),
        }
    }
}

} // verus!
