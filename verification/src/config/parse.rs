//! Reading a configuration file.

use vstd::prelude::*;
use vstd::string::StringExecFns;

use super::lines::{line_says, read_line, Line, LineView};
use super::values::{
    antialias_value, backdrop_value, color_value, count_value, flag_value, frame, framed,
    number_value, parse_antialias, parse_backdrop, parse_bool, parse_hex, parse_single, parse_usize,
};
use super::{default_config, finished, Backdrop, Config, ConfigView, Reading, ReadingView, Single};
use crate::text::{
    chars_of, decimal_text, part_views, parts, parse_whole, push_number, reads, split_parts,
    split_words, string_of, texts, whole_number, words,
};

verus! {

/// Is this the name of a setting with a fraction?
pub open spec fn takes_number(key: Seq<char>) -> bool {
    key == "font.size"@ || key == "font.gamma"@ || key == "font.contrast"@ || key
        == "font.line_height"@ || key == "font.cell_width"@ || key == "window.padding_x"@ || key
        == "window.padding_y"@ || key == "window.opacity"@
}

/// What a setting that took leaves, or what is said of one that did not.
pub type Outcome = Result<ConfigView, Seq<char>>;

/// A change that depends on a value.
pub open spec fn then_set<T>(
    value: Result<T, Seq<char>>,
    change: spec_fn(T) -> ConfigView,
) -> Option<Outcome> {
    match value {
        Ok(v) => Some(Ok(change(v))),
        Err(e) => Some(Err(e)),
    }
}

/// The settings of the font; nothing for another key.
#[verifier::opaque]
pub open spec fn font_setting(
    c: ConfigView,
    key: Seq<char>,
    value: Seq<char>,
    r: ReadingView,
) -> Option<Outcome> {
    let half = (0x3F00_0000u32, "0.5"@);
    let three = (0x4040_0000u32, "3"@);
    if key == "font.family"@ {
        Some(Ok(ConfigView { family: value, ..c }))
    } else if key == "font.size"@ {
        then_set(
            number_value(value, r, (0x4080_0000, "4"@), (0x4348_0000, "200"@)),
            |n: Single| ConfigView { size: n, ..c },
        )
    } else if key == "font.antialias"@ {
        then_set(antialias_value(value), |a: super::Antialias| ConfigView { antialias: a, ..c })
    } else if key == "font.gamma"@ {
        then_set(number_value(value, r, half, three), |n: Single| ConfigView { gamma: n, ..c })
    } else if key == "font.contrast"@ {
        then_set(
            number_value(value, r, (0, "0"@), (0x3F80_0000, "1"@)),
            |n: Single| ConfigView { contrast: n, ..c },
        )
    } else if key == "font.line_height"@ {
        then_set(number_value(value, r, half, three), |n: Single| ConfigView { line_height: n, ..c })
    } else if key == "font.cell_width"@ {
        then_set(number_value(value, r, half, three), |n: Single| ConfigView { cell_width: n, ..c })
    } else if key == "font.bold"@ {
        then_set(flag_value(value), |b: bool| ConfigView { use_bold_font: b, ..c })
    } else if key == "font.italic"@ {
        then_set(flag_value(value), |b: bool| ConfigView { use_italic_font: b, ..c })
    } else {
        None
    }
}

/// The settings of the window; nothing for another key.
#[verifier::opaque]
pub open spec fn window_setting(
    c: ConfigView,
    key: Seq<char>,
    value: Seq<char>,
    r: ReadingView,
) -> Option<Outcome> {
    if key == "window.cols"@ {
        then_set(count_value(value, 8, 2000), |n: usize| ConfigView { cols: n, ..c })
    } else if key == "window.rows"@ {
        then_set(count_value(value, 2, 1000), |n: usize| ConfigView { rows: n, ..c })
    } else if key == "window.padding_x"@ {
        then_set(
            number_value(value, r, (0, "0"@), (0x4348_0000, "200"@)),
            |n: Single| ConfigView { padding_x: n, ..c },
        )
    } else if key == "window.padding_y"@ {
        then_set(
            number_value(value, r, (0, "0"@), (0x4348_0000, "200"@)),
            |n: Single| ConfigView { padding_y: n, ..c },
        )
    } else if key == "window.opacity"@ {
        then_set(
            number_value(value, r, (0x3DCC_CCCD, "0.1"@), (0x3F80_0000, "1"@)),
            |n: Single| ConfigView { opacity: n, opacity_explicit: true, ..c },
        )
    } else if key == "window.backdrop"@ {
        then_set(backdrop_value(value), |b: Backdrop| ConfigView { backdrop: b, ..c })
    } else if key == "window.blur"@ {
        then_set(
            flag_value(value),
            |b: bool|
                ConfigView {
                    backdrop: if b {
                        Backdrop::Acrylic
                    } else {
                        Backdrop::NoBackdrop
                    },
                    ..c
                },
        )
    } else {
        None
    }
}

/// The settings of drawing, the shell and scrollback; nothing for another key.
#[verifier::opaque]
pub open spec fn other_setting(c: ConfigView, key: Seq<char>, value: Seq<char>) -> Option<Outcome> {
    if key == "render.vsync"@ {
        then_set(flag_value(value), |b: bool| ConfigView { vsync: b, ..c })
    } else if key == "render.max_fps"@ {
        then_set(count_value(value, 0, 1000), |n: usize| ConfigView { max_fps: n as u32, ..c })
    } else if key == "render.sync_timeout_ms"@ {
        then_set(
            count_value(value, 0, 5000),
            |n: usize| ConfigView { sync_timeout_ms: n as u64, ..c },
        )
    } else if key == "shell.program"@ {
        Some(Ok(ConfigView { program: value, ..c }))
    } else if key == "shell.args"@ {
        Some(Ok(ConfigView { args: words(value), ..c }))
    } else if key == "scrollback"@ {
        then_set(count_value(value, 0, 5_000_000), |n: usize| ConfigView { scrollback: n, ..c })
    } else {
        None
    }
}

/// Does `key` start with `theme.ansi`?
pub open spec fn names_slot(key: Seq<char>) -> bool {
    key.len() >= "theme.ansi"@.len() && key.take("theme.ansi"@.len() as int) == "theme.ansi"@
}

/// A palette slot: `theme.ansi0` to `theme.ansi15`.
pub open spec fn slot_setting(c: ConfigView, key: Seq<char>, value: Seq<char>) -> Option<Outcome> {
    match whole_number(key.skip("theme.ansi"@.len() as int)) {
        None => Some(Err(framed("bad palette index in `"@, key, "`"@))),
        Some(i) => if i >= 16 {
            Some(
                Err(
                    framed(
                        "palette index "@,
                        decimal_text(i as nat),
                        " out of range (0-15)"@,
                    ),
                ),
            )
        } else {
            then_set(
                color_value(value),
                |rgb: [u8; 3]| ConfigView { ansi: c.ansi.update(i as int, Some(rgb)), ..c },
            )
        },
    }
}

/// The settings of the theme; nothing for another key.
#[verifier::opaque]
pub open spec fn theme_setting(c: ConfigView, key: Seq<char>, value: Seq<char>) -> Option<Outcome> {
    if key == "theme.background"@ {
        then_set(color_value(value), |rgb: [u8; 3]| ConfigView { background: rgb, ..c })
    } else if key == "theme.foreground"@ {
        then_set(color_value(value), |rgb: [u8; 3]| ConfigView { foreground: rgb, ..c })
    } else if key == "theme.cursor"@ {
        then_set(color_value(value), |rgb: [u8; 3]| ConfigView { cursor: rgb, ..c })
    } else if key == "theme.cursor_text"@ {
        then_set(color_value(value), |rgb: [u8; 3]| ConfigView { cursor_text: rgb, ..c })
    } else if key == "theme.selection_bg"@ {
        then_set(color_value(value), |rgb: [u8; 3]| ConfigView { selection_bg: rgb, ..c })
    } else if key == "theme.selection_fg"@ {
        then_set(color_value(value), |rgb: [u8; 3]| ConfigView { selection_fg: Some(rgb), ..c })
    } else if key == "theme.bold_is_bright"@ {
        then_set(flag_value(value), |b: bool| ConfigView { bold_is_bright: b, ..c })
    } else if names_slot(key) {
        slot_setting(c, key, value)
    } else {
        None
    }
}

/// What setting `key` to `value` leaves, or what is said against it.
#[verifier::opaque]
pub open spec fn setting(
    c: ConfigView,
    key: Seq<char>,
    value: Seq<char>,
    r: ReadingView,
) -> Outcome {
    if font_setting(c, key, value, r) is Some {
        font_setting(c, key, value, r)->0
    } else if window_setting(c, key, value, r) is Some {
        window_setting(c, key, value, r)->0
    } else if other_setting(c, key, value) is Some {
        other_setting(c, key, value)->0
    } else if theme_setting(c, key, value) is Some {
        theme_setting(c, key, value)->0
    } else {
        Err(framed("unknown key `"@, key, "`"@))
    }
}

/// Does an attempt at a setting do what it should? Where it fails, nothing has changed.
pub open spec fn attempted(
    before: ConfigView,
    after: ConfigView,
    r: Option<Result<(), String>>,
    should: Option<Outcome>,
) -> bool {
    match r {
        None => should is None && after == before,
        Some(Ok(_)) => should == Some(Ok::<ConfigView, Seq<char>>(after)),
        Some(Err(e)) => should == Some(Err::<ConfigView, Seq<char>>(e@)) && after == before,
    }
}

impl Config {
    fn set_font(&mut self, key: &[char], value: &[char], reading: &Reading) -> (r: Option<
        Result<(), String>,
    >)
        ensures
            attempted(
                old(self)@,
                final(self)@,
                r,
                font_setting(old(self)@, key@, value@, reading@),
            ),
    {
        proof {
            reveal(font_setting);
        }
        if reads(key, "font.family") {
            self.font.family = string_of(value);
        } else if reads(key, "font.size") {
            match parse_single(value, reading, (0x4080_0000, "4"), (0x4348_0000, "200")) {
                Ok(n) => self.font.size = n,
                Err(e) => return Some(Err(e)),
            }
        } else if reads(key, "font.antialias") {
            match parse_antialias(value) {
                Ok(a) => self.font.antialias = a,
                Err(e) => return Some(Err(e)),
            }
        } else if reads(key, "font.gamma") {
            match parse_single(value, reading, (0x3F00_0000, "0.5"), (0x4040_0000, "3")) {
                Ok(n) => self.font.gamma = n,
                Err(e) => return Some(Err(e)),
            }
        } else if reads(key, "font.contrast") {
            match parse_single(value, reading, (0, "0"), (0x3F80_0000, "1")) {
                Ok(n) => self.font.contrast = n,
                Err(e) => return Some(Err(e)),
            }
        } else if reads(key, "font.line_height") {
            match parse_single(value, reading, (0x3F00_0000, "0.5"), (0x4040_0000, "3")) {
                Ok(n) => self.font.line_height = n,
                Err(e) => return Some(Err(e)),
            }
        } else if reads(key, "font.cell_width") {
            match parse_single(value, reading, (0x3F00_0000, "0.5"), (0x4040_0000, "3")) {
                Ok(n) => self.font.cell_width = n,
                Err(e) => return Some(Err(e)),
            }
        } else if reads(key, "font.bold") {
            match parse_bool(value) {
                Ok(b) => self.font.use_bold_font = b,
                Err(e) => return Some(Err(e)),
            }
        } else if reads(key, "font.italic") {
            match parse_bool(value) {
                Ok(b) => self.font.use_italic_font = b,
                Err(e) => return Some(Err(e)),
            }
        } else {
            return None;
        }
        Some(Ok(()))
    }

    fn set_window(&mut self, key: &[char], value: &[char], reading: &Reading) -> (r: Option<
        Result<(), String>,
    >)
        ensures
            attempted(
                old(self)@,
                final(self)@,
                r,
                window_setting(old(self)@, key@, value@, reading@),
            ),
    {
        proof {
            reveal(window_setting);
        }
        if reads(key, "window.cols") {
            match parse_usize(value, 8, 2000) {
                Ok(n) => self.window.cols = n,
                Err(e) => return Some(Err(e)),
            }
        } else if reads(key, "window.rows") {
            match parse_usize(value, 2, 1000) {
                Ok(n) => self.window.rows = n,
                Err(e) => return Some(Err(e)),
            }
        } else if reads(key, "window.padding_x") {
            match parse_single(value, reading, (0, "0"), (0x4348_0000, "200")) {
                Ok(n) => self.window.padding_x = n,
                Err(e) => return Some(Err(e)),
            }
        } else if reads(key, "window.padding_y") {
            match parse_single(value, reading, (0, "0"), (0x4348_0000, "200")) {
                Ok(n) => self.window.padding_y = n,
                Err(e) => return Some(Err(e)),
            }
        } else if reads(key, "window.opacity") {
            match parse_single(value, reading, (0x3DCC_CCCD, "0.1"), (0x3F80_0000, "1")) {
                Ok(n) => {
                    self.window.opacity = n;
                    self.window.opacity_explicit = true;
                },
                Err(e) => return Some(Err(e)),
            }
        } else if reads(key, "window.backdrop") {
            match parse_backdrop(value) {
                Ok(b) => self.window.backdrop = b,
                Err(e) => return Some(Err(e)),
            }
        } else if reads(key, "window.blur") {
            match parse_bool(value) {
                Ok(b) => {
                    self.window.backdrop = if b {
                        Backdrop::Acrylic
                    } else {
                        Backdrop::NoBackdrop
                    };
                },
                Err(e) => return Some(Err(e)),
            }
        } else {
            return None;
        }
        Some(Ok(()))
    }

    fn set_other(&mut self, key: &[char], value: &[char]) -> (r: Option<Result<(), String>>)
        ensures
            attempted(old(self)@, final(self)@, r, other_setting(old(self)@, key@, value@)),
    {
        proof {
            reveal(other_setting);
        }
        if reads(key, "render.vsync") {
            match parse_bool(value) {
                Ok(b) => self.render.vsync = b,
                Err(e) => return Some(Err(e)),
            }
        } else if reads(key, "render.max_fps") {
            match parse_usize(value, 0, 1000) {
                Ok(n) => self.render.max_fps = n as u32,
                Err(e) => return Some(Err(e)),
            }
        } else if reads(key, "render.sync_timeout_ms") {
            match parse_usize(value, 0, 5000) {
                Ok(n) => self.render.sync_timeout_ms = n as u64,
                Err(e) => return Some(Err(e)),
            }
        } else if reads(key, "shell.program") {
            self.shell.program = string_of(value);
        } else if reads(key, "shell.args") {
            self.shell.args = split_words(value);
        } else if reads(key, "scrollback") {
            match parse_usize(value, 0, 5_000_000) {
                Ok(n) => self.scrollback = n,
                Err(e) => return Some(Err(e)),
            }
        } else {
            return None;
        }
        Some(Ok(()))
    }

    fn set_theme(&mut self, key: &[char], value: &[char]) -> (r: Option<Result<(), String>>)
        ensures
            attempted(old(self)@, final(self)@, r, theme_setting(old(self)@, key@, value@)),
    {
        proof {
            reveal(theme_setting);
        }
        if reads(key, "theme.background") {
            match parse_hex(value) {
                Ok(rgb) => self.theme.background = rgb,
                Err(e) => return Some(Err(e)),
            }
        } else if reads(key, "theme.foreground") {
            match parse_hex(value) {
                Ok(rgb) => self.theme.foreground = rgb,
                Err(e) => return Some(Err(e)),
            }
        } else if reads(key, "theme.cursor") {
            match parse_hex(value) {
                Ok(rgb) => self.theme.cursor = rgb,
                Err(e) => return Some(Err(e)),
            }
        } else if reads(key, "theme.cursor_text") {
            match parse_hex(value) {
                Ok(rgb) => self.theme.cursor_text = rgb,
                Err(e) => return Some(Err(e)),
            }
        } else if reads(key, "theme.selection_bg") {
            match parse_hex(value) {
                Ok(rgb) => self.theme.selection_bg = rgb,
                Err(e) => return Some(Err(e)),
            }
        } else if reads(key, "theme.selection_fg") {
            match parse_hex(value) {
                Ok(rgb) => self.theme.selection_fg = Some(rgb),
                Err(e) => return Some(Err(e)),
            }
        } else if reads(key, "theme.bold_is_bright") {
            match parse_bool(value) {
                Ok(b) => self.theme.bold_is_bright = b,
                Err(e) => return Some(Err(e)),
            }
        } else {
            return self.set_slot(key, value);
        }
        Some(Ok(()))
    }

    /// `theme.ansi0` to `theme.ansi15`.
    fn set_slot(&mut self, key: &[char], value: &[char]) -> (r: Option<Result<(), String>>)
        ensures
            attempted(
                old(self)@,
                final(self)@,
                r,
                if names_slot(key@) {
                    slot_setting(old(self)@, key@, value@)
                } else {
                    None
                },
            ),
    {
        let prefix = chars_of("theme.ansi");
        let n: usize = prefix.len();
        if key.len() < n {
            return None;
        }
        let start = &key[0..n];
        assert(start@ =~= key@.take(n as int));
        if !reads(start, "theme.ansi") {
            return None;
        }
        let rest = &key[n..key.len()];
        assert(rest@ =~= key@.skip(n as int));
        match parse_whole(rest) {
            None => Some(Err(frame("bad palette index in `", key, "`"))),
            Some(i) => {
                if i >= 16 {
                    let mut s = String::from_str("palette index ");
                    push_number(&mut s, i);
                    s.append(" out of range (0-15)");
                    Some(Err(s))
                } else {
                    match parse_hex(value) {
                        Ok(rgb) => {
                            self.theme.ansi[i] = Some(rgb);
                            Some(Ok(()))
                        },
                        Err(e) => Some(Err(e)),
                    }
                }
            },
        }
    }

    /// Set `key` to `value`. A setting with a fraction takes its number from `reading`.
    pub fn set(&mut self, key: &[char], value: &[char], reading: &Reading) -> (r: Result<
        (),
        String,
    >)
        ensures
            match r {
                Ok(_) => setting(old(self)@, key@, value@, reading@) == Ok::<ConfigView, Seq<char>>(
                    final(self)@,
                ),
                Err(e) => setting(old(self)@, key@, value@, reading@)
                    == Err::<ConfigView, Seq<char>>(e@) && final(self)@ == old(self)@,
            },
    {
        proof {
            reveal(setting);
        }
        if let Some(r) = self.set_font(key, value, reading) {
            return r;
        }
        if let Some(r) = self.set_window(key, value, reading) {
            return r;
        }
        if let Some(r) = self.set_other(key, value) {
            return r;
        }
        if let Some(r) = self.set_theme(key, value) {
            return r;
        }
        Err(frame("unknown key `", key, "`"))
    }
}

/// A reading that is not there.
pub open spec fn no_reading() -> ReadingView {
    ReadingView { number: None, shown: Seq::empty() }
}

/// Reading `i`, or none.
pub open spec fn reading_at(readings: Seq<ReadingView>, i: int) -> ReadingView {
    if 0 <= i < readings.len() {
        readings[i]
    } else {
        no_reading()
    }
}

/// The contents of a list of readings.
pub open spec fn reading_views(v: Seq<Reading>) -> Seq<ReadingView> {
    Seq::new(v.len(), |i: int| v[i]@)
}

/// How many of the first `n` lines set something with a fraction.
pub open spec fn numbers_before(lines: Seq<Seq<char>>, n: int) -> Seq<Seq<char>>
    decreases n,
{
    if n <= 0 {
        Seq::empty()
    } else {
        let before = numbers_before(lines, n - 1);
        match line_says(lines[n - 1]) {
            LineView::Setting(key, value) => if takes_number(key) {
                before.push(value)
            } else {
                before
            },
            _ => before,
        }
    }
}

/// A warning about line `number`.
pub open spec fn line_warning(number: nat, what: Seq<char>) -> Seq<char> {
    "line "@ + decimal_text(number) + ": "@ + what
}

/// The settings with one more warning.
pub open spec fn warned(c: ConfigView, number: nat, what: Seq<char>) -> ConfigView {
    ConfigView { warnings: c.warnings.push(line_warning(number, what)), ..c }
}

/// The settings after a line. A line that cannot be read, or whose setting does not take, leaves a
/// warning and nothing else.
pub open spec fn after_line(
    c: ConfigView,
    number: nat,
    line: LineView,
    reading: ReadingView,
) -> ConfigView {
    match line {
        LineView::Blank => c,
        LineView::Malformed => warned(c, number, "expected `key = value`"@),
        LineView::Setting(key, value) => match setting(c, key, value, reading) {
            Ok(d) => d,
            Err(what) => warned(c, number, what),
        },
    }
}

/// The settings after the first `n` lines.
pub open spec fn after_lines(
    lines: Seq<Seq<char>>,
    readings: Seq<ReadingView>,
    n: int,
) -> ConfigView
    decreases n,
{
    if n <= 0 {
        default_config()
    } else {
        after_line(
            after_lines(lines, readings, n - 1),
            n as nat,
            line_says(lines[n - 1]),
            reading_at(readings, numbers_before(lines, n - 1).len() as int),
        )
    }
}

/// The settings that a file makes.
pub open spec fn parsed(text: Seq<char>, readings: Seq<ReadingView>) -> ConfigView {
    let lines = parts(text, '\n');
    finished(after_lines(lines, readings, lines.len() as int))
}

/// Is this the name of a setting with a fraction?
fn wants_number(key: &[char]) -> (r: bool)
    ensures
        r == takes_number(key@),
{
    reads(key, "font.size") || reads(key, "font.gamma") || reads(key, "font.contrast") || reads(
        key,
        "font.line_height",
    ) || reads(key, "font.cell_width") || reads(key, "window.padding_x") || reads(
        key,
        "window.padding_y",
    ) || reads(key, "window.opacity")
}

impl Config {
    /// Note a warning about line `number`.
    fn warn(&mut self, number: usize, what: &str)
        ensures
            final(self)@ == warned(old(self)@, number as nat, what@),
    {
        let mut s = String::from_str("line ");
        push_number(&mut s, number);
        s.append(": ");
        s.append(what);
        let ghost said = s@;
        let ghost before = texts(self.warnings@);
        self.warnings.push(s);
        assert(texts(self.warnings@) =~= before.push(said));
    }

    /// The texts in a file that are to be read as numbers with a fraction, in order.
    pub fn numbers_wanted(text: &str) -> (v: Vec<String>)
        ensures
            ({
                let lines = parts(text@, '\n');
                texts(v@) == numbers_before(lines, lines.len() as int)
            }),
    {
        let lines = split_parts(chars_of(text).as_slice(), '\n');
        let ghost all = parts(text@, '\n');
        let mut v: Vec<String> = Vec::new();
        let mut i: usize = 0;
        assert(texts(v@) =~= numbers_before(all, 0));
        while i < lines.len()
            invariant
                i <= lines@.len(),
                all == part_views(lines@),
                texts(v@) == numbers_before(all, i as int),
            decreases lines@.len() - i,
        {
            let ghost before = texts(v@);
            assert(all[i as int] == lines@[i as int]@);
            match read_line(lines[i].as_slice()) {
                Line::Setting(key, value) => {
                    if wants_number(key) {
                        v.push(string_of(value));
                        assert(texts(v@) =~= before.push(value@));
                    }
                },
                _ => {},
            }
            i += 1;
        }
        v
    }

    /// Read a file. `readings` holds what the texts of [`Config::numbers_wanted`] read as, in
    /// order; one that is missing counts as no number.
    pub fn parse(text: &str, readings: &Vec<Reading>) -> (c: Config)
        ensures
            c@ == parsed(text@, reading_views(readings@)),
    {
        let lines = split_parts(chars_of(text).as_slice(), '\n');
        let ghost all = parts(text@, '\n');
        let ghost numbers = reading_views(readings@);
        let none = Reading { number: None, shown: String::new() };
        assert(none@ == no_reading());
        let mut c = Config::default();
        let mut used: usize = 0;
        let mut i: usize = 0;
        while i < lines.len()
            invariant
                i <= lines@.len(),
                used <= i,
                all == part_views(lines@),
                numbers == reading_views(readings@),
                none@ == no_reading(),
                used == numbers_before(all, i as int).len(),
                c@ == after_lines(all, numbers, i as int),
            decreases lines@.len() - i,
        {
            assert(all[i as int] == lines@[i as int]@);
            match read_line(lines[i].as_slice()) {
                Line::Blank => {},
                Line::Malformed => {
                    c.warn(i + 1, "expected `key = value`");
                },
                Line::Setting(key, value) => {
                    let reading = if used < readings.len() {
                        &readings[used]
                    } else {
                        &none
                    };
                    assert(reading@ == reading_at(numbers, used as int));
                    match c.set(key, value, reading) {
                        Ok(_) => {},
                        Err(what) => {
                            c.warn(i + 1, what.as_str());
                        },
                    }
                    if wants_number(key) {
                        used += 1;
                    }
                },
            }
            i += 1;
        }
        c.finish();
        c
    }
}

/// An unknown key is reported and changes nothing else.
pub proof fn unknown_keys_are_reported(
    c: ConfigView,
    number: nat,
    key: Seq<char>,
    value: Seq<char>,
    reading: ReadingView,
)
    requires
        font_setting(c, key, value, reading) is None,
        window_setting(c, key, value, reading) is None,
        other_setting(c, key, value) is None,
        theme_setting(c, key, value) is None,
    ensures
        after_line(c, number, LineView::Setting(key, value), reading) == warned(
            c,
            number,
            framed("unknown key `"@, key, "`"@),
        ),
{
    reveal(setting);
}

/// Whatever a line says, it leaves at most one warning, after those that are there; and where it
/// leaves one, it changes nothing else.
pub proof fn bad_lines_only_warn(c: ConfigView, number: nat, line: LineView, reading: ReadingView)
    ensures
        ({
            let after = after_line(c, number, line, reading);
            ||| after.warnings == c.warnings
            ||| after == (ConfigView { warnings: after.warnings, ..c }) && after.warnings.len()
                == c.warnings.len() + 1 && after.warnings.drop_last() == c.warnings
        }),
{
    let after = after_line(c, number, line, reading);
    match line {
        LineView::Setting(key, value) => {
            lemma_settings_keep_warnings(c, key, value, reading);
            match setting(c, key, value, reading) {
                Ok(d) => {},
                Err(what) => {
                    assert(warned(c, number, what).warnings.drop_last() =~= c.warnings);
                },
            }
        },
        LineView::Malformed => {
            assert(after.warnings.drop_last() =~= c.warnings);
        },
        LineView::Blank => {},
    }
}

/// A setting that takes leaves the warnings as they are.
proof fn lemma_settings_keep_warnings(
    c: ConfigView,
    key: Seq<char>,
    value: Seq<char>,
    reading: ReadingView,
)
    ensures
        setting(c, key, value, reading) is Ok ==> setting(c, key, value, reading)->Ok_0.warnings
            == c.warnings,
{
    lemma_font_keeps_warnings(c, key, value, reading);
    lemma_window_keeps_warnings(c, key, value, reading);
    lemma_other_keeps_warnings(c, key, value);
    lemma_theme_keeps_warnings(c, key, value);
    reveal(setting);
}

/// Does an outcome keep the warnings?
spec fn keeps_warnings(c: ConfigView, o: Option<Outcome>) -> bool {
    match o {
        Some(Ok(d)) => d.warnings == c.warnings,
        _ => true,
    }
}

proof fn lemma_font_keeps_warnings(
    c: ConfigView,
    key: Seq<char>,
    value: Seq<char>,
    r: ReadingView,
)
    ensures
        keeps_warnings(c, font_setting(c, key, value, r)),
{
    reveal(font_setting);
}

proof fn lemma_window_keeps_warnings(
    c: ConfigView,
    key: Seq<char>,
    value: Seq<char>,
    r: ReadingView,
)
    ensures
        keeps_warnings(c, window_setting(c, key, value, r)),
{
    reveal(window_setting);
}

proof fn lemma_other_keeps_warnings(c: ConfigView, key: Seq<char>, value: Seq<char>)
    ensures
        keeps_warnings(c, other_setting(c, key, value)),
{
    reveal(other_setting);
}

proof fn lemma_theme_keeps_warnings(c: ConfigView, key: Seq<char>, value: Seq<char>)
    ensures
        keeps_warnings(c, theme_setting(c, key, value)),
{
    reveal(theme_setting);
}

} // verus!
