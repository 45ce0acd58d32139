//! What a configuration file means, line by line and value by value.

use vstd::prelude::*;

use super::lines::{ascii_space, comment_at, comment_start, line_says, quoted, uncommented, LineView};
use super::parse::{
    after_line, after_lines, font_setting, numbers_before, other_setting, parsed, setting,
    takes_number, theme_setting, window_setting, Outcome,
};
use super::values::{
    antialias_value, backdrop_value, color_value, count_value, flag_value, framed, hex_digit,
    number_value,
};
use super::{
    default_config, finished, palette_color, see_through, Antialias, Backdrop, ConfigView, ReadingView, Single,
};
use crate::text::{decimal_text, find, parts, trim, trim_end, whitespace, whole_number, words};
use crate::text_laws::{numbers_read_back, the_first_is_found, trimmed_texts_stay};

verus! {

/// Digits from 0 to 9 stand for themselves, and letters from A to F, large or small, for ten to
/// fifteen; nothing else is a hexadecimal digit.
pub proof fn hex_digits_have_values(c: char)
    ensures
        48 <= c as u32 <= 57 ==> hex_digit(c) == Some((c as u32 - 48) as u8),
        97 <= c as u32 <= 102 ==> hex_digit(c) == Some((c as u32 - 97 + 10) as u8),
        65 <= c as u32 <= 70 ==> hex_digit(c) == Some((c as u32 - 65 + 10) as u8),
        !(48 <= c as u32 <= 57) && !(97 <= c as u32 <= 102) && !(65 <= c as u32 <= 70) ==> hex_digit(
            c,
        ) is None,
{
}

/// Six hexadecimal digits are a colour, two for each of red, green and blue, with a number sign in
/// front or without.
pub proof fn six_digits_are_a_color(s: Seq<char>)
    requires
        s.len() == 6,
        forall|i: int| 0 <= i < 6 ==> hex_digit(#[trigger] s[i]) is Some,
    ensures
        color_value(s) is Ok,
        color_value(seq!['#'] + s) == color_value(s),
        ({
            let rgb = color_value(s)->Ok_0;
            &&& rgb@[0] == 16 * hex_digit(s[0])->0 + hex_digit(s[1])->0
            &&& rgb@[1] == 16 * hex_digit(s[2])->0 + hex_digit(s[3])->0
            &&& rgb@[2] == 16 * hex_digit(s[4])->0 + hex_digit(s[5])->0
        }),
{
    assert(hex_digit(s[0]) is Some);
    assert(s[0] != '#');
    assert((seq!['#'] + s).skip(1) =~= s);
    assert forall|i: int| 0 <= i < 6 implies hex_digit(#[trigger] s[i])->0 < 16 by {
        assert(hex_digit(s[i]) is Some);
    }
}

/// Anything else is no colour.
pub proof fn other_texts_are_no_colors(s: Seq<char>, i: int)
    requires
        s.len() > 0 ==> s[0] != '#',
        s.len() != 6 || 0 <= i < 6 && hex_digit(s[i]) is None,
    ensures
        color_value(s) is Err,
        color_value(seq!['#'] + s) is Err,
{
    assert((seq!['#'] + s).skip(1) =~= s);
}

/// The words for yes, and the words for no.
pub proof fn words_are_yes_or_no(value: Seq<char>)
    ensures
        value == seq!['t', 'r', 'u', 'e'] || value == seq!['y', 'e', 's'] || value == seq!['o', 'n']
            || value == seq!['1'] ==> flag_value(value) == Ok::<bool, Seq<char>>(true),
        value == seq!['f', 'a', 'l', 's', 'e'] || value == seq!['n', 'o'] || value == seq![
            'o',
            'f',
            'f',
        ] || value == seq!['0'] ==> flag_value(value) == Ok::<bool, Seq<char>>(false),
        flag_value(value) is Ok ==> value.len() <= 5,
{
    reveal_strlit("true");
    reveal_strlit("yes");
    reveal_strlit("on");
    reveal_strlit("1");
    reveal_strlit("false");
    reveal_strlit("no");
    reveal_strlit("off");
    reveal_strlit("0");
    assert("true"@ =~= seq!['t', 'r', 'u', 'e']);
    assert("yes"@ =~= seq!['y', 'e', 's']);
    assert("on"@ =~= seq!['o', 'n']);
    assert("1"@ =~= seq!['1']);
    assert("false"@ =~= seq!['f', 'a', 'l', 's', 'e']);
    assert("no"@ =~= seq!['n', 'o']);
    assert("off"@ =~= seq!['o', 'f', 'f']);
    assert("0"@ =~= seq!['0']);
    assert(seq!['f', 'a', 'l', 's', 'e'].len() == 5);
    assert(seq!['n', 'o'][0] == 'n');
    assert(seq!['o', 'f', 'f'][0] == 'o');
    assert(seq!['0'][0] == '0');
    assert(seq!['o', 'n'][0] == 'o');
    assert(seq!['y', 'e', 's'][0] == 'y');
}

/// A whole number that is within its bounds is taken; one that is not, or a text that is none, is not.
pub proof fn counts_are_bounded(n: usize, lo: usize, hi: usize, value: Seq<char>)
    ensures
        lo <= n <= hi ==> count_value(decimal_text(n as nat), lo, hi) == Ok::<usize, Seq<char>>(n),
        !(lo <= n <= hi) ==> count_value(decimal_text(n as nat), lo, hi) is Err,
        whole_number(value) is None ==> count_value(value, lo, hi) is Err,
{
    numbers_read_back(n);
}

/// A number with a fraction is taken if it is no less than the lower bound and no more than the upper
/// one, as numbers without a sign; a zero with a sign is zero, and what is not a number is never taken.
pub proof fn numbers_are_bounded(
    value: Seq<char>,
    n: Single,
    shown: Seq<char>,
    lo: (u32, Seq<char>),
    hi: (u32, Seq<char>),
)
    requires
        lo.0 <= hi.0 <= 0x7F80_0000,
    ensures
        ({
            let r = ReadingView { number: Some(n), shown };
            &&& lo.0 <= n.0 <= hi.0 ==> number_value(value, r, lo, hi) == Ok::<Single, Seq<char>>(n)
            &&& n.0 == 0x8000_0000 && lo.0 == 0 ==> number_value(value, r, lo, hi) == Ok::<
                Single,
                Seq<char>,
            >(n)
            &&& n.0 != 0x8000_0000 && !(lo.0 <= n.0 <= hi.0) ==> number_value(value, r, lo, hi) is Err
            &&& number_value(value, ReadingView { number: None, shown }, lo, hi) is Err
        }),
{
}

/// What a setting with a number does: it changes one thing, if the number is within its bounds.
pub open spec fn takes_single(
    o: Outcome,
    r: ReadingView,
    lo: u32,
    hi: u32,
    change: spec_fn(Single) -> ConfigView,
) -> bool {
    match r.number {
        Some(n) => {
            &&& lo <= n.0 <= hi ==> o == Ok::<ConfigView, Seq<char>>(change(n))
            &&& n.0 != 0x8000_0000 && !(lo <= n.0 <= hi) ==> o is Err
        },
        None => o is Err,
    }
}

/// Neither bound of a number has a sign.
proof fn lemma_takes_single(
    value: Seq<char>,
    r: ReadingView,
    lo: (u32, Seq<char>),
    hi: (u32, Seq<char>),
)
    requires
        lo.0 <= hi.0 <= 0x7F80_0000,
    ensures
        match r.number {
            Some(n) => {
                &&& lo.0 <= n.0 <= hi.0 ==> number_value(value, r, lo, hi) == Ok::<Single, Seq<char>>(n)
                &&& n.0 != 0x8000_0000 && !(lo.0 <= n.0 <= hi.0) ==> number_value(value, r, lo, hi)
                    is Err
            },
            None => number_value(value, r, lo, hi) is Err,
        },
{
}

/// The names of the font's settings.
proof fn lemma_font_names()
    ensures
        "font.family"@.len() == 11 && "font.family"@[0] == 'f' && "font.family"@[5] == 'f',
        "font.size"@.len() == 9 && "font.size"@[0] == 'f' && "font.size"@[5] == 's',
        "font.antialias"@.len() == 14 && "font.antialias"@[0] == 'f' && "font.antialias"@[5] == 'a',
        "font.gamma"@.len() == 10 && "font.gamma"@[0] == 'f' && "font.gamma"@[5] == 'g',
        "font.contrast"@.len() == 13 && "font.contrast"@[0] == 'f' && "font.contrast"@[5] == 'c',
        "font.line_height"@.len() == 16
            && "font.line_height"@[0] == 'f'
            && "font.line_height"@[5] == 'l',
        "font.cell_width"@.len() == 15
            && "font.cell_width"@[0] == 'f'
            && "font.cell_width"@[5] == 'c',
        "font.bold"@.len() == 9 && "font.bold"@[0] == 'f' && "font.bold"@[5] == 'b',
        "font.italic"@.len() == 11 && "font.italic"@[0] == 'f' && "font.italic"@[5] == 'i',
{
    reveal_strlit("font.family");
    reveal_strlit("font.size");
    reveal_strlit("font.antialias");
    reveal_strlit("font.gamma");
    reveal_strlit("font.contrast");
    reveal_strlit("font.line_height");
    reveal_strlit("font.cell_width");
    reveal_strlit("font.bold");
    reveal_strlit("font.italic");
}

/// The settings of the font: each changes one thing, and nothing else.
pub proof fn fonts_are_set(c: ConfigView, value: Seq<char>, r: ReadingView)
    ensures
        setting(c, "font.family"@, value, r) == Ok::<ConfigView, Seq<char>>(
            ConfigView { family: value, ..c },
        ),
        takes_single(
            setting(c, "font.size"@, value, r),
            r,
            0x4080_0000,
            0x4348_0000,
            |n: Single| ConfigView { size: n, ..c },
        ),
        takes_single(
            setting(c, "font.gamma"@, value, r),
            r,
            0x3F00_0000,
            0x4040_0000,
            |n: Single| ConfigView { gamma: n, ..c },
        ),
        takes_single(
            setting(c, "font.contrast"@, value, r),
            r,
            0,
            0x3F80_0000,
            |n: Single| ConfigView { contrast: n, ..c },
        ),
        takes_single(
            setting(c, "font.line_height"@, value, r),
            r,
            0x3F00_0000,
            0x4040_0000,
            |n: Single| ConfigView { line_height: n, ..c },
        ),
        takes_single(
            setting(c, "font.cell_width"@, value, r),
            r,
            0x3F00_0000,
            0x4040_0000,
            |n: Single| ConfigView { cell_width: n, ..c },
        ),
        flag_value(value) is Ok ==> setting(c, "font.bold"@, value, r) == Ok::<
            ConfigView,
            Seq<char>,
        >(ConfigView { use_bold_font: flag_value(value)->Ok_0, ..c }),
        flag_value(value) is Ok ==> setting(c, "font.italic"@, value, r) == Ok::<
            ConfigView,
            Seq<char>,
        >(ConfigView { use_italic_font: flag_value(value)->Ok_0, ..c }),
        flag_value(value) is Err ==> setting(c, "font.bold"@, value, r) is Err && setting(
            c,
            "font.italic"@,
            value,
            r,
        ) is Err,
        antialias_value(value) is Ok ==> setting(c, "font.antialias"@, value, r) == Ok::<
            ConfigView,
            Seq<char>,
        >(ConfigView { antialias: antialias_value(value)->Ok_0, ..c }),
{
    reveal(setting);
    reveal(font_setting);
    lemma_font_names();
    lemma_takes_single(value, r, (0x4080_0000, "4"@), (0x4348_0000, "200"@));
    lemma_takes_single(value, r, (0x3F00_0000, "0.5"@), (0x4040_0000, "3"@));
    lemma_takes_single(value, r, (0, "0"@), (0x3F80_0000, "1"@));
}

/// No setting of the font starts with another letter.
proof fn lemma_not_font(c: ConfigView, key: Seq<char>, value: Seq<char>, r: ReadingView)
    requires
        key.len() > 0,
        key[0] != 'f',
    ensures
        font_setting(c, key, value, r) is None,
{
    reveal(font_setting);
    lemma_font_names();
}

/// The names of the window's settings.
proof fn lemma_window_names()
    ensures
        "window.cols"@.len() == 11 && "window.cols"@[0] == 'w' && "window.cols"@[7] == 'c',
        "window.rows"@.len() == 11 && "window.rows"@[0] == 'w' && "window.rows"@[7] == 'r',
        "window.padding_x"@.len() == 16
            && "window.padding_x"@[0] == 'w'
            && "window.padding_x"@[15] == 'x',
        "window.padding_y"@.len() == 16
            && "window.padding_y"@[0] == 'w'
            && "window.padding_y"@[15] == 'y',
        "window.opacity"@.len() == 14 && "window.opacity"@[0] == 'w',
        "window.backdrop"@.len() == 15 && "window.backdrop"@[0] == 'w',
        "window.blur"@.len() == 11 && "window.blur"@[0] == 'w' && "window.blur"@[7] == 'b',
{
    reveal_strlit("window.cols");
    reveal_strlit("window.rows");
    reveal_strlit("window.padding_x");
    reveal_strlit("window.padding_y");
    reveal_strlit("window.opacity");
    reveal_strlit("window.backdrop");
    reveal_strlit("window.blur");
}

/// No setting of the window starts with another letter.
proof fn lemma_not_window(c: ConfigView, key: Seq<char>, value: Seq<char>, r: ReadingView)
    requires
        key.len() > 0,
        key[0] != 'w',
    ensures
        window_setting(c, key, value, r) is None,
{
    reveal(window_setting);
    lemma_window_names();
}

/// What a setting with a whole number does: it changes one thing, if the number is within its bounds.
pub open spec fn takes_count(
    o: Outcome,
    value: Seq<char>,
    lo: int,
    hi: int,
    change: spec_fn(usize) -> ConfigView,
) -> bool {
    match whole_number(value) {
        Some(n) => if lo <= n <= hi {
            o == Ok::<ConfigView, Seq<char>>(change(n))
        } else {
            o is Err
        },
        None => o is Err,
    }
}

/// The settings of the window: each changes one thing, and nothing else; an opacity that was asked for
/// is marked as such, and blur is another name for one backdrop or none.
pub proof fn windows_are_set(c: ConfigView, value: Seq<char>, r: ReadingView)
    ensures
        takes_count(
            setting(c, "window.cols"@, value, r),
            value,
            8,
            2000,
            |n: usize| ConfigView { cols: n, ..c },
        ),
        takes_count(
            setting(c, "window.rows"@, value, r),
            value,
            2,
            1000,
            |n: usize| ConfigView { rows: n, ..c },
        ),
        takes_single(
            setting(c, "window.padding_x"@, value, r),
            r,
            0,
            0x4348_0000,
            |n: Single| ConfigView { padding_x: n, ..c },
        ),
        takes_single(
            setting(c, "window.padding_y"@, value, r),
            r,
            0,
            0x4348_0000,
            |n: Single| ConfigView { padding_y: n, ..c },
        ),
        takes_single(
            setting(c, "window.opacity"@, value, r),
            r,
            0x3DCC_CCCD,
            0x3F80_0000,
            |n: Single| ConfigView { opacity: n, opacity_explicit: true, ..c },
        ),
        backdrop_value(value) is Ok ==> setting(c, "window.backdrop"@, value, r) == Ok::<
            ConfigView,
            Seq<char>,
        >(ConfigView { backdrop: backdrop_value(value)->Ok_0, ..c }),
        backdrop_value(value) is Err ==> setting(c, "window.backdrop"@, value, r) is Err,
        flag_value(value) == Ok::<bool, Seq<char>>(true) ==> setting(c, "window.blur"@, value, r)
            == Ok::<ConfigView, Seq<char>>(ConfigView { backdrop: Backdrop::Acrylic, ..c }),
        flag_value(value) == Ok::<bool, Seq<char>>(false) ==> setting(c, "window.blur"@, value, r)
            == Ok::<ConfigView, Seq<char>>(ConfigView { backdrop: Backdrop::NoBackdrop, ..c }),
        flag_value(value) is Err ==> setting(c, "window.blur"@, value, r) is Err,
{
    reveal(setting);
    reveal(window_setting);
    lemma_window_names();
    lemma_not_font(c, "window.cols"@, value, r);
    lemma_not_font(c, "window.rows"@, value, r);
    lemma_not_font(c, "window.padding_x"@, value, r);
    lemma_not_font(c, "window.padding_y"@, value, r);
    lemma_not_font(c, "window.opacity"@, value, r);
    lemma_not_font(c, "window.backdrop"@, value, r);
    lemma_not_font(c, "window.blur"@, value, r);
    lemma_takes_single(value, r, (0, "0"@), (0x4348_0000, "200"@));
    lemma_takes_single(value, r, (0x3DCC_CCCD, "0.1"@), (0x3F80_0000, "1"@));
}

/// The names of the settings of drawing, the shell and scrollback.
proof fn lemma_other_names()
    ensures
        "render.vsync"@.len() == 12 && "render.vsync"@[0] == 'r',
        "render.max_fps"@.len() == 14 && "render.max_fps"@[0] == 'r',
        "render.sync_timeout_ms"@.len() == 22 && "render.sync_timeout_ms"@[0] == 'r',
        "shell.program"@.len() == 13 && "shell.program"@[0] == 's',
        "shell.args"@.len() == 10 && "shell.args"@[0] == 's' && "shell.args"@[1] == 'h',
        "scrollback"@.len() == 10 && "scrollback"@[0] == 's' && "scrollback"@[1] == 'c',
{
    reveal_strlit("render.vsync");
    reveal_strlit("render.max_fps");
    reveal_strlit("render.sync_timeout_ms");
    reveal_strlit("shell.program");
    reveal_strlit("shell.args");
    reveal_strlit("scrollback");
}

/// The settings of drawing, the shell and scrollback: each changes one thing, and nothing else.
pub proof fn drawing_and_shell_are_set(c: ConfigView, value: Seq<char>, r: ReadingView)
    ensures
        flag_value(value) is Ok ==> setting(c, "render.vsync"@, value, r) == Ok::<
            ConfigView,
            Seq<char>,
        >(ConfigView { vsync: flag_value(value)->Ok_0, ..c }),
        flag_value(value) is Err ==> setting(c, "render.vsync"@, value, r) is Err,
        takes_count(
            setting(c, "render.max_fps"@, value, r),
            value,
            0,
            1000,
            |n: usize| ConfigView { max_fps: n as u32, ..c },
        ),
        takes_count(
            setting(c, "render.sync_timeout_ms"@, value, r),
            value,
            0,
            5000,
            |n: usize| ConfigView { sync_timeout_ms: n as u64, ..c },
        ),
        takes_count(
            setting(c, "scrollback"@, value, r),
            value,
            0,
            5_000_000,
            |n: usize| ConfigView { scrollback: n, ..c },
        ),
        setting(c, "shell.program"@, value, r) == Ok::<ConfigView, Seq<char>>(
            ConfigView { program: value, ..c },
        ),
        setting(c, "shell.args"@, value, r) == Ok::<ConfigView, Seq<char>>(
            ConfigView { args: words(value), ..c },
        ),
{
    reveal(setting);
    reveal(other_setting);
    lemma_other_names();
    lemma_not_font(c, "render.vsync"@, value, r);
    lemma_not_font(c, "render.max_fps"@, value, r);
    lemma_not_font(c, "render.sync_timeout_ms"@, value, r);
    lemma_not_font(c, "scrollback"@, value, r);
    lemma_not_font(c, "shell.program"@, value, r);
    lemma_not_font(c, "shell.args"@, value, r);
    lemma_not_window(c, "render.vsync"@, value, r);
    lemma_not_window(c, "render.max_fps"@, value, r);
    lemma_not_window(c, "render.sync_timeout_ms"@, value, r);
    lemma_not_window(c, "scrollback"@, value, r);
    lemma_not_window(c, "shell.program"@, value, r);
    lemma_not_window(c, "shell.args"@, value, r);
}

/// No other setting starts with another letter.
proof fn lemma_not_other(c: ConfigView, key: Seq<char>, value: Seq<char>)
    requires
        key.len() > 0,
        key[0] != 'r',
        key[0] != 's',
    ensures
        other_setting(c, key, value) is None,
{
    reveal(other_setting);
    lemma_other_names();
}

/// The names of the theme's settings.
proof fn lemma_theme_names()
    ensures
        "theme.background"@.len() == 16
            && "theme.background"@[0] == 't'
            && "theme.background"@[6] == 'b',
        "theme.foreground"@.len() == 16
            && "theme.foreground"@[0] == 't'
            && "theme.foreground"@[6] == 'f',
        "theme.cursor"@.len() == 12 && "theme.cursor"@[0] == 't' && "theme.cursor"@[6] == 'c',
        "theme.cursor_text"@.len() == 17
            && "theme.cursor_text"@[0] == 't'
            && "theme.cursor_text"@[6] == 'c',
        "theme.selection_bg"@.len() == 18
            && "theme.selection_bg"@[0] == 't'
            && "theme.selection_bg"@[16] == 'b'
            && "theme.selection_bg"@[6] == 's',
        "theme.selection_fg"@.len() == 18
            && "theme.selection_fg"@[0] == 't'
            && "theme.selection_fg"@[16] == 'f'
            && "theme.selection_fg"@[6] == 's',
        "theme.bold_is_bright"@.len() == 20
            && "theme.bold_is_bright"@[0] == 't'
            && "theme.bold_is_bright"@[6] == 'b',
        "theme.ansi"@.len() == 10 && "theme.ansi"@[0] == 't' && "theme.ansi"@[6] == 'a',
{
    reveal_strlit("theme.background");
    reveal_strlit("theme.foreground");
    reveal_strlit("theme.cursor");
    reveal_strlit("theme.cursor_text");
    reveal_strlit("theme.selection_bg");
    reveal_strlit("theme.selection_fg");
    reveal_strlit("theme.bold_is_bright");
    reveal_strlit("theme.ansi");
}

/// A theme's setting is none of the others.
proof fn lemma_only_theme(c: ConfigView, key: Seq<char>, value: Seq<char>, r: ReadingView)
    requires
        key.len() > 0,
        key[0] == 't',
    ensures
        theme_setting(c, key, value) is Some ==> setting(c, key, value, r) == theme_setting(
            c,
            key,
            value,
        )->0,
        theme_setting(c, key, value) is None ==> setting(c, key, value, r) == Err::<
            ConfigView,
            Seq<char>,
        >(framed("unknown key `"@, key, "`"@)),
{
    reveal(setting);
    lemma_not_font(c, key, value, r);
    lemma_not_window(c, key, value, r);
    lemma_not_other(c, key, value);
}

/// What a setting with a colour does: it changes one thing, if the value is a colour.
pub open spec fn takes_color(
    o: Outcome,
    value: Seq<char>,
    change: spec_fn([u8; 3]) -> ConfigView,
) -> bool {
    match color_value(value) {
        Ok(rgb) => o == Ok::<ConfigView, Seq<char>>(change(rgb)),
        Err(_) => o is Err,
    }
}

/// The colours of the theme: each setting changes one of them, and nothing else.
pub proof fn themes_are_set(c: ConfigView, value: Seq<char>, r: ReadingView)
    ensures
        takes_color(
            setting(c, "theme.background"@, value, r),
            value,
            |rgb: [u8; 3]| ConfigView { background: rgb, ..c },
        ),
        takes_color(
            setting(c, "theme.foreground"@, value, r),
            value,
            |rgb: [u8; 3]| ConfigView { foreground: rgb, ..c },
        ),
        takes_color(
            setting(c, "theme.cursor"@, value, r),
            value,
            |rgb: [u8; 3]| ConfigView { cursor: rgb, ..c },
        ),
        takes_color(
            setting(c, "theme.cursor_text"@, value, r),
            value,
            |rgb: [u8; 3]| ConfigView { cursor_text: rgb, ..c },
        ),
        takes_color(
            setting(c, "theme.selection_bg"@, value, r),
            value,
            |rgb: [u8; 3]| ConfigView { selection_bg: rgb, ..c },
        ),
        takes_color(
            setting(c, "theme.selection_fg"@, value, r),
            value,
            |rgb: [u8; 3]| ConfigView { selection_fg: Some(rgb), ..c },
        ),
        flag_value(value) is Ok ==> setting(c, "theme.bold_is_bright"@, value, r) == Ok::<
            ConfigView,
            Seq<char>,
        >(ConfigView { bold_is_bright: flag_value(value)->Ok_0, ..c }),
        flag_value(value) is Err ==> setting(c, "theme.bold_is_bright"@, value, r) is Err,
{
    reveal(theme_setting);
    lemma_theme_names();
    lemma_only_theme(c, "theme.background"@, value, r);
    lemma_only_theme(c, "theme.foreground"@, value, r);
    lemma_only_theme(c, "theme.cursor"@, value, r);
    lemma_only_theme(c, "theme.cursor_text"@, value, r);
    lemma_only_theme(c, "theme.selection_bg"@, value, r);
    lemma_only_theme(c, "theme.selection_fg"@, value, r);
    lemma_only_theme(c, "theme.bold_is_bright"@, value, r);
}

/// The first sixteen slots of the palette are set by number, each by itself; there is no seventeenth.
pub proof fn slots_are_set(c: ConfigView, slot: usize, value: Seq<char>, r: ReadingView)
    requires
        c.ansi.len() == 16,
    ensures
        ({
            let o = setting(c, "theme.ansi"@ + decimal_text(slot as nat), value, r);
            &&& slot >= 16 ==> o is Err
            &&& slot < 16 && color_value(value) is Err ==> o is Err
            &&& slot < 16 && color_value(value) is Ok ==> o is Ok && {
                let after = o->Ok_0;
                &&& after == (ConfigView { ansi: after.ansi, ..c })
                &&& after.ansi.len() == 16
                &&& after.ansi[slot as int] == Some(color_value(value)->Ok_0)
                &&& forall|i: int|
                    0 <= i < 16 && i != slot ==> #[trigger] after.ansi[i] == c.ansi[i]
            }
        }),
{
    let head = "theme.ansi"@;
    let key = head + decimal_text(slot as nat);
    reveal(theme_setting);
    lemma_theme_names();
    numbers_read_back(slot);
    crate::text::decimal_reads_back(slot as nat);
    assert(key.len() > 10);
    assert(key[0] == 't' && key[6] == 'a');
    assert(key.take(10) =~= head);
    assert(key.skip(10) =~= decimal_text(slot as nat));
    lemma_only_theme(c, key, value, r);
}

/// The names of the ways to smooth letters.
pub proof fn antialiasing_has_names(value: Seq<char>)
    ensures
        value == "subpixel"@ || value == "cleartype"@ || value == "rgb"@ ==> antialias_value(value)
            == Ok::<Antialias, Seq<char>>(Antialias::Subpixel),
        value == "grayscale"@ || value == "greyscale"@ || value == "gray"@ ==> antialias_value(value)
            == Ok::<Antialias, Seq<char>>(Antialias::Grayscale),
{
    reveal_strlit("subpixel");
    reveal_strlit("cleartype");
    reveal_strlit("rgb");
    reveal_strlit("grayscale");
    reveal_strlit("greyscale");
    reveal_strlit("gray");
    assert("cleartype"@[0] == 'c');
    assert("grayscale"@[0] == 'g');
    assert("greyscale"@[0] == 'g');
    assert("gray"@.len() == 4 && "rgb"@.len() == 3 && "subpixel"@.len() == 8);
}

/// The names of the backdrops.
pub proof fn backdrops_have_names(value: Seq<char>)
    ensures
        value == "none"@ || value == "off"@ ==> backdrop_value(value) == Ok::<Backdrop, Seq<char>>(
            Backdrop::NoBackdrop,
        ),
        value == "acrylic"@ || value == "glass"@ ==> backdrop_value(value) == Ok::<
            Backdrop,
            Seq<char>,
        >(Backdrop::Acrylic),
        value == "blur"@ ==> backdrop_value(value) == Ok::<Backdrop, Seq<char>>(Backdrop::Blur),
        value == "mica"@ ==> backdrop_value(value) == Ok::<Backdrop, Seq<char>>(Backdrop::Mica),
        value == "tabbed"@ ==> backdrop_value(value) == Ok::<Backdrop, Seq<char>>(Backdrop::Tabbed),
{
    reveal_strlit("none");
    reveal_strlit("off");
    reveal_strlit("acrylic");
    reveal_strlit("glass");
    reveal_strlit("blur");
    reveal_strlit("mica");
    reveal_strlit("tabbed");
    assert("none"@[0] == 'n' && "blur"@[0] == 'b' && "mica"@[0] == 'm');
    assert("off"@.len() == 3 && "acrylic"@.len() == 7 && "glass"@.len() == 5 && "tabbed"@.len() == 6);
    assert("none"@.len() == 4 && "blur"@.len() == 4 && "mica"@.len() == 4);
}

/// A backdrop without an opacity of its own is seen through letters drawn in gray; without a backdrop
/// the settings stay as they are.
pub proof fn backdrops_pick_an_opacity(c: ConfigView)
    ensures
        c.backdrop is NoBackdrop ==> finished(c) == c,
        !(c.backdrop is NoBackdrop) && !c.opacity_explicit ==> finished(c) == (ConfigView {
            opacity: Single(0x3F51_EB85),
            antialias: Antialias::Grayscale,
            ..c
        }),
        !(c.backdrop is NoBackdrop) && c.opacity_explicit && c.opacity.0 == 0x3F80_0000
            ==> finished(c) == c,
        !(c.backdrop is NoBackdrop) && c.opacity_explicit && c.opacity.0 < 0x3F80_0000
            ==> finished(c) == (ConfigView { antialias: Antialias::Grayscale, ..c }),
        c.backdrop is NoBackdrop && c.opacity.0 < 0x3F80_0000 ==> see_through(c),
        c.backdrop is NoBackdrop && c.opacity.0 == 0x3F80_0000 ==> !see_through(c),
        !(c.backdrop is NoBackdrop) ==> see_through(c),
{
}

/// A line without a number sign has no comment.
proof fn lemma_no_comment(line: Seq<char>, from: int)
    requires
        0 <= from <= line.len(),
        forall|i: int| from <= i < line.len() ==> !comment_at(line, i),
    ensures
        comment_start(line, from) == line.len(),
    decreases line.len() - from,
{
    if from < line.len() {
        lemma_no_comment(line, from + 1);
    }
}

proof fn lemma_comment_at(line: Seq<char>, from: int, at: int)
    requires
        0 <= from <= at < line.len(),
        forall|i: int| from <= i < at ==> !comment_at(line, i),
        comment_at(line, at),
    ensures
        comment_start(line, from) == at,
    decreases at - from,
{
    if from < at {
        lemma_comment_at(line, from + 1, at);
    }
}

/// Without a quote nothing is quoted.
proof fn lemma_unquoted(line: Seq<char>, n: int)
    requires
        0 <= n <= line.len(),
        forall|i: int| 0 <= i < n ==> line[i] != '"',
    ensures
        !quoted(line, n),
    decreases n,
{
    if n > 0 {
        lemma_unquoted(line, n - 1);
    }
}

/// A key and a value with an equals sign between them are a setting, blanks around the sign or not.
pub proof fn settings_are_lines(key: Seq<char>, value: Seq<char>)
    requires
        key.len() > 0,
        value.len() > 0,
        forall|i: int| 0 <= i < key.len() ==> #[trigger] key[i] != '#' && key[i] != '=',
        forall|i: int| 0 <= i < value.len() ==> #[trigger] value[i] != '#',
        !whitespace(key[0]) && !whitespace(key.last()),
        !whitespace(value[0]) && !whitespace(value.last()),
        value[0] != '"',
    ensures
        line_says(key + seq!['='] + value) == LineView::Setting(key, value),
        line_says(key + seq![' ', '=', ' '] + value) == LineView::Setting(key, value),
{
    let close = key + seq!['='] + value;
    let wide = key + seq![' ', '=', ' '] + value;
    let n = key.len() as int;
    assert forall|i: int| 0 <= i < close.len() implies !comment_at(close, i) by {
        if i < n {
            assert(close[i] == key[i]);
        } else if i > n {
            assert(close[i] == value[i - n - 1]);
        }
    }
    assert forall|i: int| 0 <= i < wide.len() implies !comment_at(wide, i) by {
        if i < n {
            assert(wide[i] == key[i]);
        } else if i > n + 2 {
            assert(wide[i] == value[i - n - 3]);
        }
    }
    lemma_no_comment(close, 0);
    lemma_no_comment(wide, 0);
    assert(uncommented(close) =~= close);
    assert(uncommented(wide) =~= wide);
    assert(close[0] == key[0] && close.last() == value.last());
    assert(wide[0] == key[0] && wide.last() == value.last());
    trimmed_texts_stay(close);
    trimmed_texts_stay(wide);
    lemma_equals_at(close, n);
    lemma_equals_at(wide, n + 1);
    assert(close.take(n) =~= key);
    assert(close.skip(n + 1) =~= value);
    assert(wide.take(n + 1) =~= key.push(' '));
    assert(wide.skip(n + 2) =~= seq![' '] + value);
    trimmed_texts_stay(key);
    trimmed_texts_stay(value);
    lemma_blank_behind(key);
    lemma_blank_before(value);
}

proof fn lemma_equals_at(s: Seq<char>, at: int)
    requires
        0 <= at < s.len(),
        s[at] == '=',
        forall|i: int| 0 <= i < at ==> #[trigger] s[i] != '=',
    ensures
        find(s, '=', 0) == at,
{
    the_first_is_found(s, '=', 0);
}

proof fn lemma_blank_behind(s: Seq<char>)
    ensures
        trim(s.push(' ')) == trim(s),
{
    assert(s.push(' ').drop_last() =~= s);
}

proof fn lemma_blank_before(s: Seq<char>)
    requires
        s.len() > 0,
        !whitespace(s.last()),
    ensures
        trim(seq![' '] + s) == trim(s),
{
    let t = seq![' '] + s;
    assert(t.last() == s.last());
    assert(t.skip(1) =~= s);
}

/// A value in quotes is what stands between them, whatever it is.
pub proof fn quotes_keep_values(key: Seq<char>, value: Seq<char>)
    requires
        key.len() > 0,
        forall|i: int|
            0 <= i < key.len() ==> #[trigger] key[i] != '#' && key[i] != '=' && key[i] != '"',
        forall|i: int| 0 <= i < value.len() ==> #[trigger] value[i] != '"',
        !whitespace(key[0]) && !whitespace(key.last()),
    ensures
        line_says(key + seq!['=', '"'] + value + seq!['"']) == LineView::Setting(key, value),
{
    let line = key + seq!['=', '"'] + value + seq!['"'];
    let n = key.len() as int;
    let full = line.skip(n + 1);
    assert forall|i: int| 0 <= i < line.len() implies !comment_at(line, i) by {
        if i < n {
            assert(line[i] == key[i]);
        } else if n + 2 <= i < line.len() - 1 {
            lemma_inside_quotes(line, n + 1, i);
        }
    }
    lemma_no_comment(line, 0);
    assert(uncommented(line) =~= line);
    assert(line[0] == key[0] && line.last() == '"');
    trimmed_texts_stay(line);
    assert forall|i: int| 0 <= i < n implies #[trigger] line[i] != '=' by {
        assert(line[i] == key[i]);
    }
    lemma_equals_at(line, n);
    assert(line.take(n) =~= key);
    assert(full =~= seq!['"'] + value + seq!['"']);
    trimmed_texts_stay(key);
    trimmed_texts_stay(full);
    assert(full.subrange(1, full.len() - 1) =~= value);
}

/// Behind one quote everything is quoted, up to the next.
proof fn lemma_inside_quotes(line: Seq<char>, open: int, i: int)
    requires
        0 <= open < i <= line.len(),
        line[open] == '"',
        forall|j: int| 0 <= j < i && j != open ==> line[j] != '"',
    ensures
        quoted(line, i),
    decreases i,
{
    if i == open + 1 {
        lemma_unquoted(line, open);
    } else {
        lemma_inside_quotes(line, open, i - 1);
    }
}

/// A comment changes nothing: what is behind a number sign that follows a blank is not read, unless
/// the sign comes right after the equals sign.
pub proof fn comments_are_not_read(head: Seq<char>, comment: Seq<char>)
    requires
        forall|i: int| 0 <= i < head.len() ==> #[trigger] head[i] != '#' && head[i] != '"',
        head.len() > 0 ==> ascii_space(head.last()),
        trim_end(head).len() > 0 ==> trim_end(head).last() != '=',
    ensures
        uncommented(head + seq!['#'] + comment) == head,
        line_says(head + seq!['#'] + comment) == line_says(head),
        line_says(seq!['#'] + comment) == LineView::Blank,
{
    let line = head + seq!['#'] + comment;
    let n = head.len() as int;
    assert(line.take(n) =~= head);
    assert forall|i: int| 0 <= i < n implies line[i] != '"' && line[i] != '#' by {
        assert(line[i] == head[i]);
    }
    lemma_unquoted(line, n);
    assert(n > 0 ==> line[n - 1] == head.last());
    assert(comment_at(line, n));
    lemma_comment_at(line, 0, n);
    lemma_no_comment(head, 0);
    assert(head.take(n) =~= head);
    let whole = seq!['#'] + comment;
    assert(whole.take(0) =~= Seq::<char>::empty());
    assert(trim_end(Seq::<char>::empty()) =~= Seq::<char>::empty());
    assert(comment_at(whole, 0));
    lemma_comment_at(whole, 0, 0);
    assert(trim(Seq::<char>::empty()).len() == 0);
}

/// What is no setting and not blank is reported with its line, counted from one; nothing else changes.
pub proof fn malformed_lines_are_reported(c: ConfigView, number: nat, r: ReadingView)
    ensures
        after_line(c, number, LineView::Blank, r) == c,
        ({
            let after = after_line(c, number, LineView::Malformed, r);
            &&& after == (ConfigView { warnings: after.warnings, ..c })
            &&& after.warnings == c.warnings.push(
                "line "@ + decimal_text(number) + ": "@ + "expected `key = value`"@,
            )
        }),
{
}

/// A setting that does not take is reported with its line, and changes nothing else; one that takes is
/// not reported.
pub proof fn refused_settings_are_reported(
    c: ConfigView,
    number: nat,
    key: Seq<char>,
    value: Seq<char>,
    r: ReadingView,
)
    ensures
        ({
            let after = after_line(c, number, LineView::Setting(key, value), r);
            match setting(c, key, value, r) {
                Ok(d) => after == d,
                Err(what) => after == (ConfigView {
                    warnings: c.warnings.push("line "@ + decimal_text(number) + ": "@ + what),
                    ..c
                }),
            }
        }),
{
}

/// An empty file leaves every setting as it is by default, and so does one of blank lines and
/// comments.
pub proof fn blank_files_change_nothing(text: Seq<char>, readings: Seq<ReadingView>)
    requires
        forall|i: int|
            0 <= i < parts(text, '\n').len() ==> line_says(#[trigger] parts(text, '\n')[i]) is Blank,
    ensures
        parsed(text, readings) == default_config(),
{
    lemma_blank_lines(parts(text, '\n'), readings, parts(text, '\n').len() as int);
}

proof fn lemma_blank_lines(lines: Seq<Seq<char>>, readings: Seq<ReadingView>, n: int)
    requires
        0 <= n <= lines.len(),
        forall|i: int| 0 <= i < lines.len() ==> line_says(#[trigger] lines[i]) is Blank,
    ensures
        after_lines(lines, readings, n) == default_config(),
    decreases n,
{
    if n > 0 {
        lemma_blank_lines(lines, readings, n - 1);
        assert(line_says(lines[n - 1]) is Blank);
    }
}

/// The settings that take a number with a fraction, and no others.
pub open spec fn fractions() -> Seq<Seq<char>> {
    seq![
        "font.size"@,
        "font.gamma"@,
        "font.contrast"@,
        "font.line_height"@,
        "font.cell_width"@,
        "window.padding_x"@,
        "window.padding_y"@,
        "window.opacity"@,
    ]
}

/// A file is read line by line, from the settings by default on: each line changes what the lines
/// before it have left, and is counted from one. A number with a fraction is the next of those that
/// were read, in the order in which the file asks for them.
pub proof fn files_are_read_line_by_line(
    text: Seq<char>,
    lines: Seq<Seq<char>>,
    readings: Seq<ReadingView>,
    n: int,
)
    requires
        0 <= n < lines.len(),
    ensures
        ({
            let wanted = numbers_before(lines, n);
            let k = wanted.len() as int;
            let reading = if k < readings.len() {
                readings[k]
            } else {
                ReadingView { number: None, shown: Seq::empty() }
            };
            let next = match line_says(lines[n]) {
                LineView::Setting(key, value) => if fractions().contains(key) {
                    wanted.push(value)
                } else {
                    wanted
                },
                _ => wanted,
            };
            &&& after_lines(lines, readings, 0) == default_config()
            &&& after_lines(lines, readings, n + 1) == after_line(
                after_lines(lines, readings, n),
                (n + 1) as nat,
                line_says(lines[n]),
                reading,
            )
            &&& numbers_before(lines, 0) == Seq::<Seq<char>>::empty()
            &&& numbers_before(lines, n + 1) == next
            &&& parsed(text, readings) == finished(
                after_lines(parts(text, '\n'), readings, parts(text, '\n').len() as int),
            )
        }),
{
    match line_says(lines[n]) {
        LineView::Setting(key, value) => {
            lemma_fractions(key);
        },
        _ => {},
    }
}

proof fn lemma_fractions(key: Seq<char>)
    ensures
        takes_number(key) == fractions().contains(key),
{
    let all = fractions();
    if takes_number(key) {
        assert(all[0] == "font.size"@ && all[1] == "font.gamma"@ && all[2] == "font.contrast"@ && all[3]
            == "font.line_height"@);
        assert(all[4] == "font.cell_width"@ && all[5] == "window.padding_x"@ && all[6]
            == "window.padding_y"@ && all[7] == "window.opacity"@);
    }
    if all.contains(key) {
        let i = choose|i: int| 0 <= i < all.len() && all[i] == key;
        assert(0 <= i < 8);
    }
}

/// What is said of a value that cannot be taken names the value, or the number and its bounds.
pub proof fn complaints_name_the_value(
    value: Seq<char>,
    n: usize,
    lo: usize,
    hi: usize,
    r: ReadingView,
    low: (u32, Seq<char>),
    high: (u32, Seq<char>),
)
    ensures
        flag_value(value) is Err ==> flag_value(value)->Err_0 == "`"@ + value + "` is not a boolean"@,
        color_value(value) is Err ==> color_value(value)->Err_0 == "`"@ + value
            + "` is not a #rrggbb colour"@,
        whole_number(value) is None ==> count_value(value, lo, hi) == Err::<usize, Seq<char>>(
            "`"@ + value + "` is not an integer"@,
        ),
        whole_number(value) == Some(n) && !(lo <= n <= hi) ==> count_value(value, lo, hi) == Err::<
            usize,
            Seq<char>,
        >(
            decimal_text(n as nat) + " is outside "@ + decimal_text(lo as nat) + "..="@ + decimal_text(
                hi as nat,
            ),
        ),
        r.number is None ==> number_value(value, r, low, high) == Err::<Single, Seq<char>>(
            "`"@ + value + "` is not a number"@,
        ),
        r.number is Some && number_value(value, r, low, high) is Err ==> number_value(
            value,
            r,
            low,
            high,
        )->Err_0 == r.shown + " is outside "@ + low.1 + "..="@ + high.1,
        backdrop_value(value) is Err ==> backdrop_value(value)->Err_0 == "unknown backdrop `"@ + value
            + "`"@,
        antialias_value(value) is Err ==> antialias_value(value)->Err_0 == "unknown antialias mode `"@
            + value + "`"@,
{
}

/// A key that starts as none of the settings do is not known.
pub proof fn other_keys_are_unknown(c: ConfigView, key: Seq<char>, value: Seq<char>, r: ReadingView)
    requires
        key.len() > 0,
        key[0] != 'f' && key[0] != 'w' && key[0] != 'r' && key[0] != 's' && key[0] != 't',
    ensures
        setting(c, key, value, r) == Err::<ConfigView, Seq<char>>("unknown key `"@ + key + "`"@),
{
    reveal(setting);
    reveal(theme_setting);
    lemma_not_font(c, key, value, r);
    lemma_not_window(c, key, value, r);
    lemma_not_other(c, key, value);
    lemma_theme_names();
    if key.len() >= 10 {
        assert(key.take(10)[0] == key[0]);
    }
}

/// A slot of the palette that was set has the colour it was set to; every other has the standard one.
pub proof fn slots_have_their_colors(c: ConfigView, i: int, rgb: [u8; 3])
    requires
        c.ansi.len() == 16,
        0 <= i < 256,
    ensures
        i < 16 && c.ansi[i] == Some(rgb) ==> palette_color(c, i) == rgb,
        i < 16 && c.ansi[i] is None ==> palette_color(c, i) == crate::term::color::standard_color(i),
        i >= 16 ==> palette_color(c, i) == crate::term::color::standard_color(i),
{
}

} // verus!
