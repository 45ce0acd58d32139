//! Reading the settings.

use tachyon::config::{
    Antialias, Backdrop, Config, FontConfig, Reading, RenderConfig, Single, ThemeConfig,
    WindowConfig,
};

/// Read a file the way the program does: the texts that are to be numbers first.
fn load(text: &str) -> Config {
    let readings: Vec<Reading> = Config::numbers_wanted(text)
        .iter()
        .map(|t| match t.parse::<f32>() {
            Ok(n) => Reading {
                number: Some(Single(n.to_bits())),
                shown: format!("{n}"),
            },
            Err(_) => Reading {
                number: None,
                shown: String::new(),
            },
        })
        .collect();
    Config::parse(text, &readings)
}

fn number(s: Single) -> f32 {
    f32::from_bits(s.0)
}

#[test]
fn parses_a_representative_file() {
    let c = load(
        r##"
            # Tachyon config
            font.family = "Cascadia Code"   # inline comment
            font.size = 13.5
            font.antialias = grayscale
            window.cols = 100
            window.opacity = 0.95
            render.vsync = off
            theme.background = #101418
            theme.ansi4 = "#4488FF"
            scrollback = 50000
            "##,
    );
    assert!(c.warnings.is_empty(), "{:?}", c.warnings);
    assert_eq!(c.font.family, "Cascadia Code");
    assert_eq!(number(c.font.size), 13.5);
    assert_eq!(c.font.antialias, Antialias::Grayscale);
    assert_eq!(c.window.cols, 100);
    assert_eq!(number(c.window.opacity), 0.95);
    assert!(!c.render.vsync);
    assert_eq!(c.theme.background, [0x10, 0x14, 0x18]);
    assert_eq!(c.palette().0[4], [0x44, 0x88, 0xFF]);
    assert_eq!(c.scrollback, 50_000);
}

#[test]
fn reports_bad_keys_and_values_without_dying() {
    let c = load("font.size = huge\nnope.what = 1\nfont.size = 900\ntheme.ansi99 = #000000\n");
    assert_eq!(c.warnings.len(), 4, "{:?}", c.warnings);
    // Defaults survive.
    assert_eq!(number(c.font.size), number(FontConfig::default().size));
}

#[test]
fn hash_inside_quotes_is_not_a_comment() {
    let c = load("theme.foreground = \"#ABCDEF\"\n");
    assert!(c.warnings.is_empty(), "{:?}", c.warnings);
    assert_eq!(c.theme.foreground, [0xAB, 0xCD, 0xEF]);
}

#[test]
fn defaults_are_what_an_empty_file_gives() {
    let c = load("");
    assert!(c.warnings.is_empty());
    assert_eq!(c.font.family, "Cascadia Mono");
    assert_eq!(number(c.font.size), 12.0);
    assert_eq!(number(c.font.gamma), 1.2);
    assert_eq!(number(c.font.contrast), 0.15);
    assert_eq!(number(c.font.line_height), 1.0);
    assert_eq!(number(c.font.cell_width), 1.0);
    assert!(c.font.use_bold_font && c.font.use_italic_font);
    let w = WindowConfig::default();
    assert_eq!((w.cols, w.rows), (120, 32));
    assert_eq!((number(w.padding_x), number(w.padding_y)), (8.0, 6.0));
    assert_eq!(number(w.opacity), 1.0);
    assert_eq!(w.backdrop, Backdrop::NoBackdrop);
    let r = RenderConfig::default();
    assert_eq!((r.vsync, r.max_fps, r.sync_timeout_ms), (true, 0, 150));
    assert_eq!(ThemeConfig::default().cursor, [0x7D, 0xF9, 0xC4]);
    assert!(c.shell.program.is_empty() && c.shell.args.is_empty());
    assert_eq!(c.scrollback, 10_000);
    assert!(!c.translucent());
    assert_eq!(c.palette().0[1], [0xF2, 0x60, 0x6B]);
}

#[test]
fn every_kind_of_mistake_has_its_message() {
    let cases = [
        ("no equals sign", "line 1: expected `key = value`"),
        ("nope = 1", "line 1: unknown key `nope`"),
        ("font.size = huge", "line 1: `huge` is not a number"),
        ("font.size = 900", "line 1: 900 is outside 4..=200"),
        ("font.gamma = 0.25", "line 1: 0.25 is outside 0.5..=3"),
        ("window.cols = many", "line 1: `many` is not an integer"),
        ("window.cols = 7", "line 1: 7 is outside 8..=2000"),
        ("render.vsync = maybe", "line 1: `maybe` is not a boolean"),
        (
            "font.antialias = blocky",
            "line 1: unknown antialias mode `blocky`",
        ),
        (
            "window.backdrop = paper",
            "line 1: unknown backdrop `paper`",
        ),
        (
            "theme.cursor = #12345",
            "line 1: `#12345` is not a #rrggbb colour",
        ),
        (
            "theme.ansiX = #000000",
            "line 1: bad palette index in `theme.ansiX`",
        ),
        (
            "theme.ansi16 = #000000",
            "line 1: palette index 16 out of range (0-15)",
        ),
    ];
    for (line, message) in cases {
        assert_eq!(load(line).warnings, vec![message.to_string()]);
    }
    assert_eq!(
        load("\n\nscrollback = -1").warnings,
        vec!["line 3: `-1` is not an integer".to_string()]
    );
}

#[test]
fn numbers_that_are_not_numbers_are_out_of_range() {
    assert_eq!(
        load("font.contrast = NaN").warnings,
        vec!["line 1: NaN is outside 0..=1".to_string()]
    );
    assert_eq!(
        load("font.contrast = inf").warnings,
        vec!["line 1: inf is outside 0..=1".to_string()]
    );
    let c = load("font.contrast = -0.0");
    assert!(c.warnings.is_empty());
    assert_eq!(number(c.font.contrast), 0.0);
}

#[test]
fn the_last_of_several_settings_counts() {
    let c = load("window.rows = 10\r\nwindow.rows = 20\r\nwindow.rows = x\r\n");
    assert_eq!(c.window.rows, 20);
    assert_eq!(c.warnings.len(), 1);
}

#[test]
fn backdrops_are_shown_through_gray_text() {
    let c = load("window.backdrop = acrylic");
    assert_eq!(c.window.backdrop, Backdrop::Acrylic);
    assert_eq!(number(c.window.opacity), 0.82);
    assert_eq!(c.font.antialias, Antialias::Grayscale);
    assert!(c.translucent());

    // A value that was asked for stays, and an opaque window keeps its text as it is.
    let c = load("window.backdrop = mica\nwindow.opacity = 1.0");
    assert_eq!(number(c.window.opacity), 1.0);
    assert_eq!(c.font.antialias, Antialias::Subpixel);
    assert!(c.translucent());
    assert!(!c.uses_subpixel());
    assert!(load("").uses_subpixel());
    assert!(!load("font.antialias = grayscale").uses_subpixel());

    let c = load("window.blur = on\nwindow.blur = off");
    assert_eq!(c.window.backdrop, Backdrop::NoBackdrop);
    assert!(!c.translucent());
    assert!(load("window.opacity = 0.5").translucent());
}

#[test]
fn comments_are_told_from_colours() {
    let c = load("theme.background = #010203 # dark\n# theme.foreground = #ffffff\n");
    assert!(c.warnings.is_empty(), "{:?}", c.warnings);
    assert_eq!(c.theme.background, [1, 2, 3]);
    assert_eq!(c.theme.foreground, ThemeConfig::default().foreground);
}

#[test]
fn shell_arguments_are_split_at_white_space() {
    let c = load("shell.program = \"C:\\Program Files\\fish.exe\"\nshell.args = -l  --wide\tx\n");
    assert_eq!(c.shell.program, "C:\\Program Files\\fish.exe");
    assert_eq!(c.shell.args, vec!["-l", "--wide", "x"]);
    assert_eq!(load("theme.selection_fg = ffeedd").theme.selection_fg, Some([0xFF, 0xEE, 0xDD]));
}
