//! Configuration.
//!
//! The format is a flat `dotted.key = value` file. Unknown keys are collected and reported rather
//! than silently ignored, because a mistyped setting that quietly does nothing is worse than a
//! warning.
//!
//! Settings with a fraction are kept as the bit patterns of 32-bit floating-point numbers. Reading
//! such a number from text is left to the caller: [`Config::numbers_wanted`] lists the texts, and
//! [`Config::parse`] takes what they read as.

pub mod laws;
pub mod lines;
pub mod parse;
pub mod values;

use vstd::prelude::*;
use vstd::string::StringExecFns;

use crate::term::color::{standard_color, Palette};
use crate::text::texts;

verus! {

/// A 32-bit floating-point number, as its IEEE 754 bit pattern.
#[derive(Clone, Copy, PartialEq, Eq, Structural, Debug)]
pub struct Single(pub u32);

impl Single {
    /// The bit pattern without the sign. Among numbers without a sign, a larger pattern is a
    /// larger number.
    pub open spec fn magnitude(self) -> int {
        self.0 as int % 0x8000_0000
    }

    /// Is this not a number at all?
    pub open spec fn is_nan(self) -> bool {
        self.magnitude() > 0x7F80_0000
    }

    /// Is this number at least `lo` and at most `hi`, neither of which has a sign?
    pub open spec fn between(self, lo: u32, hi: u32) -> bool {
        if self.is_nan() {
            false
        } else if self.0 >= 0x8000_0000 {
            self.magnitude() == 0 && lo == 0
        } else {
            lo <= self.0 <= hi
        }
    }

    /// Is this number below one?
    pub open spec fn below_one(self) -> bool {
        !self.is_nan() && (self.0 >= 0x8000_0000 || self.0 < 0x3F80_0000)
    }

    pub(crate) fn is_between(self, lo: u32, hi: u32) -> (r: bool)
        ensures
            r == self.between(lo, hi),
    {
        let magnitude: u32 = self.0 % 0x8000_0000;
        if magnitude > 0x7F80_0000 {
            false
        } else if self.0 >= 0x8000_0000 {
            magnitude == 0 && lo == 0
        } else {
            lo <= self.0 && self.0 <= hi
        }
    }

    pub(crate) fn is_below_one(self) -> (r: bool)
        ensures
            r == self.below_one(),
    {
        let magnitude: u32 = self.0 % 0x8000_0000;
        magnitude <= 0x7F80_0000 && (self.0 >= 0x8000_0000 || self.0 < 0x3F80_0000)
    }
}

/// What a text read as: the number, if it is one, and how that number is written.
pub struct Reading {
    pub number: Option<Single>,
    pub shown: String,
}

/// The contents of a reading.
pub ghost struct ReadingView {
    pub number: Option<Single>,
    pub shown: Seq<char>,
}

impl View for Reading {
    type V = ReadingView;

    open spec fn view(&self) -> ReadingView {
        ReadingView { number: self.number, shown: self.shown@ }
    }
}

/// The system backdrop drawn behind a translucent window.
#[derive(Clone, Copy, PartialEq, Eq, Structural, Debug)]
pub enum Backdrop {
    /// Opaque; no compositor involvement.
    NoBackdrop,
    /// A strong blur that samples whatever is behind the window.
    Acrylic,
    /// Tints from the desktop wallpaper rather than live content.
    Mica,
    /// Mica's tabbed variant, slightly more opaque.
    Tabbed,
    /// A plain blur of what is behind.
    Blur,
}

#[derive(Clone, Copy, PartialEq, Eq, Structural, Debug)]
pub enum Antialias {
    /// Coverage per colour channel.
    Subpixel,
    /// Single-channel coverage.
    Grayscale,
}

#[derive(Clone, Debug)]
pub struct FontConfig {
    pub family: String,
    pub size: Single,
    pub antialias: Antialias,
    /// Blending gamma.
    pub gamma: Single,
    /// Stem darkening applied to coverage before blending.
    pub contrast: Single,
    /// Multiplier on the font's natural line height.
    pub line_height: Single,
    /// Multiplier on the advance width used for the cell.
    pub cell_width: Single,
    pub use_bold_font: bool,
    pub use_italic_font: bool,
}

#[derive(Clone, Debug)]
pub struct WindowConfig {
    pub cols: usize,
    pub rows: usize,
    /// Padding in logical pixels around the grid.
    pub padding_x: Single,
    pub padding_y: Single,
    /// How opaque the terminal background is.
    pub opacity: Single,
    pub backdrop: Backdrop,
    /// Whether the opacity was set explicitly. A backdrop picks a translucency of its own, but must
    /// not override a value that was asked for.
    pub opacity_explicit: bool,
}

#[derive(Clone, Debug)]
pub struct RenderConfig {
    /// Synchronise presentation to the display refresh.
    pub vsync: bool,
    /// Upper bound on presents per second. Zero means "display refresh".
    pub max_fps: u32,
    /// How long to hold a synchronised-output batch before drawing anyway, in milliseconds.
    pub sync_timeout_ms: u64,
}

#[derive(Clone, Debug)]
pub struct ThemeConfig {
    pub background: [u8; 3],
    pub foreground: [u8; 3],
    pub cursor: [u8; 3],
    pub cursor_text: [u8; 3],
    pub selection_bg: [u8; 3],
    pub selection_fg: Option<[u8; 3]>,
    /// Overrides for palette slots 0-15.
    pub ansi: [Option<[u8; 3]>; 16],
    /// Draw bold text in the bright palette variant.
    pub bold_is_bright: bool,
}

#[derive(Clone, Debug)]
pub struct ShellConfig {
    /// Program to launch. Empty means "pick the best available".
    pub program: String,
    pub args: Vec<String>,
}

#[derive(Clone, Debug)]
pub struct Config {
    pub font: FontConfig,
    pub window: WindowConfig,
    pub render: RenderConfig,
    pub theme: ThemeConfig,
    pub shell: ShellConfig,
    pub scrollback: usize,
    /// Diagnostics produced while loading.
    pub warnings: Vec<String>,
}

/// The settings, with texts as runs of characters.
#[verifier::ext_equal]
pub ghost struct ConfigView {
    pub family: Seq<char>,
    pub size: Single,
    pub antialias: Antialias,
    pub gamma: Single,
    pub contrast: Single,
    pub line_height: Single,
    pub cell_width: Single,
    pub use_bold_font: bool,
    pub use_italic_font: bool,
    pub cols: usize,
    pub rows: usize,
    pub padding_x: Single,
    pub padding_y: Single,
    pub opacity: Single,
    pub backdrop: Backdrop,
    pub opacity_explicit: bool,
    pub vsync: bool,
    pub max_fps: u32,
    pub sync_timeout_ms: u64,
    pub background: [u8; 3],
    pub foreground: [u8; 3],
    pub cursor: [u8; 3],
    pub cursor_text: [u8; 3],
    pub selection_bg: [u8; 3],
    pub selection_fg: Option<[u8; 3]>,
    pub ansi: Seq<Option<[u8; 3]>>,
    pub bold_is_bright: bool,
    pub program: Seq<char>,
    pub args: Seq<Seq<char>>,
    pub scrollback: usize,
    pub warnings: Seq<Seq<char>>,
}

impl View for Config {
    type V = ConfigView;

    open spec fn view(&self) -> ConfigView {
        ConfigView {
            family: self.font.family@,
            size: self.font.size,
            antialias: self.font.antialias,
            gamma: self.font.gamma,
            contrast: self.font.contrast,
            line_height: self.font.line_height,
            cell_width: self.font.cell_width,
            use_bold_font: self.font.use_bold_font,
            use_italic_font: self.font.use_italic_font,
            cols: self.window.cols,
            rows: self.window.rows,
            padding_x: self.window.padding_x,
            padding_y: self.window.padding_y,
            opacity: self.window.opacity,
            backdrop: self.window.backdrop,
            opacity_explicit: self.window.opacity_explicit,
            vsync: self.render.vsync,
            max_fps: self.render.max_fps,
            sync_timeout_ms: self.render.sync_timeout_ms,
            background: self.theme.background,
            foreground: self.theme.foreground,
            cursor: self.theme.cursor,
            cursor_text: self.theme.cursor_text,
            selection_bg: self.theme.selection_bg,
            selection_fg: self.theme.selection_fg,
            ansi: self.theme.ansi@,
            bold_is_bright: self.theme.bold_is_bright,
            program: self.shell.program@,
            args: texts(self.shell.args@),
            scrollback: self.scrollback,
            warnings: texts(self.warnings@),
        }
    }
}

/// The settings of an empty file.
pub open spec fn default_config() -> ConfigView {
    ConfigView {
        family: "Cascadia Mono"@,
        size: Single(0x4140_0000),
        antialias: Antialias::Subpixel,
        gamma: Single(0x3F99_999A),
        contrast: Single(0x3E19_999A),
        line_height: Single(0x3F80_0000),
        cell_width: Single(0x3F80_0000),
        use_bold_font: true,
        use_italic_font: true,
        cols: 120,
        rows: 32,
        padding_x: Single(0x4100_0000),
        padding_y: Single(0x40C0_0000),
        opacity: Single(0x3F80_0000),
        backdrop: Backdrop::NoBackdrop,
        opacity_explicit: false,
        vsync: true,
        max_fps: 0,
        sync_timeout_ms: 150,
        background: [0x0B, 0x0E, 0x14],
        foreground: [0xC4, 0xCB, 0xD8],
        cursor: [0x7D, 0xF9, 0xC4],
        cursor_text: [0x0B, 0x0E, 0x14],
        selection_bg: [0x2A, 0x3A, 0x52],
        selection_fg: None,
        ansi: Seq::new(16, |i: int| None),
        bold_is_bright: false,
        program: Seq::empty(),
        args: Seq::empty(),
        scrollback: 10_000,
        warnings: Seq::empty(),
    }
}

impl Default for FontConfig {
    /// 12 points of Cascadia Mono.
    fn default() -> (f: FontConfig)
        ensures
            f.family@ == default_config().family,
            f.size == default_config().size,
            f.antialias == default_config().antialias,
            f.gamma == default_config().gamma,
            f.contrast == default_config().contrast,
            f.line_height == default_config().line_height,
            f.cell_width == default_config().cell_width,
            f.use_bold_font == default_config().use_bold_font,
            f.use_italic_font == default_config().use_italic_font,
    {
        FontConfig {
            family: String::from_str("Cascadia Mono"),
            size: Single(0x4140_0000),
            antialias: Antialias::Subpixel,
            gamma: Single(0x3F99_999A),
            contrast: Single(0x3E19_999A),
            line_height: Single(0x3F80_0000),
            cell_width: Single(0x3F80_0000),
            use_bold_font: true,
            use_italic_font: true,
        }
    }
}

impl Default for WindowConfig {
    fn default() -> (w: WindowConfig)
        ensures
            w.cols == default_config().cols,
            w.rows == default_config().rows,
            w.padding_x == default_config().padding_x,
            w.padding_y == default_config().padding_y,
            w.opacity == default_config().opacity,
            w.backdrop == default_config().backdrop,
            w.opacity_explicit == default_config().opacity_explicit,
    {
        WindowConfig {
            cols: 120,
            rows: 32,
            padding_x: Single(0x4100_0000),
            padding_y: Single(0x40C0_0000),
            opacity: Single(0x3F80_0000),
            backdrop: Backdrop::NoBackdrop,
            opacity_explicit: false,
        }
    }
}

impl Default for RenderConfig {
    fn default() -> (r: RenderConfig)
        ensures
            r.vsync == default_config().vsync,
            r.max_fps == default_config().max_fps,
            r.sync_timeout_ms == default_config().sync_timeout_ms,
    {
        RenderConfig { vsync: true, max_fps: 0, sync_timeout_ms: 150 }
    }
}

impl Default for ThemeConfig {
    fn default() -> (t: ThemeConfig)
        ensures
            t.background == default_config().background,
            t.foreground == default_config().foreground,
            t.cursor == default_config().cursor,
            t.cursor_text == default_config().cursor_text,
            t.selection_bg == default_config().selection_bg,
            t.selection_fg == default_config().selection_fg,
            t.ansi@ == default_config().ansi,
            t.bold_is_bright == default_config().bold_is_bright,
    {
        let t = ThemeConfig {
            background: [0x0B, 0x0E, 0x14],
            foreground: [0xC4, 0xCB, 0xD8],
            cursor: [0x7D, 0xF9, 0xC4],
            cursor_text: [0x0B, 0x0E, 0x14],
            selection_bg: [0x2A, 0x3A, 0x52],
            selection_fg: None,
            ansi: [None; 16],
            bold_is_bright: false,
        };
        assert(t.ansi@ =~= default_config().ansi);
        t
    }
}

impl Default for ShellConfig {
    fn default() -> (s: ShellConfig)
        ensures
            s.program@ == default_config().program,
            texts(s.args@) == default_config().args,
    {
        let s = ShellConfig { program: String::new(), args: Vec::new() };
        assert(texts(s.args@) =~= default_config().args);
        s
    }
}

impl Default for Config {
    fn default() -> (c: Config)
        ensures
            c@ == default_config(),
    {
        let c = Config {
            font: FontConfig::default(),
            window: WindowConfig::default(),
            render: RenderConfig::default(),
            theme: ThemeConfig::default(),
            shell: ShellConfig::default(),
            scrollback: 10_000,
            warnings: Vec::new(),
        };
        assert(c@ =~= default_config());
        c
    }
}

impl Config {
    /// Does the window need an alpha channel and a composition swap chain?
    pub fn translucent(&self) -> (r: bool)
        ensures
            r == see_through(self@),
    {
        self.window.backdrop != Backdrop::NoBackdrop || self.window.opacity.is_below_one()
    }

    /// Are glyphs drawn with coverage per colour channel? Only over something opaque: with what is
    /// behind the window showing through, each channel would have to blend by itself.
    pub fn uses_subpixel(&self) -> (r: bool)
        ensures
            r == per_channel(self@),
    {
        self.font.antialias == Antialias::Subpixel && !self.translucent()
    }

    /// Build the palette, with any overrides of its first sixteen slots.
    pub fn palette(&self) -> (p: Palette)
        ensures
            forall|i: int| 0 <= i < 256 ==> #[trigger] p.0@[i] == palette_color(self@, i),
            forall|i: int|
                0 <= i < 256 ==> #[trigger] p.0@[i] == (if i < 16 && self@.ansi[i] is Some {
                    self@.ansi[i]->0
                } else {
                    standard_color(i)
                }),
    {
        let mut p = Palette::new();
        let mut i: usize = 0;
        while i < 16
            invariant
                i <= 16,
                forall|j: int|
                    0 <= j < 256 ==> #[trigger] p.0@[j] == (if j < i && self.theme.ansi@[j] is Some {
                        self.theme.ansi@[j]->0
                    } else {
                        standard_color(j)
                    }),
            decreases 16 - i,
        {
            match self.theme.ansi[i] {
                Some(rgb) => {
                    p.0[i] = rgb;
                },
                None => {},
            }
            i += 1;
        }
        p
    }

    /// Resolve settings that depend on each other.
    ///
    /// A fully opaque background would hide a backdrop, so a backdrop picks a translucency unless
    /// one was asked for. Coverage per colour channel has to know the colour behind each glyph,
    /// which over a translucent window only the compositor does; single-channel coverage is right
    /// at any opacity.
    pub(crate) fn finish(&mut self)
        ensures
            final(self)@ == finished(old(self)@),
    {
        if self.window.backdrop != Backdrop::NoBackdrop {
            if !self.window.opacity_explicit {
                self.window.opacity = Single(0x3F51_EB85);
            }
            if self.window.opacity.is_below_one() {
                self.font.antialias = Antialias::Grayscale;
            }
        }
    }
}

/// Slot `i` of the palette.
pub open spec fn palette_color(c: ConfigView, i: int) -> [u8; 3] {
    if i < 16 && c.ansi[i] is Some {
        c.ansi[i]->0
    } else {
        standard_color(i)
    }
}

/// Can anything behind the window show?
pub open spec fn see_through(c: ConfigView) -> bool {
    c.backdrop != Backdrop::NoBackdrop || c.opacity.below_one()
}

/// Are glyphs drawn with coverage per colour channel?
pub open spec fn per_channel(c: ConfigView) -> bool {
    c.antialias == Antialias::Subpixel && !see_through(c)
}

/// The settings, once those that depend on each other are resolved.
pub open spec fn finished(c: ConfigView) -> ConfigView {
    if c.backdrop == Backdrop::NoBackdrop {
        c
    } else {
        let opacity = if c.opacity_explicit {
            c.opacity
        } else {
            Single(0x3F51_EB85)
        };
        ConfigView {
            opacity,
            antialias: if opacity.below_one() {
                Antialias::Grayscale
            } else {
                c.antialias
            },
            ..c
        }
    }
}

/// A backdrop never goes with coverage per colour channel, whatever the opacity. Where it shows
/// through, the setting itself says so. An opacity that was asked for is kept.
pub proof fn backdrops_are_drawn_in_gray(c: ConfigView)
    ensures
        ({
            let f = finished(c);
            &&& f.backdrop != Backdrop::NoBackdrop && f.opacity.below_one() ==> f.antialias
                == Antialias::Grayscale
            &&& f.backdrop != Backdrop::NoBackdrop ==> !per_channel(f)
            &&& c.opacity_explicit ==> f.opacity == c.opacity
            &&& finished(f) == f
        }),
{
}

} // verus!
