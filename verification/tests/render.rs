//! What a frame shows.

use tachyon::config::Config;
use tachyon::render::atlas::{Atlas, AtlasEntry, GlyphKey};
use tachyon::render::buffers::grown_capacity;
use tachyon::render::chars::Chars;
use tachyon::render::colors::resolve_colors;
use tachyon::render::coverage::{
    collapse_coverage, texel_of, union_of, widen_coverage, Bounds,
};
use tachyon::render::font::{
    emoji_family, families_to_try, font_families, is_invisible_format, wants_emoji_presentation,
    FaceKey, GlyphBitmap,
};
use tachyon::render::frame::{CursorBox, Decoration, LineStyle};
use tachyon::render::runs::{background_runs, Run};
use tachyon::render::title::elide;
use tachyon::render::{FrameInput, Painter, SelectionRange};
use tachyon::term::{Cell, CellFlags, Color, CursorShape, Palette, Processor, Term};

#[test]
fn selection_covers_partial_first_and_last_lines() {
    let s = SelectionRange {
        start_line: 2,
        start_col: 5,
        end_line: 4,
        end_col: 3,
    };
    assert!(!s.contains(1, 100));
    assert!(!s.contains(2, 4));
    assert!(s.contains(2, 5));
    assert!(s.contains(3, 0));
    assert!(s.contains(3, 999));
    assert!(s.contains(4, 3));
    assert!(!s.contains(4, 4));
    assert!(!s.contains(5, 0));
}

#[test]
fn single_line_selection_is_bounded_both_ends() {
    let s = SelectionRange {
        start_line: 7,
        start_col: 2,
        end_line: 7,
        end_col: 6,
    };
    assert!(!s.contains(7, 1));
    assert!(s.contains(7, 2));
    assert!(s.contains(7, 6));
    assert!(!s.contains(7, 7));
}

#[test]
fn titles_lose_their_front() {
    assert_eq!(elide("shell", 10), "shell");
    assert_eq!(elide("shell", 5), "shell");
    assert_eq!(elide("C:\\src\\tachyon", 8), "\u{2026}tachyon");
    assert_eq!(elide("shell", 1), "\u{2026}");
    assert_eq!(elide("shell", 0), "");
}

struct Look {
    cfg: Config,
    palette: Palette,
}

fn look() -> Look {
    let cfg = Config::default();
    let palette = cfg.palette();
    Look { cfg, palette }
}

impl Look {
    fn painter(&self) -> Painter<'_> {
        Painter {
            theme: &self.cfg.theme,
            palette: &self.palette,
            use_bold_font: self.cfg.font.use_bold_font,
            use_italic_font: self.cfg.font.use_italic_font,
        }
    }
}

fn term(stream: &str) -> Term {
    let mut t = Term::new(12, 3, 20);
    let mut p = Processor::new();
    p.advance(&mut t, stream.as_bytes());
    t
}

fn input<'a>(t: &'a Term, selection: Option<SelectionRange>, focused: bool) -> FrameInput<'a> {
    FrameInput {
        term: t,
        selection,
        focused,
        cursor_blink_on: true,
        tabs: &[],
        active_tab: 0,
    }
}

#[test]
fn plain_prompts_have_no_backgrounds() {
    let l = look();
    let t = term("$ ls");
    let plan = l.painter().frame_plan(&input(&t, None, true));
    assert_eq!(plan.len(), 3);
    assert!(plan.iter().all(|r| r.runs.is_empty() && r.decorations.is_empty()));
    let drawn: String = plan[0].glyphs.iter().map(|g| g.ch).collect();
    assert_eq!(drawn, "$ls");
    assert_eq!(plan[0].glyphs[1].x, 2);
    assert!(plan[1].glyphs.is_empty());
}

#[test]
fn equal_backgrounds_are_one_rectangle() {
    let l = look();
    let t = term("\x1b[41mabc\x1b[42md\x1b[0me\x1b[41m \x1b[0m");
    let row = l.painter().row_plan(&input(&t, None, true), 0);
    let red = l.palette.0[1];
    let green = l.palette.0[2];
    assert_eq!(
        row.runs,
        vec![
            Run { start: 0, end: 3, color: red },
            Run { start: 3, end: 4, color: green },
            Run { start: 5, end: 6, color: red },
        ]
    );
    assert_eq!(
        background_runs(&vec![None, Some([1, 2, 3]), Some([1, 2, 3])]),
        vec![Run { start: 1, end: 3, color: [1, 2, 3] }]
    );
}

#[test]
fn a_focused_block_cursor_inverts_its_character() {
    let l = look();
    let t = term("ab\x1b[1;1H");
    let row = l.painter().row_plan(&input(&t, None, true), 0);
    assert_eq!(
        row.cursor,
        Some(CursorBox { x: 0, shape: CursorShape::Block, hollow: false })
    );
    assert_eq!(row.glyphs[0].color, l.cfg.theme.cursor_text);
    assert_eq!(row.glyphs[1].color, l.cfg.theme.foreground);

    let row = l.painter().row_plan(&input(&t, None, false), 0);
    assert_eq!(
        row.cursor,
        Some(CursorBox { x: 0, shape: CursorShape::Block, hollow: true })
    );
    assert_eq!(row.glyphs[0].color, l.cfg.theme.foreground);
    assert_eq!(l.painter().row_plan(&input(&t, None, true), 1).cursor, None);
}

#[test]
fn cursors_blink_hide_and_stay_behind() {
    let l = look();
    let mut t = term("a\r\nb\r\nc\r\nd\r\ne");
    let mut i = input(&t, None, true);
    i.cursor_blink_on = false;
    assert_eq!(l.painter().row_plan(&i, 2).cursor, None);
    i.focused = false;
    assert!(l.painter().row_plan(&i, 2).cursor.is_some());

    let hidden = term("x\x1b[?25l");
    assert_eq!(l.painter().row_plan(&input(&hidden, None, true), 0).cursor, None);

    // The cursor belongs to the live screen, which is not in view here.
    t.scroll_display(1);
    let plan = l.painter().frame_plan(&input(&t, None, true));
    assert!(plan.iter().all(|r| r.cursor.is_none()));
    assert_eq!(plan[0].glyphs[0].ch, 'b');
}

#[test]
fn selections_are_drawn_where_the_lines_are() {
    let l = look();
    let mut t = term("a\r\nb\r\nc\r\nd\r\ne");
    // Two lines are in history; line 2 is the top of the live screen.
    let s = SelectionRange { start_line: 2, start_col: 0, end_line: 2, end_col: 0 };
    let row = l.painter().row_plan(&input(&t, Some(s), true), 0);
    assert_eq!(
        row.runs,
        vec![Run { start: 0, end: 1, color: l.cfg.theme.selection_bg }]
    );
    t.scroll_display(1);
    assert!(l.painter().row_plan(&input(&t, Some(s), true), 0).runs.is_empty());
    assert_eq!(l.painter().row_plan(&input(&t, Some(s), true), 1).runs.len(), 1);
}

#[test]
fn wide_characters_are_drawn_once() {
    let l = look();
    let t = term("\u{4f60}\x1b[9mx\x1b[4m\u{597d}");
    let row = l.painter().row_plan(&input(&t, None, true), 0);
    let at: Vec<(usize, char)> = row.glyphs.iter().map(|g| (g.x, g.ch)).collect();
    assert_eq!(at, vec![(0, '\u{4f60}'), (2, 'x'), (3, '\u{597d}')]);
    let fg = l.cfg.theme.foreground;
    assert_eq!(
        row.decorations,
        vec![
            Decoration { x: 2, width: 1, style: LineStyle::Strikeout, color: fg },
            Decoration { x: 3, width: 2, style: LineStyle::Underline, color: fg },
            Decoration { x: 3, width: 2, style: LineStyle::Strikeout, color: fg },
        ]
    );
}

#[test]
fn lines_have_their_own_styles_and_colours() {
    let l = look();
    let t = term("\x1b[4:3;58;2;1;2;3ma\x1b[0;21mb\x1b[0;4:4mc\x1b[0;4:5md\x1b[0;53me");
    let row = l.painter().row_plan(&input(&t, None, true), 0);
    let styles: Vec<LineStyle> = row.decorations.iter().map(|d| d.style).collect();
    assert_eq!(
        styles,
        vec![
            LineStyle::CurlyUnderline,
            LineStyle::DoubleUnderline,
            LineStyle::DottedUnderline,
            LineStyle::DashedUnderline,
            LineStyle::Overline,
        ]
    );
    assert_eq!(row.decorations[0].color, [1, 2, 3]);
    assert_eq!(row.decorations[1].color, l.cfg.theme.foreground);
}

#[test]
fn clusters_stack_on_one_cell() {
    let l = look();
    let t = term("e\u{0301}x\u{2764}\u{FE0F}\x1b[1;3m!");
    let row = l.painter().row_plan(&input(&t, None, true), 0);
    let at: Vec<(usize, char, bool)> =
        row.glyphs.iter().map(|g| (g.x, g.ch, g.prefer_color)).collect();
    assert_eq!(
        at[..4],
        [
            (0, 'e', false),
            (0, '\u{0301}', false),
            (1, 'x', false),
            (2, '\u{2764}', true),
        ]
    );
    let last = row.glyphs.last().unwrap();
    assert!(last.bold && last.italic && last.ch == '!');
}

#[test]
fn hidden_text_asks_for_no_glyphs() {
    let l = look();
    let t = term("\x1b[8msecret");
    assert!(l.painter().row_plan(&input(&t, None, true), 0).glyphs.is_empty());
}

#[test]
fn attributes_change_colours_in_turn() {
    let mut cfg = Config::default();
    let palette = cfg.palette();
    let mut c = Cell::empty();
    c.ch = 'x' as u32;
    c.fg = Color::indexed(1);
    c.bg = Color::rgb(10, 20, 31);
    let shown = |c: &Cell, cfg: &Config, reverse: bool, selected: bool| {
        resolve_colors(c, &cfg.theme, &palette, reverse, selected)
    };
    let red = palette.0[1];
    assert_eq!(shown(&c, &cfg, false, false), (red, [10, 20, 31]));
    assert_eq!(shown(&c, &cfg, true, false), ([10, 20, 31], red));
    c.flags = CellFlags(CellFlags::REVERSE);
    assert_eq!(shown(&c, &cfg, true, false), (red, [10, 20, 31]));
    c.flags = CellFlags(CellFlags::DIM);
    assert_eq!(shown(&c, &cfg, false, false), ([126, 58, 69], [10, 20, 31]));
    c.flags = CellFlags(CellFlags::HIDDEN);
    assert_eq!(shown(&c, &cfg, false, false), ([10, 20, 31], [10, 20, 31]));
    c.flags = CellFlags(CellFlags::BOLD);
    assert_eq!(shown(&c, &cfg, false, false).0, red);
    cfg.theme.bold_is_bright = true;
    assert_eq!(shown(&c, &cfg, false, false).0, palette.0[9]);
    assert_eq!(shown(&c, &cfg, false, true), (palette.0[9], cfg.theme.selection_bg));
    cfg.theme.selection_fg = Some([1, 1, 1]);
    assert_eq!(shown(&c, &cfg, false, true), ([1, 1, 1], cfg.theme.selection_bg));
}

#[test]
fn families_are_listed_once() {
    let v = font_families("consolas");
    assert_eq!(v[0], "consolas");
    assert_eq!(v[1], "Symbols Nerd Font Mono");
    assert_eq!(v.len(), 21);
    assert!(!v[1..].iter().any(|f| f.eq_ignore_ascii_case("Consolas")));
    assert_eq!(emoji_family(&v), Some(13));
    assert_eq!(font_families("Iosevka").len(), 22);
    assert_eq!(emoji_family(&vec!["SEGOE UI EMOJI".to_string()]), Some(0));
    assert_eq!(emoji_family(&vec!["Arial".to_string()]), None);
}

#[test]
fn pictures_are_looked_for_first() {
    assert_eq!(families_to_try(3, Some(2), 'a', false), vec![0, 1, 2]);
    assert_eq!(families_to_try(3, Some(2), 'a', true), vec![2, 0, 1, 2]);
    assert_eq!(families_to_try(3, Some(2), '\u{1F600}', false), vec![2, 0, 1, 2]);
    assert_eq!(families_to_try(3, None, '\u{1F600}', true), vec![0, 1, 2]);
    assert_eq!(families_to_try(1000, None, 'a', false).len(), 255);
    assert!(wants_emoji_presentation('\u{231A}'));
    assert!(!wants_emoji_presentation('\u{231C}'));
    assert!(wants_emoji_presentation('\u{2B55}'));
    assert!(!wants_emoji_presentation('\u{2764}'));
    assert!(is_invisible_format('\u{200D}'));
    assert!(!is_invisible_format('a'));
}

#[test]
fn coverage_becomes_texels() {
    assert_eq!(
        widen_coverage(&[1, 2, 3, 9, 8, 7, 5, 6, 5]),
        vec![1, 2, 3, 3, 9, 8, 7, 9, 5, 6, 5, 6]
    );
    assert_eq!(collapse_coverage(&[1, 2, 3, 255, 255, 255, 0, 0, 2]), vec![2, 255, 0]);
    assert!(widen_coverage(&[]).is_empty());
}

#[test]
fn layers_keep_their_places() {
    let a = Bounds { left: -2, top: 0, right: 3, bottom: 4 };
    let b = Bounds { left: 0, top: -5, right: 9, bottom: 1 };
    let all = union_of(&[a, b]);
    assert_eq!(all, Bounds { left: -2, top: -5, right: 9, bottom: 4 });
    assert_eq!(all.size(), (11, 9));
    assert_eq!(Bounds { left: 5, top: 0, right: 1, bottom: 4 }.size(), (0, 4));
    assert_eq!(texel_of(&all, &a, 0, 0), 55);
    assert_eq!(texel_of(&all, &b, 8, 5), 5 * 11 + 10);
}

fn bitmap(width: u32, height: u32) -> GlyphBitmap {
    GlyphBitmap { width, height, pixels: Vec::new(), left: 1, top: -9, color: false }
}

fn key(glyph: u16) -> GlyphKey {
    GlyphKey { face: FaceKey::regular(), glyph }
}

#[test]
fn glyphs_are_packed_on_shelves() {
    let mut atlas = Atlas::new();
    assert_eq!(atlas.get(&key(1)), None);
    let e = atlas.store(&key(1), Some(&bitmap(500, 10))).unwrap();
    assert_eq!(
        e,
        AtlasEntry { u: 0, v: 0, width: 500, height: 10, left: 1, top: -9, color: false }
    );
    assert_eq!(atlas.get(&key(1)), Some(Some(e)));
    let e = atlas.store(&key(2), Some(&bitmap(500, 20))).unwrap();
    assert_eq!((e.u, e.v), (501, 0));
    // No room on this shelf any more.
    let e = atlas.store(&key(3), Some(&bitmap(500, 5))).unwrap();
    assert_eq!((e.u, e.v), (0, 21));
    assert_eq!(atlas.store(&key(4), None), None);
    assert_eq!(atlas.get(&key(4)), Some(None));
    assert_eq!(atlas.store(&key(5), Some(&bitmap(1023, 1))), None);
    assert_eq!(atlas.generation(), 0);
}

#[test]
fn a_full_atlas_starts_over() {
    let mut atlas = Atlas::new();
    atlas.store(&key(1), Some(&bitmap(1000, 600))).unwrap();
    let e = atlas.store(&key(2), Some(&bitmap(1000, 600))).unwrap();
    assert_eq!((e.u, e.v), (0, 0));
    assert_eq!(atlas.generation(), 1);
    assert_eq!(atlas.get(&key(1)), None);
    assert_eq!(atlas.get(&key(2)), Some(Some(e)));
    atlas.reset();
    assert_eq!(atlas.generation(), 2);
    assert_eq!(atlas.get(&key(2)), None);
}

#[test]
fn glyph_keys_have_their_own_numbers() {
    let mut numbers = Vec::new();
    for bold in [false, true] {
        for italic in [false, true] {
            for fallback in [0u8, 1, 255] {
                for glyph in [0u16, 1, 65535] {
                    let face = FaceKey { bold, italic, fallback };
                    numbers.push(GlyphKey { face, glyph }.number());
                }
            }
        }
    }
    let count = numbers.len();
    numbers.sort();
    numbers.dedup();
    assert_eq!(numbers.len(), count);
}

#[test]
fn buffers_grow_by_doubling() {
    assert_eq!(grown_capacity(0, 1), 1024);
    assert_eq!(grown_capacity(1024, 1024), 1024);
    assert_eq!(grown_capacity(1024, 1025), 2048);
    assert_eq!(grown_capacity(5000, 10), 5000);
    assert_eq!(grown_capacity(0, 70_000), 131_072);
}

#[test]
fn a_cell_stacks_eight_scalars_at_most() {
    assert_eq!(Chars::one('x').as_slice(), &['x']);
    let many: Vec<char> = "abcdefghij".chars().collect();
    assert_eq!(Chars::from_slice(&many).as_slice(), &many[..8]);
    assert_eq!(Chars::from_slice(&many[..3]).as_slice(), &many[..3]);
    assert!(Chars::from_slice(&[]).as_slice().is_empty());
}

#[test]
fn cells_are_sixteen_bytes() {
    assert_eq!(std::mem::size_of::<Cell>(), 16);
}
