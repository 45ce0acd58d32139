//! What a frame shows of the screen, cell by cell.

use vstd::prelude::*;

use super::chars::stacked;
use super::colors::shown_colors;
use super::font::{invisible, COLOR_SELECTOR, TEXT_SELECTOR};
use super::frame::{
    columns, columns_are_drawn_once, inked, scene, stops, Decoration, FrameInput, GlyphRequest,
    LineStyle, Painter, RowPlan, Scene,
};
use crate::config::ThemeConfig;
use crate::term::color::Color;
use crate::term::grid::lemma_wrap_is_mod;
use crate::term::{Cell, CellFlags, CursorShape, Palette, TermMode};

verus! {

/// Every character leaves ink but a few that only control how others look: the selectors of a
/// presentation, the joiners, the space of no width and the byte-order mark.
pub proof fn few_characters_are_invisible(c: char)
    ensures
        (c as u32) < 0x200B ==> !invisible(c),
        0x200D < (c as u32) < 0xFE0E ==> !invisible(c),
        0xFE0F < (c as u32) < 0xFEFF ==> !invisible(c),
        0xFEFF < (c as u32) ==> !invisible(c),
        c == '\u{200B}' || c == '\u{200C}' || c == '\u{200D}' || c == '\u{FE0E}' || c == '\u{FE0F}'
            || c == '\u{FEFF}' ==> invisible(c),
{
}

/// Is something drawn at column `x`? Not at the second half of a double-width character, nor right
/// behind a first half.
pub open spec fn starts_at(cells: Seq<Cell>, x: int) -> bool {
    &&& 0 <= x < cells.len()
    &&& !cells[x].flags.contains(CellFlags::WIDE_SPACER)
    &&& x > 0 ==> !cells[x - 1].flags.contains(CellFlags::WIDE)
}

/// Every such column is among those at which something is drawn.
proof fn lemma_is_stop(cells: Seq<Cell>, from: int, x: int)
    requires
        0 <= from <= x,
        starts_at(cells, x),
    ensures
        stops(cells, from).contains(x),
    decreases cells.len() + 1 - from,
{
    let all = stops(cells, from);
    if cells[from].flags.contains(CellFlags::WIDE_SPACER) {
        lemma_is_stop(cells, from + 1, x);
    } else {
        let next = from + columns(cells[from]);
        let rest = stops(cells, next);
        assert(all == seq![from] + rest);
        if from == x {
            assert(all[0] == x);
        } else {
            if cells[from].flags.contains(CellFlags::WIDE) {
                assert(x != from + 1);
            }
            lemma_is_stop(cells, next, x);
            let k = choose|k: int| 0 <= k < rest.len() && rest[k] == x;
            assert(all[k + 1] == x);
        }
    }
}

/// What one cell asks for, in terms of its characters.
proof fn lemma_inked_like(chars: Seq<char>, like: GlyphRequest, i: int)
    requires
        0 <= i < inked(chars, like).len(),
    ensures
        inked(chars, like)[i] == like.with_char(inked(chars, like)[i].ch),
    decreases chars.len(),
{
    if chars.len() > 0 {
        let before = inked(chars.drop_last(), like);
        if chars.last() == ' ' || invisible(chars.last()) {
            assert(inked(chars, like) == before);
            lemma_inked_like(chars.drop_last(), like, i);
        } else {
            assert(inked(chars, like) == before.push(like.with_char(chars.last())));
            if i < before.len() {
                lemma_inked_like(chars.drop_last(), like, i);
            }
        }
    }
}

/// Every character with ink is asked for.
proof fn lemma_inked_all(chars: Seq<char>, like: GlyphRequest, c: char)
    requires
        chars.contains(c),
        c != ' ',
        !invisible(c),
    ensures
        inked(chars, like).contains(like.with_char(c)),
    decreases chars.len(),
{
    let k = choose|k: int| 0 <= k < chars.len() && chars[k] == c;
    let before = inked(chars.drop_last(), like);
    let all = inked(chars, like);
    if k == chars.len() - 1 {
        assert(all == before.push(like.with_char(c)));
        assert(all[before.len() as int] == like.with_char(c));
    } else {
        assert(chars.drop_last()[k] == c);
        lemma_inked_all(chars.drop_last(), like, c);
        let m = choose|m: int| 0 <= m < before.len() && before[m] == like.with_char(c);
        assert(all[m] == before[m]);
    }
}

/// The glyphs of some columns are those of one of them, and others that stand elsewhere.
proof fn lemma_glyphs_of(s: Scene, y: int, xs: Seq<int>, x: int) -> (parts: (
    Seq<GlyphRequest>,
    Seq<GlyphRequest>,
))
    requires
        xs.contains(x),
        forall|i: int| 0 <= i < xs.len() ==> 0 <= #[trigger] xs[i] <= usize::MAX,
        forall|i: int, j: int| 0 <= i < j < xs.len() ==> #[trigger] xs[i] < #[trigger] xs[j],
    ensures
        s.glyphs_along(y, xs) == parts.0 + s.glyphs_at(y, x) + parts.1,
        forall|i: int| 0 <= i < parts.0.len() ==> (#[trigger] parts.0[i]).x != x,
        forall|i: int| 0 <= i < parts.1.len() ==> (#[trigger] parts.1[i]).x != x,
    decreases xs.len(),
{
    let before = xs.drop_last();
    let last = xs.last();
    assert forall|i: int, j: int| 0 <= i < j < before.len() implies #[trigger] before[i]
        < #[trigger] before[j] by {
        assert(before[i] == xs[i] && before[j] == xs[j]);
    }
    assert forall|i: int| 0 <= i < before.len() implies 0 <= #[trigger] before[i] <= usize::MAX by {
        assert(before[i] == xs[i]);
    }
    if last == x {
        let head = s.glyphs_along(y, before);
        assert forall|i: int| 0 <= i < head.len() implies (#[trigger] head[i]).x != x by {
            assert forall|k: int| 0 <= k < before.len() implies #[trigger] before[k] != x by {
                assert(before[k] == xs[k] && xs[k] < xs[xs.len() - 1]);
            }
            lemma_no_glyph(s, y, before, x, i);
        }
        assert(s.glyphs_along(y, xs) =~= head + s.glyphs_at(y, x) + Seq::<GlyphRequest>::empty());
        (head, Seq::empty())
    } else {
        let k = choose|k: int| 0 <= k < xs.len() && xs[k] == x;
        assert(before[k] == x);
        let (a, b) = lemma_glyphs_of(s, y, before, x);
        let here = s.glyphs_at(y, last);
        let tail = b + here;
        assert(s.glyphs_along(y, xs) =~= a + s.glyphs_at(y, x) + tail);
        assert forall|i: int| 0 <= i < tail.len() implies (#[trigger] tail[i]).x != x by {
            if i >= b.len() {
                lemma_glyph_column(s, y, last, i - b.len());
                assert(tail[i] == here[i - b.len()]);
                assert(xs[xs.len() - 1] == last);
            }
        }
        (a, tail)
    }
}

/// The glyphs of a cell stand at its column.
proof fn lemma_glyph_column(s: Scene, y: int, x: int, i: int)
    requires
        0 <= i < s.glyphs_at(y, x).len(),
        0 <= x <= usize::MAX,
    ensures
        s.glyphs_at(y, x)[i].x == x,
{
    let cell = s.cell(y, x);
    let chars = stacked(s.term.characters(cell));
    lemma_inked_like(chars, request_like(s, y, x), i);
}

/// What every character of a cell is asked for with.
pub open spec fn request_like(s: Scene, y: int, x: int) -> GlyphRequest {
    let cell = s.cell(y, x);
    let chars = stacked(s.term.characters(cell));
    GlyphRequest {
        x: x as usize,
        ch: ' ',
        bold: cell.flags.contains(CellFlags::BOLD) && s.bold_font,
        italic: cell.flags.contains(CellFlags::ITALIC) && s.italic_font,
        prefer_color: chars.contains(COLOR_SELECTOR) && !chars.contains(TEXT_SELECTOR),
        color: s.ink(y, x),
    }
}

/// Columns that are not among some have no glyph there.
proof fn lemma_no_glyph(s: Scene, y: int, xs: Seq<int>, x: int, i: int)
    requires
        forall|k: int| 0 <= k < xs.len() ==> 0 <= #[trigger] xs[k] <= usize::MAX,
        forall|k: int| 0 <= k < xs.len() ==> #[trigger] xs[k] != x,
        0 <= i < s.glyphs_along(y, xs).len(),
    ensures
        s.glyphs_along(y, xs)[i].x != x,
    decreases xs.len(),
{
    let before = s.glyphs_along(y, xs.drop_last());
    if i < before.len() {
        assert forall|k: int| 0 <= k < xs.drop_last().len() implies 0
            <= #[trigger] xs.drop_last()[k] <= usize::MAX && xs.drop_last()[k] != x by {
            assert(xs.drop_last()[k] == xs[k]);
        }
        lemma_no_glyph(s, y, xs.drop_last(), x, i);
    } else {
        assert(xs[xs.len() - 1] == xs.last());
        lemma_glyph_column(s, y, xs.last(), i - before.len());
    }
}

/// The row that is shown is as long as the screen is wide, and its columns can be counted.
proof fn lemma_row(s: Scene, y: int)
    requires
        s.term.wf(),
    ensures
        s.term.grid.shown(y).cells.len() == s.term.cols(),
        s.term.cols() <= usize::MAX,
{
    lemma_wrap_is_mod(y - s.term.grid.display_offset, s.term.grid.cap());
}

/// Every character that leaves ink is drawn: in a cell that is not hidden, a single character other
/// than a space is asked for exactly once, at its column, in the colour of its cell, whatever other
/// attributes the cell has.
pub proof fn visible_characters_are_drawn(s: Scene, y: int, plan: RowPlan, x: int, c: char)
    requires
        s.term.wf(),
        s.shows(y, plan),
        starts_at(s.term.grid.shown(y).cells, x),
        s.cell(y, x).ch == c as u32,
        !s.cell(y, x).flags.contains(CellFlags::HIDDEN),
        c != '\0',
        c != ' ',
        !invisible(c),
    ensures
        ({
            let cell = s.cell(y, x);
            let wanted = GlyphRequest {
                x: x as usize,
                ch: c,
                bold: cell.flags.contains(CellFlags::BOLD) && s.bold_font,
                italic: cell.flags.contains(CellFlags::ITALIC) && s.italic_font,
                prefer_color: false,
                color: s.ink(y, x),
            };
            exists|k: int|
                {
                    &&& 0 <= k < plan.glyphs@.len()
                    &&& #[trigger] plan.glyphs@[k] == wanted
                    &&& forall|j: int|
                        0 <= j < plan.glyphs@.len() && j != k ==> (#[trigger] plan.glyphs@[j]).x != x
                }
        }),
{
    lemma_row(s, y);
    let cells = s.term.grid.shown(y).cells;
    let xs = stops(cells, 0);
    columns_are_drawn_once(cells, 0);
    lemma_is_stop(cells, 0, x);
    let (a, b) = lemma_glyphs_of(s, y, xs, x);
    let cell = s.cell(y, x);
    let like = request_like(s, y, x);
    crate::term::screen_laws::cells_show_what_they_hold(s.term, c, cell);
    let chars = seq![c];
    assert(stacked(s.term.characters(cell)) =~= chars);
    assert(chars[0] == c);
    lemma_not_nul(c);
    assert(!cell.is_empty());
    assert(chars.drop_last() =~= Seq::<char>::empty());
    assert(inked(chars.drop_last(), like) =~= Seq::<GlyphRequest>::empty());
    assert(inked(chars, like) =~= seq![like.with_char(c)]);
    assert(!chars.contains(COLOR_SELECTOR)) by {
        if chars.contains(COLOR_SELECTOR) {
            let k = choose|k: int| 0 <= k < chars.len() && chars[k] == COLOR_SELECTOR;
            assert(invisible(COLOR_SELECTOR));
        }
    }
    let all = plan.glyphs@;
    assert(all == a + seq![like.with_char(c)] + b);
    let k = a.len() as int;
    assert(all[k] == like.with_char(c));
    assert forall|j: int| 0 <= j < all.len() && j != k implies (#[trigger] all[j]).x != x by {
        if j < k {
            assert(all[j] == a[j]);
        } else {
            assert(all[j] == b[j - k - 1]);
        }
    }
}

proof fn lemma_not_nul(c: char)
    ensures
        c != '\0' ==> c as u32 != 0,
{
}

/// Of a character with marks, every scalar that leaves ink is drawn, all at the column of the cell.
pub proof fn stacked_characters_are_drawn(s: Scene, y: int, plan: RowPlan, x: int, c: char)
    requires
        s.term.wf(),
        s.shows(y, plan),
        starts_at(s.term.grid.shown(y).cells, x),
        s.cell(y, x).ch != 0,
        !s.cell(y, x).flags.contains(CellFlags::HIDDEN),
        s.term.characters(s.cell(y, x)).len() <= 8,
        s.term.characters(s.cell(y, x)).contains(c),
        c != ' ',
        !invisible(c),
    ensures
        exists|k: int|
            {
                &&& 0 <= k < plan.glyphs@.len()
                &&& (#[trigger] plan.glyphs@[k]).x == x
                &&& plan.glyphs@[k].ch == c
                &&& plan.glyphs@[k].color == s.ink(y, x)
            },
{
    lemma_row(s, y);
    let cells = s.term.grid.shown(y).cells;
    columns_are_drawn_once(cells, 0);
    lemma_is_stop(cells, 0, x);
    let (a, b) = lemma_glyphs_of(s, y, stops(cells, 0), x);
    let chars = stacked(s.term.characters(s.cell(y, x)));
    let like = request_like(s, y, x);
    lemma_inked_all(chars, like, c);
    let here = s.glyphs_at(y, x);
    let m = choose|m: int| 0 <= m < here.len() && here[m] == like.with_char(c);
    assert(plan.glyphs@[a.len() + m] == here[m]);
}

/// What is drawn of a cell whose characters all leave ink: each of them, in order, one over the other,
/// as a coloured picture if a selector among them asks for that and none asks for text.
pub proof fn clusters_are_drawn_in_order(s: Scene, y: int, plan: RowPlan, x: int) -> (k: int)
    requires
        s.term.wf(),
        s.shows(y, plan),
        starts_at(s.term.grid.shown(y).cells, x),
        s.cell(y, x).ch != 0,
        !s.cell(y, x).flags.contains(CellFlags::HIDDEN),
        s.term.characters(s.cell(y, x)).len() <= 8,
    ensures
        ({
            let cell = s.cell(y, x);
            let chars = s.term.characters(cell);
            let drawn = chars.filter(|c: char| c != ' ' && !invisible(c));
            &&& 0 <= k
            &&& k + drawn.len() <= plan.glyphs@.len()
            &&& forall|i: int|
                0 <= i < drawn.len() ==> #[trigger] plan.glyphs@[k + i] == (GlyphRequest {
                    x: x as usize,
                    ch: drawn[i],
                    bold: cell.flags.contains(CellFlags::BOLD) && s.bold_font,
                    italic: cell.flags.contains(CellFlags::ITALIC) && s.italic_font,
                    prefer_color: chars.contains('\u{FE0F}') && !chars.contains('\u{FE0E}'),
                    color: s.ink(y, x),
                })
            &&& forall|j: int|
                0 <= j < plan.glyphs@.len() && !(k <= j < k + drawn.len()) ==> (
                #[trigger] plan.glyphs@[j]).x != x
        }),
{
    lemma_row(s, y);
    let cells = s.term.grid.shown(y).cells;
    columns_are_drawn_once(cells, 0);
    lemma_is_stop(cells, 0, x);
    let (a, b) = lemma_glyphs_of(s, y, stops(cells, 0), x);
    let chars = s.term.characters(s.cell(y, x));
    let like = request_like(s, y, x);
    let here = s.glyphs_at(y, x);
    let drawn = chars.filter(|c: char| c != ' ' && !invisible(c));
    assert(stacked(chars) == chars);
    lemma_inked_filter(chars, like);
    assert(plan.glyphs@ == a + here + b);
    assert forall|i: int| 0 <= i < drawn.len() implies #[trigger] plan.glyphs@[a.len() + i]
        == like.with_char(drawn[i]) by {
        assert(plan.glyphs@[a.len() + i] == here[i]);
    }
    assert forall|j: int|
        0 <= j < plan.glyphs@.len() && !(a.len() <= j < a.len() + drawn.len()) implies (
    #[trigger] plan.glyphs@[j]).x != x by {
        if j < a.len() {
            assert(plan.glyphs@[j] == a[j]);
        } else {
            assert(plan.glyphs@[j] == b[j - a.len() - here.len()]);
        }
    }
    a.len() as int
}

/// The characters that are asked for are those with ink, in order.
proof fn lemma_inked_filter(chars: Seq<char>, like: GlyphRequest)
    ensures
        ({
            let drawn = chars.filter(|c: char| c != ' ' && !invisible(c));
            &&& inked(chars, like).len() == drawn.len()
            &&& forall|i: int|
                0 <= i < drawn.len() ==> #[trigger] inked(chars, like)[i] == like.with_char(drawn[i])
        }),
    decreases chars.len(),
{
    let keep = |c: char| c != ' ' && !invisible(c);
    reveal(Seq::filter);
    if chars.len() > 0 {
        lemma_inked_filter(chars.drop_last(), like);
        let before = chars.drop_last().filter(keep);
        let after = chars.filter(keep);
        assert(after == (if keep(chars.last()) {
            before.push(chars.last())
        } else {
            before
        }));
    } else {
        assert(chars.filter(keep).len() == 0);
    }
}

/// A frame is made of what it is given: the terminal, the selection, the focus, the phase of the
/// blink, the theme and its palette, and which faces there are.
pub proof fn frames_are_made_of_what_is_given(painter: Painter, input: FrameInput)
    ensures
        ({
            let s = scene(painter, input);
            &&& s.term == input.term@
            &&& s.selection == input.selection
            &&& s.focused == input.focused
            &&& s.blink_on == input.cursor_blink_on
            &&& s.theme == *painter.theme
            &&& s.palette == *painter.palette
            &&& s.bold_font == painter.use_bold_font
            &&& s.italic_font == painter.use_italic_font
        }),
{
}

/// Nothing is drawn for a cell that holds nothing, holds a space, or is hidden.
pub proof fn nothing_is_drawn_for_nothing(s: Scene, y: int, plan: RowPlan, x: int, k: int)
    requires
        s.term.wf(),
        s.shows(y, plan),
        starts_at(s.term.grid.shown(y).cells, x),
        s.cell(y, x).ch == 0 || s.cell(y, x).ch == 0x20 || s.cell(y, x).flags.contains(
            CellFlags::HIDDEN,
        ),
        0 <= k < plan.glyphs@.len(),
    ensures
        plan.glyphs@[k].x != x,
{
    lemma_row(s, y);
    let cells = s.term.grid.shown(y).cells;
    columns_are_drawn_once(cells, 0);
    lemma_is_stop(cells, 0, x);
    let (a, b) = lemma_glyphs_of(s, y, stops(cells, 0), x);
    let cell = s.cell(y, x);
    if cell.ch == 0x20 {
        crate::term::screen_laws::cells_show_what_they_hold(s.term, ' ', cell);
        let chars = stacked(s.term.characters(cell));
        assert(chars =~= seq![' ']);
        assert(chars.drop_last() =~= Seq::<char>::empty());
        assert(inked(chars.drop_last(), request_like(s, y, x)) =~= Seq::<GlyphRequest>::empty());
        assert(inked(chars, request_like(s, y, x)) =~= Seq::<GlyphRequest>::empty());
    }
    assert(s.glyphs_at(y, x) =~= Seq::<GlyphRequest>::empty());
    assert(plan.glyphs@ =~= a + b);
    if k < a.len() {
        assert(plan.glyphs@[k] == a[k]);
    } else {
        assert(plan.glyphs@[k] == b[k - a.len()]);
    }
}

/// A line that a cell has: the attribute that asks for it, and the line.
pub open spec fn line_attributes() -> Seq<(u16, LineStyle)> {
    seq![
        (0x0008u16, LineStyle::Underline),
        (0x0010u16, LineStyle::DoubleUnderline),
        (0x0020u16, LineStyle::CurlyUnderline),
        (0x0040u16, LineStyle::DottedUnderline),
        (0x0080u16, LineStyle::DashedUnderline),
        (0x0800u16, LineStyle::Strikeout),
        (0x1000u16, LineStyle::Overline),
    ]
}

/// The lines of some columns are those of one of them among others.
proof fn lemma_lines_of(s: Scene, y: int, xs: Seq<int>, x: int, i: int)
    requires
        xs.contains(x),
        0 <= i < s.lines_at(y, x).len(),
    ensures
        s.lines_along(y, xs).contains(s.lines_at(y, x)[i]),
    decreases xs.len(),
{
    let before = s.lines_along(y, xs.drop_last());
    let all = s.lines_along(y, xs);
    if xs.last() == x {
        assert(all[before.len() + i] == s.lines_at(y, x)[i]);
    } else {
        let k = choose|k: int| 0 <= k < xs.len() && xs[k] == x;
        assert(xs.drop_last()[k] == x);
        lemma_lines_of(s, y, xs.drop_last(), x, i);
        let m = choose|m: int| 0 <= m < before.len() && before[m] == s.lines_at(y, x)[i];
        assert(all[m] == before[m]);
    }
}

/// Every line that a cell asks for is drawn, as wide as the cell: an underline of one style in its own
/// colour or that of the text, a line through it and a line over it in that of the text.
pub proof fn lines_are_drawn(s: Scene, y: int, plan: RowPlan, x: int, n: int)
    requires
        s.term.wf(),
        s.shows(y, plan),
        starts_at(s.term.grid.shown(y).cells, x),
        0 <= n < 7,
        s.cell(y, x).flags.contains(line_attributes()[n].0),
        n < 5 ==> s.cell(y, x).flags.0 & 0x00F8 == line_attributes()[n].0,
    ensures
        ({
            let cell = s.cell(y, x);
            exists|k: int|
                {
                    &&& 0 <= k < plan.decorations@.len()
                    &&& (#[trigger] plan.decorations@[k]).x == x
                    &&& plan.decorations@[k].style == line_attributes()[n].1
                    &&& plan.decorations@[k].width == (if cell.flags.contains(CellFlags::WIDE) {
                        2int
                    } else {
                        1int
                    })
                    &&& cell.underline == 0 || n >= 5 ==> plan.decorations@[k].color == s.ink(y, x)
                    &&& n < 5 && 1 <= cell.underline <= s.term.underline_colors.len()
                        ==> plan.decorations@[k].color
                        == s.term.underline_colors[cell.underline - 1].resolved(
                        s.palette,
                        s.ink(y, x),
                    )
                }
        }),
{
    lemma_row(s, y);
    let cells = s.term.grid.shown(y).cells;
    lemma_is_stop(cells, 0, x);
    let here = s.lines_at(y, x);
    let f = s.cell(y, x).flags.0;
    assert((f & 0x00F8u16 == 0x0008u16 ==> f & 0x0010u16 != 0x0010u16 && f & 0x0040u16 != 0x0040u16 && f
        & 0x0080u16 != 0x0080u16 && f & 0x0020u16 != 0x0020u16) && (f & 0x00F8u16 == 0x0020u16 ==> f
        & 0x0010u16 != 0x0010u16 && f & 0x0040u16 != 0x0040u16 && f & 0x0080u16 != 0x0080u16) && (f
        & 0x00F8u16 == 0x0040u16 ==> f & 0x0010u16 != 0x0010u16) && (f & 0x00F8u16 == 0x0080u16 ==> f
        & 0x0010u16 != 0x0010u16 && f & 0x0040u16 != 0x0040u16)) by (bit_vector);
    let under: int = if f & 0x00F8 != 0 {
        1
    } else {
        0
    };
    let through: int = if f & 0x0800 == 0x0800 {
        1
    } else {
        0
    };
    let i: int = if n < 5 {
        0
    } else if n == 5 {
        under
    } else {
        under + through
    };
    assert(here[i].style == line_attributes()[n].1);
    lemma_lines_of(s, y, stops(cells, 0), x, i);
    let k = choose|k: int| 0 <= k < plan.decorations@.len() && plan.decorations@[k] == here[i];
    assert(plan.decorations@[k].x == x);
}

/// A line comes once: no two of one column have the same style.
pub proof fn lines_come_once(s: Scene, y: int, plan: RowPlan, i: int, j: int)
    requires
        s.term.wf(),
        s.shows(y, plan),
        0 <= i < j < plan.decorations@.len(),
    ensures
        plan.decorations@[i].x <= plan.decorations@[j].x,
        plan.decorations@[i].x == plan.decorations@[j].x ==> plan.decorations@[i].style
            != plan.decorations@[j].style,
{
    lemma_row(s, y);
    let cells = s.term.grid.shown(y).cells;
    columns_are_drawn_once(cells, 0);
    lemma_lines_differ(s, y, stops(cells, 0), i, j);
}

/// The lines of a column stand at it.
proof fn lemma_line_column(s: Scene, y: int, xs: Seq<int>, i: int)
    requires
        forall|k: int| 0 <= k < xs.len() ==> 0 <= #[trigger] xs[k] <= usize::MAX,
        0 <= i < s.lines_along(y, xs).len(),
    ensures
        xs.contains(s.lines_along(y, xs)[i].x as int),
    decreases xs.len(),
{
    let before = s.lines_along(y, xs.drop_last());
    if i < before.len() {
        assert forall|k: int| 0 <= k < xs.drop_last().len() implies 0
            <= #[trigger] xs.drop_last()[k] <= usize::MAX by {
            assert(xs.drop_last()[k] == xs[k]);
        }
        lemma_line_column(s, y, xs.drop_last(), i);
        let k = choose|k: int|
            0 <= k < xs.drop_last().len() && xs.drop_last()[k] == before[i].x as int;
        assert(xs[k] == before[i].x as int);
    } else {
        assert(xs[xs.len() - 1] == xs.last());
        assert(s.lines_along(y, xs)[i] == s.lines_at(y, xs.last())[i - before.len()]);
    }
}

proof fn lemma_lines_differ(s: Scene, y: int, xs: Seq<int>, i: int, j: int)
    requires
        forall|k: int| 0 <= k < xs.len() ==> 0 <= #[trigger] xs[k] <= usize::MAX,
        forall|k: int, m: int| 0 <= k < m < xs.len() ==> #[trigger] xs[k] < #[trigger] xs[m],
        0 <= i < j < s.lines_along(y, xs).len(),
    ensures
        ({
            let all = s.lines_along(y, xs);
            all[i].x <= all[j].x && (all[i].x == all[j].x ==> all[i].style != all[j].style)
        }),
    decreases xs.len(),
{
    let rest = xs.drop_last();
    let before = s.lines_along(y, rest);
    let all = s.lines_along(y, xs);
    let here = s.lines_at(y, xs.last());
    assert forall|k: int| 0 <= k < rest.len() implies 0 <= #[trigger] rest[k] <= usize::MAX by {
        assert(rest[k] == xs[k]);
    }
    assert(xs[xs.len() - 1] == xs.last());
    if j < before.len() {
        assert forall|k: int, m: int| 0 <= k < m < rest.len() implies #[trigger] rest[k]
            < #[trigger] rest[m] by {
            assert(rest[k] == xs[k] && rest[m] == xs[m]);
        }
        lemma_lines_differ(s, y, rest, i, j);
    } else if i < before.len() {
        lemma_line_column(s, y, rest, i);
        let k = choose|k: int| 0 <= k < rest.len() && rest[k] == before[i].x as int;
        assert(rest[k] == xs[k]);
        assert(all[j] == here[j - before.len()]);
        assert(all[i] == before[i]);
    } else {
        assert(all[j] == here[j - before.len()]);
        assert(all[i] == here[i - before.len()]);
    }
}

/// A cell that asks for no line has none.
pub proof fn plain_cells_have_no_lines(s: Scene, y: int, xs: Seq<int>)
    requires
        forall|i: int|
            0 <= i < xs.len() ==> s.cell(y, #[trigger] xs[i]).flags.0 & 0x18F8 == 0,
    ensures
        s.lines_along(y, xs) == Seq::<Decoration>::empty(),
    decreases xs.len(),
{
    if xs.len() > 0 {
        assert forall|i: int| 0 <= i < xs.drop_last().len() implies s.cell(
            y,
            #[trigger] xs.drop_last()[i],
        ).flags.0 & 0x18F8 == 0 by {
            assert(xs.drop_last()[i] == xs[i]);
        }
        plain_cells_have_no_lines(s, y, xs.drop_last());
        let f = s.cell(y, xs[xs.len() - 1]).flags.0;
        assert(f & 0x18F8u16 == 0 ==> f & 0x00F8u16 == 0 && f & 0x0800u16 != 0x0800u16 && f
            & 0x1000u16 != 0x1000u16) by (bit_vector);
        assert(s.lines_along(y, xs) =~= Seq::<Decoration>::empty());
    }
}

/// The cursor is drawn where it is, in its shape, if it is to show, the live screen is in view, and
/// it is not in the dark phase of its blink; in a window without the focus it does not blink, and is
/// an outline. No other row has it.
pub proof fn the_cursor_is_drawn(s: Scene, y: int, plan: RowPlan)
    requires
        s.term.wf(),
        s.shows(y, plan),
    ensures
        ({
            let shown = s.term.mode.contains(TermMode::SHOW_CURSOR) && s.term.grid.display_offset
                == 0 && (s.blink_on || !s.term.cursor_blinks || !s.focused);
            &&& plan.cursor is Some <==> shown && s.term.cursor.y == y
            &&& plan.cursor is Some && s.term.cursor.x < s.term.cols() ==> plan.cursor->0.x
                == s.term.cursor.x
            &&& plan.cursor is Some && s.term.cursor.x >= s.term.cols() ==> plan.cursor->0.x
                == s.term.cols() - 1
            &&& plan.cursor is Some ==> plan.cursor->0.shape == s.term.cursor_shape
            &&& plan.cursor is Some ==> plan.cursor->0.hollow == !s.focused
        }),
{
}

/// The character under a block cursor of a window with the focus is drawn in the cursor's text
/// colour; every other in the colour of its cell.
pub proof fn block_cursors_invert(s: Scene, y: int, x: int)
    requires
        s.term.wf(),
        s.term.cursor.x < s.term.cols(),
    ensures
        ({
            let under = s.term.cursor.y == y && s.term.cursor.x == x && s.term.mode.contains(
                TermMode::SHOW_CURSOR,
            ) && s.term.grid.display_offset == 0 && s.focused && s.term.cursor_shape
                == CursorShape::Block && (s.blink_on || !s.term.cursor_blinks);
            &&& under ==> s.ink(y, x) == s.theme.cursor_text
            &&& !under ==> s.ink(y, x) == s.colors(y, x).0
        }),
{
}

/// The background of a cell is painted, in its colour, unless it is the default one, which is there
/// already.
pub proof fn backgrounds_are_painted(s: Scene, y: int, plan: RowPlan, x: int)
    requires
        s.term.wf(),
        s.shows(y, plan),
        0 <= x < s.term.cols(),
    ensures
        ({
            let bg = s.colors(y, x).1;
            let painted = exists|i: int|
                0 <= i < plan.runs@.len() && (#[trigger] plan.runs@[i]).start <= x
                    < plan.runs@[i].end && plan.runs@[i].color == bg;
            let touched = exists|i: int|
                0 <= i < plan.runs@.len() && (#[trigger] plan.runs@[i]).start <= x
                    < plan.runs@[i].end;
            &&& bg != s.theme.background ==> painted
            &&& bg == s.theme.background ==> !touched
        }),
{
    lemma_row(s, y);
    let colors = s.backgrounds(y);
    super::runs::runs_paint_the_row(colors, 0);
    assert(colors[x] == s.background(y, x));
    if s.colors(y, x).1 != s.theme.background {
        let runs = super::runs::runs_from(colors, 0);
        let i = choose|i: int| 0 <= i < runs.len() && #[trigger] runs[i].covers(x);
        assert(runs[i].covers(x));
        assert(plan.runs@[i].start <= x < plan.runs@[i].end);
    } else {
        assert forall|i: int| 0 <= i < plan.runs@.len() implies !((#[trigger] plan.runs@[i]).start
            <= x < plan.runs@[i].end) by {
            let runs = super::runs::runs_from(colors, 0);
            if runs[i].start <= x < runs[i].end {
                assert(runs[i].covers(x));
            }
        }
    }
}

/// What a row shows is the line that is in view: of the live screen, or as far back in history as the
/// user has scrolled. What is selected is told by the same numbers.
pub proof fn frames_show_what_is_in_view(s: Scene, y: int, x: int)
    requires
        s.term.wf(),
        0 <= y < s.term.rows(),
    ensures
        ({
            let line = s.term.grid.history - s.term.grid.display_offset + y;
            &&& s.cell(y, x) == s.term.grid.line(line).cells[x]
            &&& s.colors(y, x) == shown_colors(
                s.term.grid.line(line).cells[x],
                s.theme,
                s.palette,
                s.term.mode.0 & TermMode::REVERSE_VIDEO == TermMode::REVERSE_VIDEO,
                s.selected(y, x),
            )
            &&& s.selected(y, x) == (s.selection is Some && {
                let r = s.selection->0;
                &&& line > r.start_line || line == r.start_line && x >= r.start_col
                &&& line < r.end_line || line == r.end_line && x <= r.end_col
            })
        }),
{
}

/// A cell without attributes is drawn in its own colours, the theme's where it has none; reverse
/// video of the cell or of the screen exchanges them.
pub proof fn plain_cells_have_their_colors(
    cell: Cell,
    theme: ThemeConfig,
    palette: Palette,
    reverse_video: bool,
)
    requires
        cell.flags.0 & 0x0403 == 0,
    ensures
        ({
            let (fg, bg) = shown_colors(cell, theme, palette, reverse_video, false);
            let own = if cell.fg == Color(0) {
                theme.foreground
            } else {
                cell.fg.resolved(palette, theme.foreground)
            };
            let behind = if cell.bg == Color(0) {
                theme.background
            } else {
                cell.bg.resolved(palette, theme.background)
            };
            if (cell.flags.0 & 0x0200 == 0x0200) != reverse_video {
                fg == behind && bg == own
            } else {
                fg == own && bg == behind
            }
        }),
{
    let f = cell.flags.0;
    assert(f & 0x0403u16 == 0 ==> f & 0x0001u16 != 0x0001u16 && f & 0x0002u16 != 0x0002u16 && f
        & 0x0400u16 != 0x0400u16) by (bit_vector);
    assert(0u32 >> 24u32 == 0) by (bit_vector);
}

/// Dim text is halfway between the colours that it would have and what is behind it.
pub proof fn dim_text_is_halfway(
    cell: Cell,
    theme: ThemeConfig,
    palette: Palette,
    reverse_video: bool,
    i: int,
)
    requires
        cell.flags.0 & 0x0402 == 0x0002,
        0 <= i < 3,
    ensures
        ({
            let bright = Cell { flags: CellFlags(cell.flags.0 & !0x0002u16), ..cell };
            let (fg, bg) = shown_colors(bright, theme, palette, reverse_video, false);
            let (dim, behind) = shown_colors(cell, theme, palette, reverse_video, false);
            behind == bg && dim@[i] == (fg@[i] + bg@[i]) / 2
        }),
{
    let f = cell.flags.0;
    assert(f & 0x0402u16 == 0x0002u16 ==> f & 0x0002u16 == 0x0002u16 && f & 0x0400u16 != 0x0400u16 && (f
        & !0x0002u16) & 0x0002u16 != 0x0002u16 && (f & !0x0002u16) & 0x0400u16 != 0x0400u16 && (f
        & !0x0002u16) & 0x0001u16 == f & 0x0001u16 && (f & !0x0002u16) & 0x0200u16 == f & 0x0200u16)
        by (bit_vector);
}

/// Bold text in one of the eight basic colours is drawn in its bright variant, where the theme asks for
/// that; bold changes no other colour.
pub proof fn bold_text_is_bright(
    cell: Cell,
    theme: ThemeConfig,
    palette: Palette,
    reverse_video: bool,
    selected: bool,
)
    requires
        cell.flags.0 & 0x0001 == 0x0001,
    ensures
        ({
            let plain = Cell { flags: CellFlags(cell.flags.0 & !0x0001u16), ..cell };
            let slot = cell.fg.0 as int % 0x100;
            let bright = Cell { fg: Color((0x0100_0008 + slot) as u32), ..plain };
            let basic = cell.fg.0 as int / 0x100_0000 == 1 && slot < 8;
            shown_colors(cell, theme, palette, reverse_video, selected) == shown_colors(
                if theme.bold_is_bright && basic {
                    bright
                } else {
                    plain
                },
                theme,
                palette,
                reverse_video,
                selected,
            )
        }),
{
    let f = cell.flags.0;
    assert((f & !0x0001u16) & 0x0001u16 != 0x0001u16 && (f & !0x0001u16) & 0x0002u16 == f & 0x0002u16
        && (f & !0x0001u16) & 0x0400u16 == f & 0x0400u16 && (f & !0x0001u16) & 0x0200u16 == f
        & 0x0200u16) by (bit_vector);
    let slot = cell.fg.0 as int % 0x100;
    if cell.fg.0 as int / 0x100_0000 == 1 && slot < 8 {
        assert(cell.fg.brightened() == Color((0x0100_0008 + slot) as u32));
    }
}

/// A selection has its own background, and its own text colour where the theme has one.
pub proof fn selections_have_their_colors(
    cell: Cell,
    theme: ThemeConfig,
    palette: Palette,
    reverse_video: bool,
)
    ensures
        ({
            let (fg, _) = shown_colors(cell, theme, palette, reverse_video, false);
            let (text, behind) = shown_colors(cell, theme, palette, reverse_video, true);
            &&& behind == theme.selection_bg
            &&& theme.selection_fg is Some ==> text == theme.selection_fg->0
            &&& theme.selection_fg is None ==> text == fg
        }),
{
}

} // verus!
