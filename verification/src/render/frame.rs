//! The contents of a frame, row by row.

use vstd::prelude::*;

use super::chars::{stacked, Chars};
use super::colors::{resolve_colors, same_color, shown_colors};
use super::font::{invisible, is_invisible_format, COLOR_SELECTOR, TEXT_SELECTOR};
use super::runs::{background_runs, runs_from, Run};
use super::selection::SelectionRange;
use crate::config::ThemeConfig;
use crate::term::cell::{char_from_u32, lemma_tag_is_top_bit};
use crate::term::grid::lemma_wrap_is_mod;
use crate::term::model::{min, TermView};
use crate::term::{Cell, CellFlags, CursorShape, Palette, Term, TermMode, CLUSTER_TAG};

verus! {

/// One entry in the tab strip.
pub struct TabInfo {
    pub title: String,
}

/// Everything a frame depends on beyond the settings.
pub struct FrameInput<'a> {
    pub term: &'a Term,
    pub selection: Option<SelectionRange>,
    pub focused: bool,
    /// Current phase of the cursor blink; ignored for non-blinking cursors.
    pub cursor_blink_on: bool,
    /// Empty or single-entry means the strip is not drawn.
    pub tabs: &'a [TabInfo],
    pub active_tab: usize,
}

/// The settings that a frame depends on.
pub struct Painter<'a> {
    pub theme: &'a ThemeConfig,
    pub palette: &'a Palette,
    pub use_bold_font: bool,
    pub use_italic_font: bool,
}

/// A character to draw at a column.
#[derive(Clone, Copy, PartialEq, Eq, Debug)]
pub struct GlyphRequest {
    pub x: usize,
    pub ch: char,
    pub bold: bool,
    pub italic: bool,
    /// Ask the family with the colour pictures first.
    pub prefer_color: bool,
    pub color: [u8; 3],
}

impl GlyphRequest {
    /// The same for another character.
    pub open spec fn with_char(self, ch: char) -> GlyphRequest {
        GlyphRequest { ch, ..self }
    }
}

/// A line drawn with a character.
#[derive(Clone, Copy, PartialEq, Eq, Structural, Debug)]
pub enum LineStyle {
    Underline,
    DoubleUnderline,
    DottedUnderline,
    DashedUnderline,
    CurlyUnderline,
    Strikeout,
    Overline,
}

/// A line under, through or over some cells.
#[derive(Clone, Copy, PartialEq, Eq, Debug)]
pub struct Decoration {
    pub x: usize,
    /// In cells.
    pub width: usize,
    pub style: LineStyle,
    pub color: [u8; 3],
}

/// The cursor, where it is drawn.
#[derive(Clone, Copy, PartialEq, Eq, Structural, Debug)]
pub struct CursorBox {
    pub x: usize,
    pub shape: CursorShape,
    /// Only an outline: visible, but clearly not where keystrokes are going.
    pub hollow: bool,
}

/// What one row of the screen shows. The cursor lies over the backgrounds and under the glyphs, so
/// that a block cursor inverts; decorations lie over everything.
pub struct RowPlan {
    pub runs: Vec<Run>,
    pub cursor: Option<CursorBox>,
    pub glyphs: Vec<GlyphRequest>,
    pub decorations: Vec<Decoration>,
}

/// How many columns a cell takes.
pub open spec fn columns(cell: Cell) -> int {
    if cell.flags.contains(CellFlags::WIDE) {
        2
    } else {
        1
    }
}

/// The columns of a row, from `from` on, at which something is drawn: fillers draw nothing, and a
/// double-width character is followed by one column that is passed over.
pub open spec fn stops(cells: Seq<Cell>, from: int) -> Seq<int>
    decreases cells.len() + 1 - from,
{
    if from >= cells.len() {
        Seq::empty()
    } else if cells[from].flags.contains(CellFlags::WIDE_SPACER) {
        stops(cells, from + 1)
    } else {
        seq![from] + stops(cells, from + columns(cells[from]))
    }
}

/// The style of the line under a cell. Where several are set, the plainest gives way.
pub open spec fn underline_style(cell: Cell) -> LineStyle {
    if cell.flags.contains(CellFlags::DOUBLE_UNDERLINE) {
        LineStyle::DoubleUnderline
    } else if cell.flags.contains(CellFlags::DOTTED_UNDERLINE) {
        LineStyle::DottedUnderline
    } else if cell.flags.contains(CellFlags::DASHED_UNDERLINE) {
        LineStyle::DashedUnderline
    } else if cell.flags.contains(CellFlags::CURLY_UNDERLINE) {
        LineStyle::CurlyUnderline
    } else {
        LineStyle::Underline
    }
}

/// The characters of `chars` that have ink, each as `like` says.
pub open spec fn inked(chars: Seq<char>, like: GlyphRequest) -> Seq<GlyphRequest>
    decreases chars.len(),
{
    if chars.len() == 0 {
        Seq::empty()
    } else {
        let before = inked(chars.drop_last(), like);
        if chars.last() == ' ' || invisible(chars.last()) {
            before
        } else {
            before.push(like.with_char(chars.last()))
        }
    }
}

/// Everything that the screen of a frame depends on. The tabs do not show on it, but on the strip
/// above it.
pub ghost struct Scene {
    pub term: TermView,
    pub selection: Option<SelectionRange>,
    pub focused: bool,
    pub blink_on: bool,
    pub theme: ThemeConfig,
    pub palette: Palette,
    pub bold_font: bool,
    pub italic_font: bool,
}

/// What `painter` makes of `input`.
pub open spec fn scene(painter: Painter, input: FrameInput) -> Scene {
    Scene {
        term: input.term@,
        selection: input.selection,
        focused: input.focused,
        blink_on: input.cursor_blink_on,
        theme: *painter.theme,
        palette: *painter.palette,
        bold_font: painter.use_bold_font,
        italic_font: painter.use_italic_font,
    }
}

impl Scene {
    pub open spec fn cell(self, y: int, x: int) -> Cell {
        self.term.grid.shown(y).cells[x]
    }

    /// The absolute line of the top row.
    pub open spec fn first_line(self) -> int {
        self.term.grid.history - self.term.grid.display_offset
    }

    pub open spec fn selected(self, y: int, x: int) -> bool {
        match self.selection {
            Some(s) => s.covers(self.first_line() + y, x),
            None => false,
        }
    }

    pub open spec fn colors(self, y: int, x: int) -> ([u8; 3], [u8; 3]) {
        shown_colors(
            self.cell(y, x),
            self.theme,
            self.palette,
            self.term.on(TermMode::REVERSE_VIDEO),
            self.selected(y, x),
        )
    }

    /// The background to draw; none where the default shows.
    pub open spec fn background(self, y: int, x: int) -> Option<[u8; 3]> {
        let bg = self.colors(y, x).1;
        if bg == self.theme.background {
            None
        } else {
            Some(bg)
        }
    }

    pub open spec fn backgrounds(self, y: int) -> Seq<Option<[u8; 3]>> {
        Seq::new(self.term.cols() as nat, |x: int| self.background(y, x))
    }

    /// Where the cursor is drawn. Past the last column it stays on the last one.
    pub open spec fn cursor_x(self) -> int {
        min(self.term.cursor.x, self.term.cols() - 1)
    }

    /// Is the cursor drawn? While the user reads scrollback it is not: it belongs to the live
    /// screen. A cursor that blinks stays on while the window is not focused.
    pub open spec fn cursor_shown(self) -> bool {
        self.term.on(TermMode::SHOW_CURSOR) && self.term.grid.display_offset == 0 && (
        !self.term.cursor_blinks || self.blink_on || !self.focused)
    }

    /// The cursor, if it is in row `y`.
    pub open spec fn cursor_in(self, y: int) -> Option<CursorBox> {
        if self.cursor_shown() && self.term.cursor.y == y {
            Some(
                CursorBox {
                    x: self.cursor_x() as usize,
                    shape: self.term.cursor_shape,
                    hollow: !self.focused,
                },
            )
        } else {
            None
        }
    }

    /// The colour of what is drawn in a cell. A focused block cursor inverts the character under it.
    pub open spec fn ink(self, y: int, x: int) -> [u8; 3] {
        if self.cursor_shown() && self.focused && self.term.cursor.y == y && self.cursor_x() == x
            && self.term.cursor_shape == CursorShape::Block {
            self.theme.cursor_text
        } else {
            self.colors(y, x).0
        }
    }

    /// The characters drawn in a cell. A cluster is its base character and the marks stacked on it;
    /// a selector among them decides between colour and text presentation.
    pub open spec fn glyphs_at(self, y: int, x: int) -> Seq<GlyphRequest> {
        let cell = self.cell(y, x);
        if cell.is_empty() || cell.flags.contains(CellFlags::HIDDEN) {
            Seq::empty()
        } else {
            let chars = stacked(self.term.characters(cell));
            inked(
                chars,
                GlyphRequest {
                    x: x as usize,
                    ch: ' ',
                    bold: cell.flags.contains(CellFlags::BOLD) && self.bold_font,
                    italic: cell.flags.contains(CellFlags::ITALIC) && self.italic_font,
                    prefer_color: chars.contains(COLOR_SELECTOR) && !chars.contains(TEXT_SELECTOR),
                    color: self.ink(y, x),
                },
            )
        }
    }

    /// The colour of the line under a cell: its own if it has one, else that of the character.
    pub open spec fn underline_ink(self, y: int, x: int) -> [u8; 3] {
        let i = self.cell(y, x).underline;
        if 1 <= i <= self.term.underline_colors.len() {
            self.term.underline_colors[i - 1].resolved(self.palette, self.ink(y, x))
        } else {
            self.ink(y, x)
        }
    }

    /// The lines drawn with a cell, from the bottom up.
    pub open spec fn lines_at(self, y: int, x: int) -> Seq<Decoration> {
        let cell = self.cell(y, x);
        let plain = Decoration {
            x: x as usize,
            width: columns(cell) as usize,
            style: LineStyle::Strikeout,
            color: self.ink(y, x),
        };
        (if cell.flags.intersects(CellFlags::ANY_UNDERLINE) {
            seq![
                Decoration {
                    style: underline_style(cell),
                    color: self.underline_ink(y, x),
                    ..plain
                },
            ]
        } else {
            Seq::empty()
        }) + (if cell.flags.contains(CellFlags::STRIKEOUT) {
            seq![plain]
        } else {
            Seq::empty()
        }) + (if cell.flags.contains(CellFlags::OVERLINE) {
            seq![Decoration { style: LineStyle::Overline, ..plain }]
        } else {
            Seq::empty()
        })
    }

    /// What is drawn at some columns, one after the other.
    pub open spec fn glyphs_along(self, y: int, xs: Seq<int>) -> Seq<GlyphRequest>
        decreases xs.len(),
    {
        if xs.len() == 0 {
            Seq::empty()
        } else {
            self.glyphs_along(y, xs.drop_last()) + self.glyphs_at(y, xs.last())
        }
    }

    /// The lines drawn at some columns, one after the other.
    pub open spec fn lines_along(self, y: int, xs: Seq<int>) -> Seq<Decoration>
        decreases xs.len(),
    {
        if xs.len() == 0 {
            Seq::empty()
        } else {
            self.lines_along(y, xs.drop_last()) + self.lines_at(y, xs.last())
        }
    }

    /// The columns of row `y` at which something is drawn.
    pub open spec fn stops_of(self, y: int) -> Seq<int> {
        stops(self.term.grid.shown(y).cells, 0)
    }

    /// Does a plan say what row `y` shows?
    pub open spec fn shows(self, y: int, plan: RowPlan) -> bool {
        &&& plan.runs@ == runs_from(self.backgrounds(y), 0)
        &&& plan.cursor == self.cursor_in(y)
        &&& plan.glyphs@ == self.glyphs_along(y, self.stops_of(y))
        &&& plan.decorations@ == self.lines_along(y, self.stops_of(y))
    }
}

/// Is a character among some?
fn holds(chars: &[char], c: char) -> (r: bool)
    ensures
        r == chars@.contains(c),
{
    let mut i: usize = 0;
    while i < chars.len()
        invariant
            i <= chars@.len(),
            forall|j: int| 0 <= j < i ==> chars@[j] != c,
        decreases chars@.len() - i,
    {
        if chars[i] == c {
            assert(chars@[i as int] == c);
            return true;
        }
        i += 1;
    }
    false
}

/// Every line of the ring is as long as the screen is wide.
proof fn lemma_row_length(term: TermView, y: int)
    requires
        term.wf(),
    ensures
        term.grid.shown(y).cells.len() == term.cols(),
{
    lemma_wrap_is_mod(y - term.grid.display_offset, term.grid.cap());
}

impl<'a> Painter<'a> {
    /// Is a cell selected?
    fn is_selected(&self, input: &FrameInput, y: usize, x: usize) -> (r: bool)
        requires
            input.term.wf(),
            y < input.term@.rows(),
        ensures
            r == scene(*self, *input).selected(y as int, x as int),
    {
        let grid = input.term.grid();
        let first: usize = grid.history_len() - grid.display_offset();
        match &input.selection {
            Some(s) => s.contains(first + y, x),
            None => false,
        }
    }

    /// The colours of a cell.
    fn colors(&self, input: &FrameInput, y: usize, x: usize, cell: &Cell) -> (c: ([u8; 3], [u8; 3]))
        requires
            input.term.wf(),
            y < input.term@.rows(),
            *cell == scene(*self, *input).cell(y as int, x as int),
        ensures
            c == scene(*self, *input).colors(y as int, x as int),
    {
        let reverse_video = input.term.modes().contains(TermMode::REVERSE_VIDEO);
        let selected = self.is_selected(input, y, x);
        resolve_colors(cell, self.theme, self.palette, reverse_video, selected)
    }

    /// The backgrounds of a row, as stretches.
    fn runs(&self, input: &FrameInput, y: usize, cells: &[Cell]) -> (runs: Vec<Run>)
        requires
            input.term.wf(),
            y < input.term@.rows(),
            cells@ == input.term@.grid.shown(y as int).cells,
            cells@.len() == input.term@.cols(),
        ensures
            runs@ == runs_from(scene(*self, *input).backgrounds(y as int), 0),
    {
        let ghost s = scene(*self, *input);
        let mut backgrounds: Vec<Option<[u8; 3]>> = Vec::new();
        let mut x: usize = 0;
        while x < cells.len()
            invariant
                input.term.wf(),
                s == scene(*self, *input),
                y < input.term@.rows(),
                cells@ == input.term@.grid.shown(y as int).cells,
                cells@.len() == input.term@.cols(),
                x <= cells@.len(),
                backgrounds@.len() == x,
                forall|j: int| 0 <= j < x ==> #[trigger] backgrounds@[j] == s.background(y as int, j),
            decreases cells@.len() - x,
        {
            let (_, bg) = self.colors(input, y, x, &cells[x]);
            if same_color(bg, self.theme.background) {
                backgrounds.push(None);
            } else {
                backgrounds.push(Some(bg));
            }
            x += 1;
        }
        assert(backgrounds@ =~= s.backgrounds(y as int));
        background_runs(&backgrounds)
    }

    /// Is the cursor drawn?
    fn cursor_shown(&self, input: &FrameInput) -> (r: bool)
        requires
            input.term.wf(),
        ensures
            r == scene(*self, *input).cursor_shown(),
    {
        let cursor = input.term.cursor_state();
        cursor.visible && (!cursor.blinking || input.cursor_blink_on || !input.focused)
    }

    /// The cursor, if it is in row `y`.
    fn cursor_box(&self, input: &FrameInput, y: usize) -> (c: Option<CursorBox>)
        requires
            input.term.wf(),
        ensures
            c == scene(*self, *input).cursor_in(y as int),
    {
        let cursor = input.term.cursor_state();
        if self.cursor_shown(input) && cursor.y == y {
            Some(CursorBox { x: cursor.x, shape: cursor.shape, hollow: !input.focused })
        } else {
            None
        }
    }

    /// The colour of what is drawn in a cell.
    fn ink(&self, input: &FrameInput, y: usize, x: usize, cell: &Cell) -> (c: [u8; 3])
        requires
            input.term.wf(),
            y < input.term@.rows(),
            *cell == scene(*self, *input).cell(y as int, x as int),
        ensures
            c == scene(*self, *input).ink(y as int, x as int),
    {
        let cursor = input.term.cursor_state();
        if self.cursor_shown(input) && input.focused && cursor.y == y && cursor.x == x
            && cursor.shape == CursorShape::Block {
            self.theme.cursor_text
        } else {
            let (fg, _) = self.colors(input, y, x, cell);
            fg
        }
    }

    /// The scalars that a cell shows, or nothing where it shows none.
    fn scalars(&self, term: &Term, cell: &Cell) -> (r: Option<Chars>)
        requires
            cell.ch != 0,
        ensures
            match r {
                Some(c) => c.wf() && c@ == stacked(term@.characters(*cell)),
                None => forall|like: GlyphRequest|
                    #[trigger] inked(stacked(term@.characters(*cell)), like).len() == 0,
            },
    {
        proof {
            lemma_tag_is_top_bit(cell.ch);
            let blank = seq![' '];
            assert forall|like: GlyphRequest| #[trigger] inked(blank, like).len() == 0 by {
                assert(blank.drop_last() =~= Seq::<char>::empty());
                assert(inked(blank.drop_last(), like).len() == 0);
                assert(blank.last() == ' ');
            }
        }
        if cell.ch & CLUSTER_TAG != 0 {
            match term.cluster(cell.ch) {
                Some(c) => Some(Chars::from_slice(c)),
                None => None,
            }
        } else {
            match char_from_u32(cell.ch) {
                Some(c) => Some(Chars::one(c)),
                None => None,
            }
        }
    }

    /// Append the characters drawn in a cell.
    fn push_glyphs(
        &self,
        input: &FrameInput,
        y: usize,
        x: usize,
        cell: &Cell,
        fg: [u8; 3],
        out: &mut Vec<GlyphRequest>,
    )
        requires
            *cell == scene(*self, *input).cell(y as int, x as int),
            fg == scene(*self, *input).ink(y as int, x as int),
        ensures
            final(out)@ == old(out)@ + scene(*self, *input).glyphs_at(y as int, x as int),
    {
        let ghost s = scene(*self, *input);
        let ghost before = out@;
        if cell.is_empty() || cell.flags.contains(CellFlags::HIDDEN) {
            assert(out@ =~= before + s.glyphs_at(y as int, x as int));
            return ;
        }
        let stack = match self.scalars(input.term, cell) {
            Some(stack) => stack,
            None => {
                assert(out@ =~= before + s.glyphs_at(y as int, x as int));
                return ;
            },
        };
        let chars = stack.as_slice();
        let like = GlyphRequest {
            x,
            ch: ' ',
            bold: cell.flags.contains(CellFlags::BOLD) && self.use_bold_font,
            italic: cell.flags.contains(CellFlags::ITALIC) && self.use_italic_font,
            prefer_color: holds(chars, COLOR_SELECTOR) && !holds(chars, TEXT_SELECTOR),
            color: fg,
        };
        let mut i: usize = 0;
        assert(chars@.take(0) =~= Seq::<char>::empty());
        assert(out@ =~= before + inked(chars@.take(0), like));
        while i < chars.len()
            invariant
                i <= chars@.len(),
                out@ == before + inked(chars@.take(i as int), like),
            decreases chars@.len() - i,
        {
            let ch: char = chars[i];
            proof {
                assert(chars@.take(i + 1).drop_last() =~= chars@.take(i as int));
                assert(chars@.take(i + 1).last() == ch);
            }
            if ch != ' ' && !is_invisible_format(ch) {
                let ghost so_far = inked(chars@.take(i as int), like);
                let mut one = like;
                one.ch = ch;
                out.push(one);
                assert(out@ =~= before + so_far.push(one));
            }
            i += 1;
        }
        assert(chars@.take(i as int) =~= chars@);
    }

    /// Append the lines drawn with a cell.
    fn push_lines(
        &self,
        input: &FrameInput,
        y: usize,
        x: usize,
        cell: &Cell,
        fg: [u8; 3],
        out: &mut Vec<Decoration>,
    )
        requires
            *cell == scene(*self, *input).cell(y as int, x as int),
            fg == scene(*self, *input).ink(y as int, x as int),
        ensures
            final(out)@ == old(out)@ + scene(*self, *input).lines_at(y as int, x as int),
    {
        let ghost s = scene(*self, *input);
        let ghost before = out@;
        let width: usize = if cell.flags.contains(CellFlags::WIDE) {
            2
        } else {
            1
        };
        if cell.flags.intersects(CellFlags::ANY_UNDERLINE) {
            let color: [u8; 3] = match input.term.underline_color(cell.underline) {
                Some(c) => c.resolve(self.palette, fg),
                None => fg,
            };
            let style: LineStyle = if cell.flags.contains(CellFlags::DOUBLE_UNDERLINE) {
                LineStyle::DoubleUnderline
            } else if cell.flags.contains(CellFlags::DOTTED_UNDERLINE) {
                LineStyle::DottedUnderline
            } else if cell.flags.contains(CellFlags::DASHED_UNDERLINE) {
                LineStyle::DashedUnderline
            } else if cell.flags.contains(CellFlags::CURLY_UNDERLINE) {
                LineStyle::CurlyUnderline
            } else {
                LineStyle::Underline
            };
            out.push(Decoration { x, width, style, color });
        }
        if cell.flags.contains(CellFlags::STRIKEOUT) {
            out.push(Decoration { x, width, style: LineStyle::Strikeout, color: fg });
        }
        if cell.flags.contains(CellFlags::OVERLINE) {
            out.push(Decoration { x, width, style: LineStyle::Overline, color: fg });
        }
        assert(out@ =~= before + s.lines_at(y as int, x as int));
    }

    /// What row `y` shows.
    pub fn row_plan(&self, input: &FrameInput, y: usize) -> (plan: RowPlan)
        requires
            input.term.wf(),
            y < input.term@.rows(),
        ensures
            scene(*self, *input).shows(y as int, plan),
    {
        proof {
            lemma_row_length(input.term@, y as int);
        }
        let ghost s = scene(*self, *input);
        let cells = input.term.grid().row(y).cells();
        let runs = self.runs(input, y, cells);
        let cursor = self.cursor_box(input, y);
        let mut glyphs: Vec<GlyphRequest> = Vec::new();
        let mut decorations: Vec<Decoration> = Vec::new();
        let ghost mut xs: Seq<int> = Seq::empty();
        let mut x: usize = 0;
        assert(xs + stops(cells@, 0) =~= stops(cells@, 0));
        while x < cells.len()
            invariant
                input.term.wf(),
                s == scene(*self, *input),
                y < input.term@.rows(),
                cells@ == input.term@.grid.shown(y as int).cells,
                cells@.len() == input.term@.cols(),
                cells@.len() < usize::MAX,
                0 <= x <= cells@.len() + 1,
                xs + stops(cells@, x as int) == stops(cells@, 0),
                glyphs@ == s.glyphs_along(y as int, xs),
                decorations@ == s.lines_along(y as int, xs),
            decreases cells@.len() + 1 - x,
        {
            let cell: Cell = cells[x];
            if cell.flags.contains(CellFlags::WIDE_SPACER) {
                x += 1;
                continue ;
            }
            let fg = self.ink(input, y, x, &cell);
            self.push_glyphs(input, y, x, &cell, fg, &mut glyphs);
            self.push_lines(input, y, x, &cell, fg, &mut decorations);
            let width: usize = if cell.flags.contains(CellFlags::WIDE) {
                2
            } else {
                1
            };
            proof {
                let before = xs;
                xs = before.push(x as int);
                assert(xs.drop_last() =~= before);
                assert(xs + stops(cells@, x + width) =~= before + (seq![x as int] + stops(
                    cells@,
                    x + width,
                )));
            }
            x += width;
        }
        assert(xs =~= stops(cells@, 0));
        RowPlan { runs, cursor, glyphs, decorations }
    }

    /// What a frame shows, row by row from the top.
    pub fn frame_plan(&self, input: &FrameInput) -> (plan: Vec<RowPlan>)
        requires
            input.term.wf(),
        ensures
            plan@.len() == input.term@.rows(),
            forall|y: int|
                0 <= y < plan@.len() ==> scene(*self, *input).shows(y, #[trigger] plan@[y]),
    {
        let rows: usize = input.term.rows();
        let mut plan: Vec<RowPlan> = Vec::new();
        let mut y: usize = 0;
        while y < rows
            invariant
                input.term.wf(),
                rows == input.term@.rows(),
                y <= rows,
                plan@.len() == y,
                forall|i: int|
                    0 <= i < y ==> scene(*self, *input).shows(i, #[trigger] plan@[i]),
            decreases rows - y,
        {
            plan.push(self.row_plan(input, y));
            y += 1;
        }
        plan
    }
}

/// Blank cells cost nothing: columns without ink ask for no glyph.
pub proof fn blank_cells_ask_for_no_glyphs(s: Scene, y: int, xs: Seq<int>)
    requires
        forall|i: int| 0 <= i < xs.len() ==> s.cell(y, #[trigger] xs[i]).is_empty(),
    ensures
        s.glyphs_along(y, xs) == Seq::<GlyphRequest>::empty(),
    decreases xs.len(),
{
    if xs.len() > 0 {
        assert forall|i: int| 0 <= i < xs.drop_last().len() implies s.cell(
            y,
            #[trigger] xs.drop_last()[i],
        ).is_empty() by {
            assert(xs.drop_last()[i] == xs[i]);
        }
        blank_cells_ask_for_no_glyphs(s, y, xs.drop_last());
        assert(s.cell(y, xs[xs.len() - 1]).is_empty());
        assert(s.glyphs_along(y, xs) =~= Seq::<GlyphRequest>::empty());
    }
}

proof fn lemma_inked(chars: Seq<char>, like: GlyphRequest, i: int)
    requires
        0 <= i < inked(chars, like).len(),
    ensures
        inked(chars, like)[i].ch != ' ',
        !invisible(inked(chars, like)[i].ch),
    decreases chars.len(),
{
    if chars.len() > 0 {
        let before = inked(chars.drop_last(), like);
        if chars.last() == ' ' || invisible(chars.last()) {
            assert(inked(chars, like) == before);
            lemma_inked(chars.drop_last(), like, i);
        } else {
            assert(inked(chars, like) == before.push(like.with_char(chars.last())));
            if i < before.len() {
                lemma_inked(chars.drop_last(), like, i);
            }
        }
    }
}

/// Every glyph that is asked for has ink: it is neither a space nor a character that only controls
/// presentation.
pub proof fn glyphs_have_ink(s: Scene, y: int, xs: Seq<int>, i: int)
    requires
        0 <= i < s.glyphs_along(y, xs).len(),
    ensures
        s.glyphs_along(y, xs)[i].ch != ' ',
        !invisible(s.glyphs_along(y, xs)[i].ch),
    decreases xs.len(),
{
    let before = s.glyphs_along(y, xs.drop_last());
    let here = s.glyphs_at(y, xs.last());
    if i < before.len() {
        glyphs_have_ink(s, y, xs.drop_last(), i);
    } else {
        let cell = s.cell(y, xs.last());
        let chars = stacked(s.term.characters(cell));
        let like = GlyphRequest {
            x: xs.last() as usize,
            ch: ' ',
            bold: cell.flags.contains(CellFlags::BOLD) && s.bold_font,
            italic: cell.flags.contains(CellFlags::ITALIC) && s.italic_font,
            prefer_color: chars.contains(COLOR_SELECTOR) && !chars.contains(TEXT_SELECTOR),
            color: s.ink(y, xs.last()),
        };
        lemma_inked(chars, like, i - before.len());
    }
}

/// A row is drawn from left to right, each column at most once, and never at a filler.
pub proof fn columns_are_drawn_once(cells: Seq<Cell>, from: int)
    requires
        0 <= from,
    ensures
        forall|i: int|
            0 <= i < stops(cells, from).len() ==> from <= #[trigger] stops(cells, from)[i]
                < cells.len() && !cells[stops(cells, from)[i]].flags.contains(
                CellFlags::WIDE_SPACER,
            ),
        forall|i: int, j: int|
            0 <= i < j < stops(cells, from).len() ==> #[trigger] stops(cells, from)[i]
                < #[trigger] stops(cells, from)[j],
    decreases cells.len() + 1 - from,
{
    if from < cells.len() {
        if cells[from].flags.contains(CellFlags::WIDE_SPACER) {
            columns_are_drawn_once(cells, from + 1);
            assert(stops(cells, from) == stops(cells, from + 1));
        } else {
            let next = from + columns(cells[from]);
            columns_are_drawn_once(cells, next);
            let rest = stops(cells, next);
            let all = stops(cells, from);
            assert(all == seq![from] + rest);
            assert(all[0] == from);
            assert forall|i: int| 1 <= i < all.len() implies #[trigger] all[i] == rest[i - 1] by {}
        }
    }
}

} // verus!
