//! The colours that a cell is drawn in.

use vstd::prelude::*;

use crate::config::ThemeConfig;
use crate::term::{Cell, CellFlags, Palette};

verus! {

/// Halfway between two colours, component by component, rounded down.
pub open spec fn halfway(a: [u8; 3], b: [u8; 3]) -> [u8; 3] {
    [
        ((a@[0] + b@[0]) / 2) as u8,
        ((a@[1] + b@[1]) / 2) as u8,
        ((a@[2] + b@[2]) / 2) as u8,
    ]
}

/// Foreground and background before any attribute but bold is taken into account.
pub open spec fn plain_colors(cell: Cell, theme: ThemeConfig, palette: Palette) -> (
    [u8; 3],
    [u8; 3],
) {
    let fg = if cell.flags.contains(CellFlags::BOLD) && theme.bold_is_bright {
        cell.fg.brightened()
    } else {
        cell.fg
    };
    (fg.resolved(palette, theme.foreground), cell.bg.resolved(palette, theme.background))
}

/// Foreground and background of a cell.
///
/// The cell's own reverse attribute and the screen-wide one compose, so two reversals cancel. Dim
/// text is blended halfway to what is behind it rather than scaled towards black, so that it stays
/// legible on a light theme. Hidden text takes the colour of what is behind it. A selection comes
/// last.
pub open spec fn shown_colors(
    cell: Cell,
    theme: ThemeConfig,
    palette: Palette,
    reverse_video: bool,
    selected: bool,
) -> ([u8; 3], [u8; 3]) {
    let (fg, bg) = plain_colors(cell, theme, palette);
    let (fg, bg) = if cell.flags.contains(CellFlags::REVERSE) != reverse_video {
        (bg, fg)
    } else {
        (fg, bg)
    };
    let fg = if cell.flags.contains(CellFlags::DIM) {
        halfway(fg, bg)
    } else {
        fg
    };
    let fg = if cell.flags.contains(CellFlags::HIDDEN) {
        bg
    } else {
        fg
    };
    if selected {
        (
            match theme.selection_fg {
                Some(c) => c,
                None => fg,
            },
            theme.selection_bg,
        )
    } else {
        (fg, bg)
    }
}

fn midpoint(a: u8, b: u8) -> (m: u8)
    ensures
        m == ((a + b) / 2) as u8,
{
    ((a as u16 + b as u16) / 2) as u8
}

/// Resolve a cell's colours: foreground, then background.
pub fn resolve_colors(
    cell: &Cell,
    theme: &ThemeConfig,
    palette: &Palette,
    reverse_video: bool,
    selected: bool,
) -> (c: ([u8; 3], [u8; 3]))
    ensures
        c == shown_colors(*cell, *theme, *palette, reverse_video, selected),
{
    let mut fg_color = cell.fg;
    if cell.flags.contains(CellFlags::BOLD) && theme.bold_is_bright {
        fg_color = fg_color.brighten();
    }
    let mut fg: [u8; 3] = fg_color.resolve(palette, theme.foreground);
    let mut bg: [u8; 3] = cell.bg.resolve(palette, theme.background);
    if cell.flags.contains(CellFlags::REVERSE) != reverse_video {
        let behind = fg;
        fg = bg;
        bg = behind;
    }
    if cell.flags.contains(CellFlags::DIM) {
        fg = [midpoint(fg[0], bg[0]), midpoint(fg[1], bg[1]), midpoint(fg[2], bg[2])];
    }
    if cell.flags.contains(CellFlags::HIDDEN) {
        fg = bg;
    }
    if selected {
        bg = theme.selection_bg;
        if let Some(c) = theme.selection_fg {
            fg = c;
        }
    }
    (fg, bg)
}

/// Are two colours the same?
pub fn same_color(a: [u8; 3], b: [u8; 3]) -> (r: bool)
    ensures
        r == (a == b),
{
    let r = a[0] == b[0] && a[1] == b[1] && a[2] == b[2];
    proof {
        if r {
            assert(a =~= b);
        }
    }
    r
}

/// Reversing the whole screen and a cell alike leaves the cell as it was.
pub proof fn two_reversals_cancel(
    cell: Cell,
    theme: ThemeConfig,
    palette: Palette,
    reverse_video: bool,
    selected: bool,
)
    ensures
        shown_colors(cell, theme, palette, reverse_video, selected) == shown_colors(
            (Cell { flags: CellFlags(cell.flags.0 ^ CellFlags::REVERSE), ..cell }),
            theme,
            palette,
            !reverse_video,
            selected,
        ),
{
    let f = cell.flags.0;
    assert((f ^ 0x0200u16) & 0x0001 == f & 0x0001 && (f ^ 0x0200u16) & 0x0002 == f & 0x0002 && (f
        ^ 0x0200u16) & 0x0400 == f & 0x0400 && ((f ^ 0x0200u16) & 0x0200 == 0x0200) != (f & 0x0200
        == 0x0200)) by (bit_vector);
}

/// Hidden text cannot be told from what is behind it, whatever its other attributes, unless a
/// selection colours it.
pub proof fn hidden_text_is_not_seen(
    cell: Cell,
    theme: ThemeConfig,
    palette: Palette,
    reverse_video: bool,
)
    requires
        cell.flags.contains(CellFlags::HIDDEN),
    ensures
        ({
            let (fg, bg) = shown_colors(cell, theme, palette, reverse_video, false);
            fg == bg
        }),
{
}

/// A selection is seen wherever it is: its background does not depend on the cell.
pub proof fn selections_hide_the_background(
    cell: Cell,
    theme: ThemeConfig,
    palette: Palette,
    reverse_video: bool,
)
    ensures
        shown_colors(cell, theme, palette, reverse_video, true).1 == theme.selection_bg,
{
}

} // verus!
