//! The grid: scrolling, history, resizing and reflow.

use tachyon::term::{Cell, CellFlags, Grid, Pen};

fn put(g: &mut Grid, y: usize, s: &str) {
    for (x, ch) in s.chars().enumerate() {
        let mut c = Cell::empty();
        c.ch = ch as u32;
        g.set_cell(x, y, c);
    }
}

fn line_text(g: &Grid, absolute: usize) -> String {
    g.line(absolute)
        .cells()
        .iter()
        .map(|c| c.scalar().unwrap_or(' '))
        .collect::<String>()
        .trim_end()
        .to_string()
}

#[test]
fn ring_scroll_pushes_into_history() {
    let pen = Pen::default();
    let mut g = Grid::new(8, 3, 10);
    put(&mut g, 0, "aaa");
    put(&mut g, 1, "bbb");
    put(&mut g, 2, "ccc");

    g.scroll_up(0, 2, 1, &pen);
    assert_eq!(g.history_len(), 1);
    // Viewport shifted up by one; the old top line is now history line 0.
    assert_eq!(line_text(&g, 0), "aaa");
    assert_eq!(line_text(&g, 1), "bbb");
    assert_eq!(line_text(&g, 2), "ccc");
    assert_eq!(line_text(&g, 3), "");
}

#[test]
fn history_saturates_at_limit() {
    let pen = Pen::default();
    let mut g = Grid::new(4, 2, 3);
    for i in 0..20 {
        put(&mut g, 1, &format!("{i}"));
        g.scroll_up(0, 1, 1, &pen);
    }
    assert_eq!(g.history_len(), 3);
    assert_eq!(g.total_lines(), 5);
    // The most recent lines survived.
    assert_eq!(line_text(&g, 3), "19");
}

#[test]
fn region_scroll_leaves_history_alone() {
    let pen = Pen::default();
    let mut g = Grid::new(8, 4, 10);
    put(&mut g, 0, "keep");
    put(&mut g, 1, "one");
    put(&mut g, 2, "two");
    put(&mut g, 3, "three");

    g.scroll_up(1, 3, 1, &pen);
    assert_eq!(g.history_len(), 0);
    assert_eq!(line_text(&g, 0), "keep");
    assert_eq!(line_text(&g, 1), "two");
    assert_eq!(line_text(&g, 2), "three");
    assert_eq!(line_text(&g, 3), "");
}

#[test]
fn scroll_down_fills_from_top() {
    let pen = Pen::default();
    let mut g = Grid::new(8, 3, 4);
    put(&mut g, 0, "one");
    put(&mut g, 1, "two");
    put(&mut g, 2, "three");

    g.scroll_down(0, 2, 1, &pen);
    assert_eq!(line_text(&g, 0), "");
    assert_eq!(line_text(&g, 1), "one");
    assert_eq!(line_text(&g, 2), "two");
}

#[test]
fn display_offset_walks_history() {
    let pen = Pen::default();
    let mut g = Grid::new(8, 2, 5);
    for i in 0..5 {
        put(&mut g, 1, &format!("L{i}"));
        g.scroll_up(0, 1, 1, &pen);
    }
    assert_eq!(g.history_len(), 5);
    assert!(g.scroll_display(2));
    assert_eq!(g.display_offset(), 2);
    // Clamps at the top of history.
    g.scroll_display(100);
    assert_eq!(g.display_offset(), 5);
    assert!(g.scroll_to_bottom());
    assert_eq!(g.display_offset(), 0);
}

#[test]
fn resize_preserves_recent_content() {
    let pen = Pen::default();
    let mut g = Grid::new(8, 3, 5);
    put(&mut g, 0, "alpha");
    put(&mut g, 1, "beta");
    put(&mut g, 2, "gamma");

    g.resize(12, 3, &pen);
    assert_eq!(g.cols(), 12);
    assert_eq!(line_text(&g, 0), "alpha");
    assert_eq!(line_text(&g, 2), "gamma");
}

#[test]
fn writes_target_live_screen_while_scrolled_back() {
    let pen = Pen::default();
    let mut g = Grid::new(8, 2, 5);
    put(&mut g, 0, "old");
    g.scroll_up(0, 1, 1, &pen);
    g.scroll_display(1);
    assert_eq!(g.display_offset(), 1);

    // This must land on the live bottom row, not on what is displayed.
    put(&mut g, 1, "new");
    g.scroll_to_bottom();
    assert_eq!(line_text(&g, g.total_lines() - 1), "new");
}

/// A wrapped line joined and re-split when the window gets wider.
#[test]
fn widening_rejoins_wrapped_lines() {
    let pen = Pen::default();
    let mut g = Grid::new(10, 4, 20);
    put(&mut g, 0, "abcdefghij");
    g.row_mut(0).wrapped = true;
    put(&mut g, 1, "klmnop");

    g.reflow(20, 4, &pen, (6, 1));

    assert_eq!(line_text(&g, 0), "abcdefghijklmnop");
    assert!(!g.line(0).wrapped);
}

/// ...and split again when it gets narrower.
#[test]
fn narrowing_splits_long_lines() {
    let pen = Pen::default();
    let mut g = Grid::new(20, 4, 20);
    put(&mut g, 0, "abcdefghijklmnop");

    g.reflow(10, 4, &pen, (0, 1));

    assert_eq!(line_text(&g, 0), "abcdefghij");
    assert_eq!(line_text(&g, 1), "klmnop");
    assert!(g.line(0).wrapped, "the first half must be marked wrapped");
    assert!(!g.line(1).wrapped);
}

/// Reflow is lossless: narrow then widen gives the text back.
#[test]
fn reflow_round_trips() {
    let pen = Pen::default();
    let mut g = Grid::new(40, 6, 50);
    put(&mut g, 0, "the quick brown fox jumps over it");
    put(&mut g, 1, "second line");

    g.reflow(13, 6, &pen, (0, 2));
    g.reflow(40, 6, &pen, (0, 2));

    assert_eq!(line_text(&g, 0), "the quick brown fox jumps over it");
    assert_eq!(line_text(&g, 1), "second line");
}

/// Blank lines between content are structure, not padding, and must survive.
#[test]
fn blank_lines_are_preserved() {
    let pen = Pen::default();
    let mut g = Grid::new(20, 6, 20);
    put(&mut g, 0, "first");
    put(&mut g, 2, "third");

    g.reflow(30, 6, &pen, (0, 3));

    assert_eq!(line_text(&g, 0), "first");
    assert_eq!(line_text(&g, 1), "");
    assert_eq!(line_text(&g, 2), "third");
}

/// The cursor has to follow the character it was sitting on.
#[test]
fn cursor_follows_its_position() {
    let pen = Pen::default();
    let mut g = Grid::new(10, 4, 20);
    put(&mut g, 0, "abcdefghij");
    g.row_mut(0).wrapped = true;
    put(&mut g, 1, "klmno");

    // Cursor just past the 'o' on the second physical row.
    let (cx, cy) = g.reflow(20, 4, &pen, (5, 1));
    // After joining, that is column 15 of the single row.
    assert_eq!((cx, cy), (15, 0));
}

/// A double-width character must never be split across the margin.
#[test]
fn wide_characters_are_not_split() {
    let pen = Pen::default();
    let mut g = Grid::new(20, 4, 20);
    // Nine columns of 'a', then a wide pair straddling column 9-10.
    for x in 0..9 {
        let mut c = Cell::empty();
        c.ch = 'a' as u32;
        g.set_cell(x, 0, c);
    }
    let mut wide = Cell::empty();
    wide.ch = '\u{4f60}' as u32;
    wide.flags = CellFlags(CellFlags::WIDE);
    g.set_cell(9, 0, wide);
    let mut spacer = Cell::empty();
    spacer.flags = CellFlags(CellFlags::WIDE_SPACER);
    g.set_cell(10, 0, spacer);

    g.reflow(10, 4, &pen, (0, 1));

    // Row 0 holds the nine 'a's; the wide char moves down rather than being
    // cut in half.
    assert_eq!(line_text(&g, 0), "aaaaaaaaa");
    assert!(g.line(1).cells()[0].flags.contains(CellFlags::WIDE));
}

/// Nine letters, and a double-width character that straddles the margin of ten columns.
fn straddling(g: &mut Grid) {
    put(g, 0, "abcdefghi");
    let wide = Cell {
        ch: '\u{4f60}' as u32,
        flags: CellFlags(CellFlags::WIDE),
        ..Cell::empty()
    };
    g.set_cell(9, 0, wide);
    let spacer = Cell {
        flags: CellFlags(CellFlags::WIDE_SPACER),
        ..Cell::empty()
    };
    g.set_cell(10, 0, spacer);
    g.set_cell(11, 0, Cell { ch: 'z' as u32, ..Cell::empty() });
}

#[test]
fn gaps_at_the_margin_are_no_text() {
    let pen = Pen::default();
    let mut g = Grid::new(20, 4, 20);
    straddling(&mut g);
    let before: Vec<Cell> = g.line(0).cells().to_vec();
    for cols in [10, 2, 3, 5, 1, 12] {
        g.reflow(cols, 4, &pen, (0, 0));
        g.reflow(20, 4, &pen, (0, 0));
        assert_eq!(g.line(0).cells(), &before[..], "{cols} columns");
        assert!(!g.line(0).wrapped, "{cols} columns");
    }
}

#[test]
fn a_gap_that_is_written_is_text() {
    let pen = Pen::default();
    let mut g = Grid::new(20, 1, 20);
    straddling(&mut g);
    g.reflow(10, 2, &pen, (0, 0));
    assert_eq!(line_text(&g, 0), "abcdefghi");
    g.set_cell(9, 0, Cell { ch: 'x' as u32, ..Cell::empty() });
    g.reflow(20, 2, &pen, (0, 0));
    assert_eq!(g.line(0).cells()[9].scalar(), Some('x'));
    assert_eq!(g.line(0).cells()[10].scalar(), Some('\u{4f60}'));
}

#[test]
fn moved_lines_are_drawn_again_once() {
    let pen = Pen::default();
    let mut g = Grid::new(8, 3, 5);
    let steps: [fn(&mut Grid, &Pen); 9] = [
        |g, pen| g.scroll_up(0, 2, 1, pen),
        |g, pen| g.scroll_up(1, 2, 1, pen),
        |g, pen| g.scroll_down(0, 1, 1, pen),
        |g, _| assert!(g.scroll_display(1)),
        |g, pen| g.clear_all(pen),
        |g, _| g.clear_history(),
        |g, _| g.damage_all(),
        |g, pen| g.resize(9, 3, pen),
        |g, pen| {
            g.reflow(8, 3, pen, (0, 0));
        },
    ];
    assert!(g.take_full_damage());
    for (i, step) in steps.iter().enumerate() {
        step(&mut g, &pen);
        let held = (g.history_len(), g.display_offset());
        assert!(g.take_full_damage(), "step {i}");
        assert!(!g.take_full_damage(), "step {i}");
        assert_eq!((g.history_len(), g.display_offset()), held);
    }
    g.set_cell(0, 0, Cell { ch: 'x' as u32, ..Cell::empty() });
    assert!(!g.take_full_damage());
}

#[test]
fn both_halves_stay_together_at_every_width() {
    let pen = Pen::default();
    for cols in 2..24 {
        let mut g = Grid::new(24, 4, 40);
        straddling(&mut g);
        let row: Vec<Cell> = g.line(0).cells()[..12].to_vec();
        for (x, c) in row.iter().enumerate() {
            g.set_cell(12 + x, 0, *c);
        }
        g.reflow(cols, 4, &pen, (0, 0));
        let mut wide = 0;
        for i in 0..g.total_lines() {
            let cells = g.line(i).cells();
            for x in 0..cols {
                if cells[x].flags.contains(CellFlags::WIDE) {
                    wide += 1;
                    assert!(x + 1 < cols, "{cols} columns");
                    assert!(cells[x + 1].flags.contains(CellFlags::WIDE_SPACER), "{cols} columns");
                }
            }
        }
        assert_eq!(wide, 2, "{cols} columns");
    }
}

#[test]
fn rows_tell_what_they_are() {
    let mut g = Grid::new(4, 2, 0);
    let r = g.row_mut(0);
    r.set_wrapped(true);
    r.set_dirty(false);
    assert!(g.line(0).is_wrapped() && g.line(0).wrapped);
    assert!(!g.line(0).is_dirty() && !g.line(0).dirty);
    g.touch(0);
    assert!(g.line(0).is_dirty());
    assert!(g.line(0).is_wrapped());
}
