//! Control sequences, one at a time, and what holds over several of them.

use tachyon::term::vt::VtAction;
use tachyon::term::{Cell, CellFlags, Color, CursorShape, Pen, Processor, Term, TermMode};
use tachyon::text::is_white;

fn run(cols: usize, rows: usize, s: &str) -> Term {
    let mut t = Term::new(cols, rows, 50);
    Processor::new().advance(&mut t, s.as_bytes());
    t
}

fn more(t: &mut Term, s: &str) {
    Processor::new().advance(t, s.as_bytes());
}

fn lines(t: &Term) -> Vec<String> {
    (0..t.rows())
        .map(|y| {
            let cells = t.grid().row(y).cells().iter();
            let text: String = cells.map(|c| c.scalar().unwrap_or(' ')).collect();
            text.trim_end().to_string()
        })
        .collect()
}

fn at(t: &Term) -> (usize, usize) {
    (t.cursor_state().x, t.cursor_state().y)
}

#[test]
fn cursor_moves_are_counted_from_one() {
    assert_eq!(at(&run(10, 5, "\x1b[3;4H")), (3, 2));
    assert_eq!(at(&run(10, 5, "\x1b[3;4H\x1b[2A")), (3, 0));
    assert_eq!(at(&run(10, 5, "\x1b[3;4H\x1b[B\x1b[2C")), (5, 3));
    assert_eq!(at(&run(10, 5, "\x1b[3;4H\x1b[D")), (2, 2));
    assert_eq!(at(&run(10, 5, "\x1b[3;4H\x1b[E")), (0, 3));
    assert_eq!(at(&run(10, 5, "\x1b[3;4H\x1b[F")), (0, 1));
    assert_eq!(at(&run(10, 5, "\x1b[3;4H\x1b[7G")), (6, 2));
    assert_eq!(at(&run(10, 5, "\x1b[3;4H\x1b[5d")), (3, 4));
    assert_eq!(at(&run(10, 5, "\x1b[3;4H\x1b[H")), (0, 0));
}

#[test]
fn the_cursor_does_not_leave_the_screen() {
    assert_eq!(at(&run(10, 5, "\x1b[99;99H")), (9, 4));
    assert_eq!(at(&run(10, 5, "\x1b[99A\x1b[99D")), (0, 0));
    assert_eq!(at(&run(10, 5, "\x1b[99B\x1b[99C")), (9, 4));
    let mut t = run(10, 5, "\x1b[5;10H");
    t.resize(4, 2);
    let (x, y) = at(&t);
    assert!(x < 4 && y < 2);
}

#[test]
fn origin_mode_counts_from_the_region() {
    let mut t = run(10, 6, "\x1b[3;5r\x1b[?6h\x1b[1;1HX\x1b[99;1HY\x1b[6n");
    assert_eq!(lines(&t), vec!["", "", "X", "", "Y", ""]);
    assert_eq!(t.take_replies(), b"\x1b[3;2R".to_vec());
}

#[test]
fn tab_stops_are_set_and_cleared() {
    assert_eq!(at(&run(40, 2, "\t")).0, 8);
    assert_eq!(at(&run(40, 2, "abc\t\t")).0, 16);
    assert_eq!(at(&run(40, 2, "\x1b[20G\x1b[Z")).0, 16);
    assert_eq!(at(&run(40, 2, "\x1b[4G\x1bH\r\t")).0, 3);
    assert_eq!(at(&run(40, 2, "\x1b[9G\x1b[g\r\t")).0, 16);
    assert_eq!(at(&run(40, 2, "\x1b[3g\t")).0, 39);
    assert_eq!(at(&run(40, 2, "\x1b[2I")).0, 16);
}

#[test]
fn the_last_column_waits_before_it_wraps() {
    let mut t = run(5, 3, "abcde");
    assert_eq!(at(&t), (4, 0));
    more(&mut t, "\r!");
    assert_eq!(lines(&t), vec!["!bcde", "", ""]);
    let t = run(5, 3, "abcdef");
    assert_eq!(lines(&t), vec!["abcde", "f", ""]);
    assert_eq!(at(&t), (1, 1));
}

#[test]
fn without_wrapping_the_last_column_is_overwritten() {
    let t = run(5, 3, "\x1b[?7labcdefg");
    assert_eq!(lines(&t), vec!["abcdg", "", ""]);
}

#[test]
fn a_logical_line_is_copied_as_one() {
    let t = run(5, 4, "abcdefgh\r\nij");
    assert_eq!(t.text_range(0, 0, 2, 1), "abcdefgh\nij");
    // Blanks are padding, but not where the selection was made to end.
    assert_eq!(t.text_range(0, 0, 2, 4), "abcdefgh\nij   ");
    assert_eq!(t.text_range(0, 3, 1, 0), "def");
    assert_eq!(t.line_text(1), "fgh");
}

#[test]
fn lines_are_inserted_and_deleted_in_the_region() {
    let four = "1\r\n2\r\n3\r\n4";
    assert_eq!(lines(&run(5, 4, &format!("{four}\x1b[2H\x1b[L"))), vec!["1", "", "2", "3"]);
    assert_eq!(lines(&run(5, 4, &format!("{four}\x1b[2H\x1b[M"))), vec!["1", "3", "4", ""]);
    assert_eq!(
        lines(&run(5, 4, &format!("{four}\x1b[1;3r\x1b[2H\x1b[L"))),
        vec!["1", "", "2", "4"]
    );
    // Outside the region nothing happens.
    assert_eq!(
        lines(&run(5, 4, &format!("{four}\x1b[1;3r\x1b[4H\x1b[M"))),
        vec!["1", "2", "3", "4"]
    );
}

#[test]
fn scrolling_down_undoes_scrolling_up_inside_a_region() {
    let four = "1\r\n2\r\n3\r\n4";
    assert_eq!(
        lines(&run(5, 4, &format!("{four}\x1b[2;4r\x1b[S"))),
        vec!["1", "3", "4", ""]
    );
    assert_eq!(
        lines(&run(5, 4, &format!("{four}\x1b[2;4r\x1b[S\x1b[T"))),
        vec!["1", "", "3", "4"]
    );
}

#[test]
fn deleting_characters_undoes_inserting_them() {
    let t = run(8, 1, "abcdef\x1b[3G\x1b[2@");
    assert_eq!(lines(&t), vec!["ab  cdef"]);
    let t = run(8, 1, "abcdef\x1b[3G\x1b[2@\x1b[2P");
    assert_eq!(lines(&t), vec!["abcdef"]);
    assert_eq!(lines(&run(8, 1, "abcdef\x1b[2G\x1b[3X")), vec!["a   ef"]);
}

#[test]
fn insert_mode_pushes_the_line() {
    assert_eq!(lines(&run(6, 1, "abcdef\x1b[2G\x1b[4hXY")), vec!["aXYbcd"]);
    assert_eq!(lines(&run(6, 1, "abcdef\x1b[2G\x1b[4h\x1b[4lXY")), vec!["aXYdef"]);
}

#[test]
fn erasing_takes_what_was_asked_for() {
    let three = "abc\r\ndef\r\nghi\x1b[2;2H";
    assert_eq!(lines(&run(3, 3, &format!("{three}\x1b[J"))), vec!["abc", "d", ""]);
    assert_eq!(lines(&run(3, 3, &format!("{three}\x1b[1J"))), vec!["", "  f", "ghi"]);
    assert_eq!(lines(&run(3, 3, &format!("{three}\x1b[2J"))), vec!["", "", ""]);
    assert_eq!(lines(&run(3, 3, &format!("{three}\x1b[K"))), vec!["abc", "d", "ghi"]);
    assert_eq!(lines(&run(3, 3, &format!("{three}\x1b[1K"))), vec!["abc", "  f", "ghi"]);
    assert_eq!(lines(&run(3, 3, &format!("{three}\x1b[2K"))), vec!["abc", "", "ghi"]);
    let t = run(3, 2, "1\r\n2\r\n3\x1b[3J");
    assert_eq!(t.grid().history_len(), 0);
}

#[test]
fn erased_cells_keep_the_background_of_the_pen() {
    let t = run(4, 1, "abcd\x1b[44m\x1b[2G\x1b[2X");
    assert_eq!(t.grid().cell(0, 0).bg, Color::default());
    assert_eq!(t.grid().cell(1, 0).bg, Color::indexed(4));
    assert!(!t.grid().cell(1, 0).flags.intersects(CellFlags::ANY_UNDERLINE));
}

#[test]
fn attributes_are_switched_one_by_one() {
    let flags = |s: &str| run(4, 1, s).grid().cell(0, 0).flags;
    assert_eq!(flags("x").0, 0);
    assert_eq!(flags("\x1b[1;2;3mx").0, CellFlags::BOLD | CellFlags::DIM | CellFlags::ITALIC);
    assert_eq!(flags("\x1b[1;2;3;22mx").0, CellFlags::ITALIC);
    assert_eq!(flags("\x1b[4mx").0, CellFlags::UNDERLINE);
    assert_eq!(flags("\x1b[4:3mx").0, CellFlags::CURLY_UNDERLINE);
    assert_eq!(flags("\x1b[4:3m\x1b[21mx").0, CellFlags::DOUBLE_UNDERLINE);
    assert_eq!(flags("\x1b[4:3m\x1b[4:0mx").0, 0);
    assert_eq!(flags("\x1b[5;7;8;9;53mx").0, 0x1F00);
    assert_eq!(flags("\x1b[5;7;8;9;53m\x1b[25;27;28;29;55mx").0, 0);
    assert_eq!(flags("\x1b[1mx\x1b[m").0, CellFlags::BOLD);
    assert_eq!(flags("\x1b[1m\x1b[mx").0, 0);
}

#[test]
fn colours_come_in_three_forms() {
    let cell = |s: &str| run(4, 1, s).grid().cell(0, 0);
    assert_eq!(cell("\x1b[31;42mx").fg, Color::indexed(1));
    assert_eq!(cell("\x1b[31;42mx").bg, Color::indexed(2));
    assert_eq!(cell("\x1b[97;107mx").fg, Color::indexed(15));
    assert_eq!(cell("\x1b[97;107mx").bg, Color::indexed(15));
    assert_eq!(cell("\x1b[31;39mx").fg, Color::default());
    assert_eq!(cell("\x1b[48;5;200mx").bg, Color::indexed(200));
    // What follows a colour is still read.
    assert_eq!(cell("\x1b[38;2;1;2;3;1mx").fg, Color::rgb(1, 2, 3));
    assert_eq!(cell("\x1b[38;2;1;2;3;1mx").flags.0, CellFlags::BOLD);
    let t = run(4, 1, "\x1b[4;58;2;9;8;7mx");
    let c = t.grid().cell(0, 0);
    assert_eq!(t.underline_color(c.underline), Some(Color::rgb(9, 8, 7)));
    assert_eq!(t.underline_color(0), None);
}

#[test]
fn saving_and_restoring_brings_the_cursor_back() {
    let t = run(10, 4, "\x1b[2;3H\x1b[1m\x1b7\x1b[4;9H\x1b[m\x1b8x");
    assert_eq!(t.grid().cell(2, 1).scalar(), Some('x'));
    assert_eq!(t.grid().cell(2, 1).flags.0, CellFlags::BOLD);
    assert_eq!(at(&run(10, 4, "\x1b[2;3H\x1b[s\x1b[H\x1b[u")), (2, 1));
}

#[test]
fn the_other_screen_starts_blank_and_leaves_no_trace() {
    let mut t = run(6, 2, "main");
    more(&mut t, "\x1b[?1049h");
    assert_eq!(lines(&t), vec!["", ""]);
    more(&mut t, "\x1b[2;1Hother\x1b[?1049l");
    assert_eq!(lines(&t), vec!["main", ""]);
    assert_eq!(at(&t), (4, 0));
}

#[test]
fn a_reset_can_be_repeated() {
    let mut t = run(6, 2, "\x1b[1;31mabc\x1b[?25l\x1b[4h\x1b[1;1r\x1bc");
    let once = (lines(&t), at(&t), t.mode);
    more(&mut t, "\x1bc");
    assert_eq!((lines(&t), at(&t), t.mode), once);
    assert!(t.cursor_state().visible);
    assert_eq!(once.0, vec!["", ""]);
    more(&mut t, "x");
    assert_eq!(t.grid().cell(0, 0).fg, Color::default());
}

#[test]
fn questions_are_answered() {
    let reply = |s: &str| run(10, 4, s).take_replies();
    assert_eq!(reply("\x1b[5n"), b"\x1b[0n".to_vec());
    assert_eq!(reply("ab\x1b[6n"), b"\x1b[1;3R".to_vec());
    assert_eq!(reply("\x1b[c"), b"\x1b[?62;22c".to_vec());
    assert_eq!(reply("\x1b[18t"), b"\x1b[8;4;10t".to_vec());
    assert_eq!(reply("\x1b[14t"), b"".to_vec());
}

#[test]
fn cursors_have_styles() {
    let style = |s: &str| {
        let c = run(4, 1, s).cursor_state();
        (c.shape, c.blinking)
    };
    assert_eq!(style("\x1b[ q"), (CursorShape::Block, true));
    assert_eq!(style("\x1b[2 q"), (CursorShape::Block, false));
    assert_eq!(style("\x1b[3 q"), (CursorShape::Underline, true));
    assert_eq!(style("\x1b[4 q"), (CursorShape::Underline, false));
    assert_eq!(style("\x1b[5 q"), (CursorShape::Beam, true));
    assert_eq!(style("\x1b[6 q"), (CursorShape::Beam, false));
}

#[test]
fn modes_are_switched_alone() {
    let before = run(4, 1, "").mode;
    let bits = [
        ("1", TermMode::APP_CURSOR),
        ("5", TermMode::REVERSE_VIDEO),
        ("1000", TermMode::MOUSE_CLICK),
        ("1002", TermMode::MOUSE_DRAG),
        ("1003", TermMode::MOUSE_MOTION),
        ("1004", TermMode::FOCUS_REPORT),
        ("1006", TermMode::MOUSE_SGR),
        ("2004", TermMode::BRACKETED_PASTE),
        ("2026", TermMode::SYNC_UPDATE),
    ];
    for (number, bit) in bits {
        let on = run(4, 1, &format!("\x1b[?{number}h")).mode;
        assert_eq!(on.0, before.0 | bit, "mode {number}");
        let off = run(4, 1, &format!("\x1b[?{number}h\x1b[?{number}l")).mode;
        assert_eq!(off.0, before.0 & !bit, "mode {number}");
    }
}

#[test]
fn titles_are_read_as_text() {
    let t = run(4, 1, "\x1b]0;first\x07\x1b]2;second\x1b\\");
    assert_eq!(t.title.as_deref(), Some("second"));
    assert_eq!(t.title_revision, 2);
    let t = run(4, 1, "\x1b]1;icon\x07");
    assert_eq!((t.title, t.title_revision), (None, 0));
    let mut t = Term::new(4, 1, 0);
    t.perform(&VtAction::Osc(vec![b"2".to_vec(), b"a\xFFb".to_vec()]));
    assert_eq!(t.title.as_deref(), Some("a\u{FFFD}b"));
    t.set_title("set".to_string());
    assert_eq!((t.title.as_deref(), t.title_revision), (Some("set"), 2));
}

#[test]
fn string_terminators_are_not_typed() {
    let t = run(20, 4, "\x1b]0;hi\x1b\\ok");
    assert_eq!(t.title.as_deref(), Some("hi"));
    assert_eq!(t.line_text(0), "ok");
    assert_eq!(at(&t), (2, 0));
    // The same after a device control string, and where something else follows the escape.
    assert_eq!(lines(&run(20, 1, "\x1bPq#1\x1b\\ok")), vec!["ok"]);
    let t = run(20, 1, "\x1b]0;hi\x1b[31mok");
    assert_eq!(lines(&t), vec!["ok"]);
    assert_eq!(t.grid().cell(0, 0).fg, Color::indexed(1));
    assert_eq!(lines(&run(20, 1, "\x1b]0;hi\x07ok")), vec!["ok"]);
}

#[test]
fn broken_characters_keep_their_place() {
    let shown = |bytes: &[u8]| {
        let mut t = Term::new(20, 1, 0);
        Processor::new().advance(&mut t, bytes);
        lines(&t)
    };
    assert_eq!(shown(b"\xC3\xC3a"), vec!["\u{FFFD}\u{FFFD}a"]);
    assert_eq!(shown(b"\xC3\xC3\xA9a"), vec!["\u{FFFD}\u{E9}a"]);
    assert_eq!(shown(b"\xE4\x1b[1mx"), vec!["\u{FFFD}x"]);
    assert_eq!(shown(b"\xFFab"), vec!["\u{FFFD}ab"]);
}

#[test]
fn a_wide_character_leaves_a_gap_that_is_no_text() {
    let mut t = run(10, 4, "abcdefghi\u{4F60}z");
    assert_eq!(lines(&t), vec!["abcdefghi", "\u{4F60} z", "", ""]);
    t.resize(20, 4);
    assert_eq!(lines(&t), vec!["abcdefghi\u{4F60} z", "", "", ""]);
    t.resize(10, 4);
    assert_eq!((t.line_text(0), t.line_text(1)), ("abcdefghi".into(), "\u{4F60}z".into()));
    // What was there already is text.
    let mut t = run(10, 4, "\x1b[10Gx\r\x1b[9Ch\x1b[10G\u{4F60}");
    t.resize(20, 4);
    assert_eq!(lines(&t)[0], "         h\u{4F60}");
}

#[test]
fn the_bell_is_counted() {
    assert_eq!(run(4, 1, "\x07\x07").bell_revision, 2);
}

#[test]
fn terminals_tell_what_they_are() {
    let mut t = run(4, 1, "\x1b]2;name\x07\x07\x1b[?2004h");
    assert_eq!(t.title(), Some("name"));
    assert_eq!((t.title_revision(), t.bell_revision()), (1, 1));
    assert!(t.modes().contains(TermMode::BRACKETED_PASTE));
    t.put_modes(TermMode::default());
    assert_eq!(t.mode, TermMode::default());
    assert_eq!(run(4, 1, "").title(), None);
}

#[test]
fn deleting_undoes_inserting_where_the_cursor_is() {
    let mut t = run(6, 2, "other\r\nabcdef\x1b[2;3H\x1b[44m");
    t.shift_right(2, 1, 2);
    assert_eq!(lines(&t), vec!["other", "ab  cd"]);
    t.delete_chars(2);
    assert_eq!(lines(&t), vec!["other", "abcd"]);
    assert_eq!(t.grid().cell(4, 1).bg, Color::indexed(4));
    assert_eq!(t.grid().cell(5, 1).bg, Color::indexed(4));
    assert_eq!(at(&t), (2, 1));
}

#[test]
fn the_alignment_test_fills_the_screen() {
    assert_eq!(lines(&run(3, 2, "\x1b#8")), vec!["EEE", "EEE"]);
}

#[test]
fn character_sets_are_designated_and_shifted() {
    assert_eq!(lines(&run(6, 1, "\x1b(0qq\x1b(Bqq")), vec!["\u{2500}\u{2500}qq"]);
    assert_eq!(lines(&run(6, 1, "\x1b)0q\x0Eq\x0Fq")), vec!["q\u{2500}q"]);
}

#[test]
fn widths_decide_where_a_character_goes() {
    let mut t = Term::new(6, 1, 0);
    t.print_as('a', Some(1));
    t.print_as('\u{4F60}', Some(2));
    t.print_as('!', Some(1));
    assert_eq!(at(&t), (4, 0));
    assert!(t.grid().cell(1, 0).flags.contains(CellFlags::WIDE));
    assert!(t.grid().cell(2, 0).flags.contains(CellFlags::WIDE_SPACER));
    t.print_as('\u{0301}', Some(0));
    assert_eq!(t.cluster(t.grid().cell(3, 0).ch).unwrap(), &['!', '\u{0301}']);
    // A wide character that no longer fits goes to the next line.
    let t = run(3, 2, "ab\u{4F60}");
    assert_eq!(lines(&t), vec!["ab", "\u{4F60}"]);
}

#[test]
fn clusters_do_not_grow_for_ever() {
    let t = run(4, 1, &format!("e{}", "\u{0301}".repeat(20)));
    assert_eq!(t.cluster(t.grid().cell(0, 0).ch).unwrap().len(), 8);
}

#[test]
fn runs_and_chunks_can_be_split_anywhere() {
    let stream = "plain \x1b[31mred\x1b[0m \u{4F60}\u{597D} e\u{0301}\r\n\x1b]2;t\x07tail \x1b]2;u\x1b\\end".as_bytes();
    let mut whole = Term::new(12, 4, 50);
    Processor::new().advance(&mut whole, stream);
    for cut in 0..=stream.len() {
        let mut t = Term::new(12, 4, 50);
        let mut p = Processor::new();
        p.advance(&mut t, &stream[..cut]);
        p.advance(&mut t, &stream[cut..]);
        assert_eq!(lines(&t), lines(&whole), "cut at {cut}");
        assert_eq!(at(&t), at(&whole), "cut at {cut}");
        assert_eq!(t.title, whole.title, "cut at {cut}");
    }
}

#[test]
fn what_is_read_stays_where_it_is() {
    // New lines push the history on while the view is scrolled back: the same lines are shown.
    let mut g = tachyon::term::Grid::new(3, 2, 50);
    for i in 0..6u32 {
        g.set_cell(0, 1, Cell { ch: 0x30 + i, ..Cell::empty() });
        g.scroll_up(0, 1, 1, &Pen::default());
    }
    assert!(g.scroll_display(3));
    let shown = (g.row(0).cells()[0], g.row(1).cells()[0]);
    g.scroll_up(0, 1, 1, &Pen::default());
    assert_eq!((g.row(0).cells()[0], g.row(1).cells()[0]), shown);
    assert_eq!(g.display_offset(), 4);
    assert!(g.scroll_display(-99));
    assert_eq!(g.display_offset(), 0);
    assert!(!g.scroll_to_bottom());
}

#[test]
fn colours_keep_what_they_were_made_of() {
    let palette = tachyon::term::Palette::new();
    let default = [1, 2, 3];
    assert_eq!(Color::rgb(10, 20, 30).resolve(&palette, default), [10, 20, 30]);
    assert_eq!(Color::default().resolve(&palette, default), default);
    assert_eq!(Color::indexed(7).index(), Some(7));
    assert_eq!(Color::rgb(10, 20, 30).index(), None);
    assert_eq!(Color::indexed(3).brighten(), Color::indexed(11));
    assert_eq!(Color::indexed(11).brighten(), Color::indexed(11));
}

#[test]
fn white_space_is_what_unicode_says() {
    for n in 0..=0x10FFFF {
        if let Some(c) = char::from_u32(n) {
            assert_eq!(is_white(c), c.is_whitespace(), "U+{n:04X}");
        }
    }
}
