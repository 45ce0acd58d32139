//! What output does to the screen.

use tachyon::term::{CellFlags, Color, Processor, Term, TermMode, CLUSTER_TAG};

fn feed(t: &mut Term, p: &mut Processor, s: &str) {
    p.advance(t, s.as_bytes());
}

fn screen(t: &Term) -> Vec<String> {
    (0..t.rows())
        .map(|y| {
            t.grid()
                .row(y)
                .cells()
                .iter()
                .map(|c| c.scalar().unwrap_or(' '))
                .collect::<String>()
                .trim_end()
                .to_string()
        })
        .collect()
}

#[test]
fn plain_text_lands_on_the_grid() {
    let mut t = Term::new(20, 4, 100);
    let mut p = Processor::new();
    feed(&mut t, &mut p, "hello world");
    assert_eq!(screen(&t)[0], "hello world");
}

#[test]
fn newline_and_carriage_return() {
    let mut t = Term::new(20, 4, 100);
    let mut p = Processor::new();
    feed(&mut t, &mut p, "one\r\ntwo\r\nthree");
    let s = screen(&t);
    assert_eq!(s[0], "one");
    assert_eq!(s[1], "two");
    assert_eq!(s[2], "three");
}

#[test]
fn autowrap_is_deferred_at_the_margin() {
    let mut t = Term::new(5, 3, 10);
    let mut p = Processor::new();
    // Exactly fills row 0; the cursor must stay put, not wrap yet.
    feed(&mut t, &mut p, "abcde");
    assert_eq!(t.cursor_state().y, 0);
    feed(&mut t, &mut p, "f");
    let s = screen(&t);
    assert_eq!(s[0], "abcde");
    assert_eq!(s[1], "f");
    assert!(t.grid().row(0).wrapped);
}

#[test]
fn fast_path_and_slow_path_agree_across_chunk_splits() {
    // The same stream fed in one piece and byte-by-byte must produce the
    // same screen: this is the property the ground-tracking relies on.
    let input = "\x1b[1;32mgreen\x1b[0m plain \x1b[Ktail\r\n\
                 wide: \u{4f60}\u{597d} combining: e\u{0301}\r\n\
                 \x1b(0lqqqk\x1b(B ascii again\r\n\
                 \x1b[10;5Hpositioned\x1b[?25l";

    let mut a = Term::new(40, 6, 50);
    let mut pa = Processor::new();
    pa.advance(&mut a, input.as_bytes());

    let mut b = Term::new(40, 6, 50);
    let mut pb = Processor::new();
    for byte in input.as_bytes() {
        pb.advance(&mut b, &[*byte]);
    }

    assert_eq!(screen(&a), screen(&b));
    assert_eq!(a.cursor_state(), b.cursor_state());
    assert_eq!(a.mode, b.mode);
}

#[test]
fn sgr_sets_colours_both_forms() {
    let mut t = Term::new(20, 2, 10);
    let mut p = Processor::new();
    feed(&mut t, &mut p, "\x1b[38;2;10;20;30mX");
    assert_eq!(t.grid().cell(0, 0).fg, Color::rgb(10, 20, 30));

    feed(&mut t, &mut p, "\x1b[38:2::40:50:60mY");
    assert_eq!(t.grid().cell(1, 0).fg, Color::rgb(40, 50, 60));

    feed(&mut t, &mut p, "\x1b[38;5;123mZ");
    assert_eq!(t.grid().cell(2, 0).fg, Color::indexed(123));
}

#[test]
fn erase_in_line_respects_pen_background() {
    let mut t = Term::new(10, 2, 10);
    let mut p = Processor::new();
    feed(&mut t, &mut p, "abcdefghij\r");
    feed(&mut t, &mut p, "\x1b[41m\x1b[K");
    for x in 0..10 {
        assert_eq!(t.grid().cell(x, 0).bg, Color::indexed(1), "col {x}");
    }
}

#[test]
fn wide_characters_occupy_two_cells() {
    let mut t = Term::new(10, 2, 10);
    let mut p = Processor::new();
    feed(&mut t, &mut p, "\u{4f60}");
    assert!(t.grid().cell(0, 0).flags.contains(CellFlags::WIDE));
    assert!(t.grid().cell(1, 0).flags.contains(CellFlags::WIDE_SPACER));
    assert_eq!(t.cursor_state().x, 2);
}

#[test]
fn combining_mark_attaches_to_previous_cell() {
    let mut t = Term::new(10, 2, 10);
    let mut p = Processor::new();
    feed(&mut t, &mut p, "e\u{0301}");
    let c = t.grid().cell(0, 0);
    assert_ne!(c.ch & CLUSTER_TAG, 0);
    assert_eq!(t.cluster(c.ch).unwrap(), &['e', '\u{0301}']);
}

#[test]
fn alt_screen_round_trips() {
    let mut t = Term::new(10, 3, 10);
    let mut p = Processor::new();
    feed(&mut t, &mut p, "primary");
    feed(&mut t, &mut p, "\x1b[?1049h");
    assert!(t.mode.contains(TermMode::ALT_SCREEN));
    assert_eq!(screen(&t)[0], "");
    feed(&mut t, &mut p, "alt");
    assert_eq!(screen(&t)[0], "alt");
    feed(&mut t, &mut p, "\x1b[?1049l");
    assert!(!t.mode.contains(TermMode::ALT_SCREEN));
    assert_eq!(screen(&t)[0], "primary");
}

#[test]
fn scroll_region_confines_scrolling() {
    let mut t = Term::new(10, 5, 20);
    let mut p = Processor::new();
    feed(&mut t, &mut p, "\x1b[1;1Htop");
    // Region covers rows 2..4 (1-based).
    feed(&mut t, &mut p, "\x1b[2;4r");
    feed(&mut t, &mut p, "\x1b[2;1Ha\r\nb\r\nc\r\nd");
    let s = screen(&t);
    assert_eq!(s[0], "top", "line outside the region must not move");
    assert_eq!(s[3], "d");
}

#[test]
fn cpr_reports_cursor_position() {
    let mut t = Term::new(20, 5, 10);
    let mut p = Processor::new();
    feed(&mut t, &mut p, "\x1b[3;7H\x1b[6n");
    assert_eq!(t.take_replies(), b"\x1b[3;7R".to_vec());
}

#[test]
fn dec_graphics_maps_line_drawing() {
    let mut t = Term::new(10, 2, 10);
    let mut p = Processor::new();
    feed(&mut t, &mut p, "\x1b(0qx\x1b(B");
    assert_eq!(t.grid().cell(0, 0).scalar(), Some('─'));
    assert_eq!(t.grid().cell(1, 0).scalar(), Some('│'));
}

#[test]
fn insert_and_delete_characters() {
    let mut t = Term::new(10, 2, 10);
    let mut p = Processor::new();
    feed(&mut t, &mut p, "abcdef\x1b[1;1H\x1b[2@");
    assert_eq!(screen(&t)[0], "  abcdef");
    feed(&mut t, &mut p, "\x1b[2P");
    assert_eq!(screen(&t)[0], "abcdef");
}

#[test]
fn long_ascii_run_crosses_simd_boundaries() {
    // Exercises the vectorised bulk fill across many wraps.
    let mut t = Term::new(80, 24, 200);
    let mut p = Processor::new();
    let line = "x".repeat(1000);
    feed(&mut t, &mut p, &line);
    // 1000 characters over 80 columns = 12 full rows plus 40.
    assert_eq!(t.cursor_state().x, 40);
    assert_eq!(screen(&t)[0], "x".repeat(80));
}

#[test]
fn output_snaps_viewport_back_to_the_bottom() {
    let mut t = Term::new(10, 2, 50);
    let mut p = Processor::new();
    for i in 0..10 {
        feed(&mut t, &mut p, &format!("line{i}\r\n"));
    }
    t.scroll_display(5);
    assert!(t.grid().display_offset() > 0);
    feed(&mut t, &mut p, "new");
    assert_eq!(t.grid().display_offset(), 0);
}

#[test]
fn reverse_video_keeps_the_characters() {
    let mut t = Term::new(20, 2, 10);
    let mut p = Processor::new();
    p.advance(&mut t, b"\x1b[7m reverse \x1b[0m");

    // The cells must still carry their characters; REVERSE is presentation.
    let text: String = (0..9)
        .map(|x| t.grid().cell(x, 0).scalar().unwrap_or('?'))
        .collect();
    assert_eq!(text, " reverse ");
    for x in 0..9 {
        assert!(
            t.grid().cell(x, 0).flags.contains(CellFlags::REVERSE),
            "cell {x} lost REVERSE"
        );
    }
}
