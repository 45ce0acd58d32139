//! What the window decides.

use tachyon::cli::{parse_arguments, Request};
use tachyon::input::{Modifiers, MouseButton, VK_END, VK_HOME, VK_NEXT, VK_PRIOR, VK_TAB, VK_UP};
use tachyon::render::coverage::Bounds;
use tachyon::render::SelectionRange;
use tachyon::term::{Processor, Term, TermMode};
use tachyon::win::geometry::{snap, unpack_point, unpack_size, Edge};
use tachyon::win::install::{add_to_path, describe_install, remove_from_path};
use tachyon::win::keys::{char_input, focus_report, key_action, KeyAction, VK_C, VK_T, VK_V, VK_W};
use tachyon::win::messages::{answer, read_message, Message};
use tachyon::win::mouse::{
    report_cell, text_cell, wheel_action, wheel_lines, Motion, Pointed, Pointer, Press, Release,
    Wheel,
};
use tachyon::win::pacing::{Pacer, BLINK_INTERVAL};
use tachyon::win::paste::paste_input;
use tachyon::win::selection::{selection_text, Selection};
use tachyon::win::tabs::{tab_label, window_title, Closed, SessionTitle, Tabs};
use tachyon::win::wide::{units_text, value_bytes, value_text, wide, wide_text};

#[test]
fn tab_labels_use_the_leaf_of_a_path() {
    assert_eq!(
        tab_label("C:\\WINDOWS\\System32\\WindowsPowerShell\\v1.0\\powershell.exe"),
        "powershell.exe"
    );
    assert_eq!(tab_label("/usr/bin/fish"), "fish");
    assert_eq!(tab_label("vim README.md"), "vim README.md");
    assert_eq!(tab_label("   "), "shell");
    assert_eq!(tab_label(""), "shell");
}

#[test]
fn a_title_that_ends_in_a_separator_stays_whole() {
    assert_eq!(tab_label(" C:\\src\\ "), "C:\\src\\");
    assert_eq!(window_title("vim"), "vim - Tachyon");
    assert_eq!(window_title(""), "Tachyon");
}

#[test]
fn titles_follow_their_revision() {
    let mut t = SessionTitle::new();
    assert!(!t.refresh(0, Some("ignored".to_string())));
    assert_eq!(t.title, "");
    assert!(t.refresh(1, Some("vim".to_string())));
    assert_eq!(t.title, "vim");
    assert!(t.refresh(2, None));
    assert_eq!(t.title, "");
}

#[test]
fn the_tab_that_is_shown_exists() {
    let mut t = Tabs { count: 1, active: 0 };
    t.open();
    t.open();
    assert_eq!(t, Tabs { count: 3, active: 2 });
    assert!(t.cycle(true));
    assert_eq!(t.active, 0);
    assert!(t.cycle(false));
    assert_eq!(t.active, 2);
    assert!(!t.select(2));
    assert!(!t.select(7));
    assert!(t.select(1));
    assert_eq!(t.close(2), Closed::TabsLeft);
    assert_eq!(t, Tabs { count: 2, active: 1 });
    assert_eq!(t.close(0), Closed::TabsLeft);
    assert_eq!(t, Tabs { count: 1, active: 0 });
    assert!(!t.cycle(true));
    assert_eq!(t.close(5), Closed::NoSuchTab);
    assert_eq!(t.close(0), Closed::LastTab);
    assert_eq!(t.count, 0);
}

fn term(stream: &str) -> Term {
    let mut t = Term::new(10, 3, 20);
    let mut p = Processor::new();
    p.advance(&mut t, stream.as_bytes());
    t
}

fn mods(shift: bool, ctrl: bool, alt: bool) -> Modifiers {
    Modifiers { shift, ctrl, alt }
}

#[test]
fn shortcuts_come_before_the_application() {
    let t = term("\x1b[?1h");
    let both = mods(true, true, false);
    assert!(matches!(key_action(VK_C, both, &t, 1), KeyAction::Copy));
    assert!(matches!(key_action(VK_V, both, &t, 1), KeyAction::Paste));
    assert!(matches!(key_action(VK_T, both, &t, 1), KeyAction::OpenTab));
    assert!(matches!(key_action(VK_W, both, &t, 1), KeyAction::CloseTab));
    assert!(matches!(
        key_action(VK_TAB, mods(false, true, false), &t, 1),
        KeyAction::CycleTabs(true)
    ));
    assert!(matches!(
        key_action(VK_TAB, both, &t, 1),
        KeyAction::CycleTabs(false)
    ));
    let alt = mods(false, false, true);
    assert!(matches!(key_action(0x31, alt, &t, 4), KeyAction::ShowTab(0)));
    assert!(matches!(key_action(0x39, alt, &t, 4), KeyAction::ShowTab(8)));
    assert!(matches!(key_action(0x30, alt, &t, 4), KeyAction::ShowTab(3)));
    assert!(matches!(
        key_action(VK_C, mods(false, true, false), &t, 1),
        KeyAction::Pass
    ));
}

#[test]
fn shift_moves_the_view() {
    let t = term("1\r\n2\r\n3\r\n4\r\n5");
    let shift = mods(true, false, false);
    assert!(matches!(key_action(VK_PRIOR, shift, &t, 1), KeyAction::ScrollBy(3)));
    assert!(matches!(key_action(VK_NEXT, shift, &t, 1), KeyAction::ScrollBy(-3)));
    assert!(matches!(key_action(VK_HOME, shift, &t, 1), KeyAction::ScrollBy(2)));
    assert!(matches!(key_action(VK_END, shift, &t, 1), KeyAction::ScrollToEnd));
    match key_action(VK_UP, mods(false, false, false), &t, 1) {
        KeyAction::Send(b) => assert_eq!(b, b"\x1b[A"),
        _ => panic!("an arrow is sent"),
    }
}

#[test]
fn characters_are_sent_as_they_are() {
    assert_eq!(char_input('a' as u16, false).unwrap(), b"a");
    assert_eq!(char_input('a' as u16, true).unwrap(), b"\x1ba");
    assert_eq!(char_input(0x08, false).unwrap(), vec![0x08]);
    assert_eq!(char_input(0xE9, false).unwrap(), "\u{e9}".as_bytes());
    assert_eq!(char_input(0x4F60, true).unwrap(), "\x1b\u{4f60}".as_bytes());
    assert_eq!(char_input(0xD83D, false), None);
}

#[test]
fn focus_is_reported_on_request() {
    let plain = TermMode::default();
    assert_eq!(focus_report(plain, true), None);
    let asked = plain | TermMode::FOCUS_REPORT;
    assert_eq!(focus_report(asked, true).unwrap(), b"\x1b[I");
    assert_eq!(focus_report(asked, false).unwrap(), b"\x1b[O");
}

#[test]
fn pasted_lines_end_in_carriage_returns() {
    let plain = TermMode::default();
    assert_eq!(paste_input("a\r\nb\nc\rd\r\n", plain), b"a\rb\rc\rd\r");
    assert_eq!(paste_input("\n\n", plain), b"\r\r");
    assert_eq!(paste_input("\r\n\n", plain), b"\r\r");
    assert_eq!(
        paste_input("\u{e9}\n", plain | TermMode::BRACKETED_PASTE),
        "\x1b[200~\u{e9}\r\x1b[201~".as_bytes()
    );
}

#[test]
fn selections_run_in_reading_order() {
    let s = Selection { anchor: (4, 2), head: (3, 9), active: true };
    let want = SelectionRange { start_line: 3, start_col: 9, end_line: 4, end_col: 1 };
    assert_eq!(s.range(), Some(want));
    let back = Selection { anchor: (3, 9), head: (4, 2), active: false };
    assert_eq!(back.range(), Some(want));
    let none = Selection { anchor: (3, 9), head: (3, 9), active: true };
    assert_eq!(none.range(), None);
    let edge = Selection { anchor: (1, 0), head: (2, 0), active: true };
    assert_eq!(edge.range().unwrap().end_col, 0);
}

#[test]
fn selected_text_is_what_was_dragged_over() {
    let t = term("hello\r\nworld");
    let s = Selection { anchor: (0, 1), head: (1, 3), active: false };
    assert_eq!(selection_text(&Some(s), &t).unwrap(), "ello\nwor");
    assert_eq!(selection_text(&None, &t), None);
}

fn at(line: usize, col: usize) -> Pointed {
    Pointed { tab: None, text: (line, col), screen: (col, line) }
}

#[test]
fn the_mouse_selects_unless_it_was_asked_for() {
    let mode = TermMode::default();
    let mut p = Pointer::new();
    assert_eq!(p.press(MouseButton::Left, &at(1, 2), mode, false), Press::Select);
    assert_eq!(p.motion(&at(1, 2), mode, false), Motion::Nothing);
    // Asking for the mouse now does not end the selection.
    let asked = mode | TermMode::MOUSE_MOTION;
    assert_eq!(p.motion(&at(1, 5), asked, false), Motion::Redraw);
    assert_eq!(p.release(MouseButton::Left, &at(1, 5)), Release::Finish);
    let s = p.selection.unwrap();
    assert_eq!((s.anchor, s.head, s.active), ((1, 2), (1, 5), false));
    assert_eq!(p.press(MouseButton::Right, &at(0, 0), mode, false), Press::Paste);
    assert_eq!(p.press(MouseButton::Middle, &at(0, 0), mode, false), Press::Paste);
    p.deselect();
    assert!(p.selection.is_none());
}

#[test]
fn a_reported_press_is_always_released() {
    let asked = TermMode::default() | TermMode::MOUSE_CLICK;
    let mut p = Pointer::new();
    assert_eq!(p.press(MouseButton::Left, &at(0, 3), asked, false), Press::Report);
    // The mode is gone by now, and the mouse is over the tab strip.
    let strip = Pointed { tab: Some(1), ..at(0, 4) };
    let plain = TermMode::default();
    assert_eq!(p.motion(&strip, plain, true), Motion::Report(MouseButton::Left));
    assert_eq!(p.motion(&strip, plain, true), Motion::Nothing);
    assert_eq!(p.release(MouseButton::Right, &strip), Release::Nothing);
    assert_eq!(p.release(MouseButton::Left, &strip), Release::Report);
    assert_eq!(p.motion(&at(2, 2), plain, false), Motion::Nothing);
    assert_eq!(p.motion(&at(2, 2), asked, false), Motion::Report(MouseButton::NoButton));
}

#[test]
fn shift_and_the_strip_keep_the_mouse() {
    let asked = TermMode::default() | TermMode::MOUSE_DRAG;
    let mut p = Pointer::new();
    assert_eq!(p.press(MouseButton::Left, &at(0, 3), asked, true), Press::Select);
    p.lose();
    assert!(!p.selection.unwrap().active);
    let strip = Pointed { tab: Some(1), ..at(0, 4) };
    assert_eq!(p.press(MouseButton::Left, &strip, asked, false), Press::ShowTab(1));
    assert_eq!(p.press(MouseButton::Middle, &strip, asked, false), Press::CloseTab(1));
    assert_eq!(p.press(MouseButton::Right, &strip, asked, false), Press::Nothing);
    assert_eq!(p.motion(&strip, asked, false), Motion::Nothing);
}

#[test]
fn points_are_kept_on_the_screen() {
    let mut t = term("1\r\n2\r\n3\r\n4\r\n5");
    assert_eq!(text_cell(&t, 4, 1), (3, 4));
    assert_eq!(text_cell(&t, 99, 99), (4, 10));
    assert_eq!(report_cell(&t, 99, 99), (9, 2));
    t.scroll_display(2);
    assert_eq!(text_cell(&t, 4, 1), (1, 4));
    assert_eq!(report_cell(&t, 4, 1), (4, 1));
}

#[test]
fn wheel_turns_are_rounded_to_lines() {
    let exact = |d: i16| (d as f32 / 120.0 * 3.0).round() as i32;
    for d in i16::MIN..=i16::MAX {
        assert_eq!(wheel_lines(d), exact(d), "{d}");
    }
    assert_eq!(wheel_lines(120), 3);
    assert_eq!(wheel_lines(-20), -1);
    assert_eq!(wheel_lines(19), 0);
}

#[test]
fn the_wheel_goes_where_it_is_of_use() {
    let plain = TermMode::default();
    assert!(matches!(wheel_action(0, plain), Wheel::Nothing));
    assert!(matches!(wheel_action(120, plain), Wheel::Scroll(3)));
    let asked = plain | TermMode::MOUSE_CLICK;
    assert!(matches!(
        wheel_action(-120, asked),
        Wheel::Report(MouseButton::WheelDown, 3)
    ));
    let full = plain | TermMode::ALT_SCREEN;
    match wheel_action(40, full) {
        Wheel::Keys(k, n) => assert_eq!((k, n), (b"\x1b[A".to_vec(), 1)),
        _ => panic!("cursor keys are sent"),
    }
    match wheel_action(-240, full | TermMode::APP_CURSOR) {
        Wheel::Keys(k, n) => assert_eq!((k, n), (b"\x1bOB".to_vec(), 6)),
        _ => panic!("cursor keys are sent"),
    }
}

#[test]
fn frames_wait_for_batches_but_not_for_ever() {
    let mut p = Pacer::new(1000, 150, None);
    assert!(p.due(1000, false, false));
    p.presented(1000);
    assert!(!p.is_stale(false));
    assert!(p.is_stale(true));
    assert!(!p.due(1001, false, false));
    assert!(!p.due(1100, true, true));
    assert!(p.needs_redraw);
    assert!(p.is_stale(false));
    assert!(!p.due(1249, false, true));
    assert!(p.due(1250, false, true));
    // The next batch is timed anew.
    assert!(p.due(1300, true, false));
    assert_eq!(p.sync_since, None);
    assert!(!p.due(1301, true, true));
}

#[test]
fn frames_keep_their_distance() {
    let mut p = Pacer::new(0, 150, Some(100));
    assert!(!p.due(99, true, false));
    assert_eq!(p.wait_millis(true, true), 16);
    assert!(p.due(100, false, false));
    p.presented(100);
    assert!(!p.due(199, true, false));
    assert!(p.due(200, true, false));
}

#[test]
fn blinks_are_drawn_when_they_can_be_seen() {
    let mut p = Pacer::new(0, 150, None);
    assert!(p.due(0, false, false));
    p.tick_blink(BLINK_INTERVAL - 1, true, true);
    assert!(p.blink_on && !p.needs_redraw);
    p.tick_blink(BLINK_INTERVAL, false, true);
    assert!(!p.blink_on && !p.needs_redraw);
    p.tick_blink(2 * BLINK_INTERVAL, true, true);
    assert!(p.blink_on && p.needs_redraw);
    assert!(p.due(0, false, false));
    assert_eq!(p.wait_millis(true, true), 530);
    assert_eq!(p.wait_millis(true, false), 1000);
    p.request();
    assert!(p.needs_redraw);
}

#[test]
fn packed_words_come_apart() {
    assert_eq!(unpack_point(0xFFFF_0005), (5, -1));
    assert_eq!(unpack_point(0x7FFF_8000), (-32768, 32767));
    assert_eq!(unpack_size(0x0258_0320), (800, 600));
}

#[test]
fn the_dragged_edge_moves() {
    let r = Bounds { left: 0, top: 0, right: 100, bottom: 50 };
    assert_eq!(
        snap(&r, Edge::BottomRight, 96, 48),
        Bounds { left: 0, top: 0, right: 96, bottom: 48 }
    );
    assert_eq!(
        snap(&r, Edge::TopLeft, 96, 48),
        Bounds { left: 4, top: 2, right: 100, bottom: 50 }
    );
    assert_eq!(
        snap(&r, Edge::Left, 96, 48),
        Bounds { left: 4, top: 0, right: 100, bottom: 48 }
    );
}

#[test]
fn directories_are_added_to_the_path_once() {
    assert_eq!(add_to_path("", "C:\\T").unwrap(), "C:\\T");
    assert_eq!(add_to_path("C:\\a", "C:\\T").unwrap(), "C:\\a;C:\\T");
    assert_eq!(add_to_path("C:\\a;", "C:\\T").unwrap(), "C:\\a;C:\\T");
    assert_eq!(add_to_path("C:\\a; c:\\t\\ ;D:\\", "C:\\T"), None);
}

#[test]
fn directories_are_taken_off_the_path() {
    assert_eq!(remove_from_path("", "C:\\T"), None);
    assert_eq!(remove_from_path("C:\\a;C:\\b", "C:\\T"), None);
    assert_eq!(remove_from_path("C:\\T", "C:\\T").unwrap(), "");
    assert_eq!(
        remove_from_path("C:\\a;c:\\T\\;C:\\b;C:\\t", "C:\\T").unwrap(),
        "C:\\a;C:\\b"
    );
    let path = "C:\\a;C:\\b";
    let more = add_to_path(path, "C:\\T").unwrap();
    assert_eq!(remove_from_path(&more, "C:\\T").unwrap(), path);
}

#[test]
fn installing_tells_where_things_are() {
    let text = describe_install("C:\\T\\tachyon.exe", "C:\\S\\Tachyon.lnk");
    assert!(text.starts_with(
        "Tachyon installed.\n\nProgram:  C:\\T\\tachyon.exe\nShortcut: C:\\S\\Tachyon.lnk\n\nTo pin it: "
    ));
    assert!(text.ends_with("Run `tachyon --uninstall` to undo both."));
}

fn args(v: &[&str]) -> Vec<String> {
    v.iter().map(|s| s.to_string()).collect()
}

#[test]
fn command_lines_are_understood() {
    let l = parse_arguments(&args(&["tachyon"]));
    assert_eq!(l.request, Request::Start);
    assert!(!l.quiet && l.config.is_none() && l.command.is_none());

    let l = parse_arguments(&args(&["tachyon", "--config", "a", "x", "--config", "b"]));
    assert_eq!(l.config.unwrap(), "b");

    let l = parse_arguments(&args(&["tachyon", "--config"]));
    assert!(l.config.is_none());

    let l = parse_arguments(&args(&["tachyon", "-e", "wsl.exe", "--install", "--quiet"]));
    assert_eq!(l.request, Request::Start);
    assert_eq!(l.command.unwrap(), args(&["wsl.exe", "--install", "--quiet"]));
    assert!(l.quiet);

    assert!(parse_arguments(&args(&["tachyon", "--command"])).command.is_none());
    let l = parse_arguments(&args(&["tachyon", "--quiet", "--uninstall", "--help"]));
    assert_eq!(l.request, Request::Uninstall);
    assert!(l.quiet);
    assert_eq!(parse_arguments(&args(&["tachyon", "--install"])).request, Request::Install);
    assert_eq!(parse_arguments(&args(&["tachyon", "-V"])).request, Request::Version);
    assert_eq!(parse_arguments(&args(&["tachyon", "-h"])).request, Request::Help);
    // The program's own name is no argument.
    assert_eq!(parse_arguments(&args(&["--install"])).request, Request::Start);
}

#[test]
fn texts_cross_into_the_system_and_back() {
    let text = "C:\\bin;\u{1F600}\u{4F60}";
    let units = wide(text);
    let expected: Vec<u16> = text.encode_utf16().chain([0]).collect();
    assert_eq!(units, expected);
    assert_eq!(wide_text(&units), text);
    assert_eq!(value_text(&value_bytes(text)), text);
    assert_eq!(value_bytes("a\u{4F60}"), vec![0x61, 0, 0x60, 0x4F, 0, 0]);
    // What comes after a zero is not read, nor half a code unit.
    assert_eq!(wide_text(&[0x61, 0, 0x62]), "a");
    assert_eq!(wide_text(&[0x61, 0x62]), "ab");
    assert_eq!(value_text(&[0x61, 0, 0x62]), "a");
    // Half a pair cannot be read.
    let broken = [0xD83D, 0x61, 0xDE00, 0xD83D, 0xD83D, 0xDE00, 0xD83D];
    assert_eq!(units_text(&broken), String::from_utf16_lossy(&broken));
    assert_eq!(units_text(&broken), "\u{FFFD}a\u{FFFD}\u{FFFD}\u{1F600}\u{FFFD}");
}

#[test]
fn messages_are_told_apart() {
    let place = 0xFFFE_0003; // x = 3, y = -2
    assert_eq!(
        read_message(0x0005, 0, 0x0140_0280),
        Message::Resized { width: 640, height: 320 }
    );
    assert_eq!(read_message(0x02E0, 0x0090_0090, 0), Message::Rescaled { dpi: 144 });
    assert_eq!(read_message(0x0007, 0, 0), Message::Focused(true));
    assert_eq!(read_message(0x0008, 0, 0), Message::Focused(false));
    assert_eq!(read_message(0x0100, 0x43, 0), Message::Key(0x43));
    assert_eq!(read_message(0x0104, 0x43, 0), Message::Key(0x43));
    assert_eq!(read_message(0x0102, 0x61, 0), Message::Typed { code: 0x61, alt: false });
    assert_eq!(read_message(0x0106, 0x61, 0), Message::Typed { code: 0x61, alt: true });
    assert_eq!(
        read_message(0x020A, 0xFF88_0000, place),
        Message::Wheel { delta: -120, x: 3, y: -2 }
    );
    let buttons = [
        (0x0201, 0x0202, MouseButton::Left),
        (0x0204, 0x0205, MouseButton::Right),
        (0x0207, 0x0208, MouseButton::Middle),
    ];
    for (down, up, button) in buttons {
        assert_eq!(read_message(down, 0, place), Message::Pressed { button, x: 3, y: -2 });
        assert_eq!(read_message(up, 0, place), Message::Released { button, x: 3, y: -2 });
    }
    assert_eq!(read_message(0x0200, 0, place), Message::Moved { x: 3, y: -2 });
    assert_eq!(read_message(0x0215, 0, 0), Message::MouseLost);
    assert_eq!(read_message(0x0020, 0, 0x0200_0001), Message::PointerShape);
    assert_eq!(read_message(0x0020, 0, 0x0200_0002), Message::Unhandled);
    assert_eq!(read_message(0x0014, 0, 0), Message::Erase);
    assert_eq!(read_message(0x000F, 0, 0), Message::Paint);
    assert_eq!(read_message(0x0214, 4, 0), Message::Resizing(Edge::TopLeft));
    assert_eq!(read_message(0x0214, 6, 0), Message::Resizing(Edge::Bottom));
    assert_eq!(read_message(0x0010, 0, 0), Message::Close);
    assert_eq!(read_message(0x0002, 0, 0), Message::Destroyed);
    assert_eq!(read_message(0x8001, 0, 0), Message::Unhandled);
}

#[test]
fn the_system_handles_what_is_left_to_it() {
    assert_eq!(answer(Message::Unhandled, false), None);
    assert_eq!(answer(Message::Key(0x73), false), None);
    assert_eq!(answer(Message::Key(0x43), true), Some(0));
    assert_eq!(answer(Message::Erase, false), Some(1));
    assert_eq!(answer(Message::Resizing(Edge::Left), false), Some(1));
    assert_eq!(answer(Message::Paint, false), Some(0));
}
