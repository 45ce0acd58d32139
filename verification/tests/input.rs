//! Keys and the mouse, as applications see them.

use tachyon::input::{
    encode_key, encode_mouse, Modifiers, MouseButton, MouseEventKind, VK_A, VK_BACK, VK_DELETE, VK_F1,
    VK_F12, VK_PRIOR, VK_RETURN, VK_RIGHT, VK_SPACE, VK_TAB, VK_UP,
};
use tachyon::term::TermMode;

const PLAIN: Modifiers = Modifiers {
    shift: false,
    ctrl: false,
    alt: false,
};

#[test]
fn arrows_switch_on_application_cursor_mode() {
    let normal = TermMode::default();
    assert_eq!(encode_key(VK_UP, PLAIN, normal).unwrap(), b"\x1b[A");

    let app = normal | TermMode::APP_CURSOR;
    assert_eq!(encode_key(VK_UP, PLAIN, app).unwrap(), b"\x1bOA");
}

#[test]
fn modifiers_use_the_xterm_parameter_form() {
    let ctrl = Modifiers {
        ctrl: true,
        ..PLAIN
    };
    // Ctrl is bit 4, so the parameter is 1 + 4 = 5.
    assert_eq!(
        encode_key(VK_RIGHT, ctrl, TermMode::default()).unwrap(),
        b"\x1b[1;5C"
    );

    let shift_alt = Modifiers {
        shift: true,
        alt: true,
        ctrl: false,
    };
    // 1 + 1 + 2 = 4.
    assert_eq!(
        encode_key(VK_F1, shift_alt, TermMode::default()).unwrap(),
        b"\x1b[1;4P"
    );
}

#[test]
fn navigation_keys_use_tilde_sequences() {
    let m = TermMode::default();
    assert_eq!(encode_key(VK_DELETE, PLAIN, m).unwrap(), b"\x1b[3~");
    assert_eq!(encode_key(VK_PRIOR, PLAIN, m).unwrap(), b"\x1b[5~");
    assert_eq!(encode_key(VK_F12, PLAIN, m).unwrap(), b"\x1b[24~");
}

#[test]
fn backspace_sends_del_by_default() {
    let m = TermMode::default();
    assert_eq!(encode_key(VK_BACK, PLAIN, m).unwrap(), vec![0x7f]);
    let ctrl = Modifiers {
        ctrl: true,
        ..PLAIN
    };
    assert_eq!(encode_key(VK_BACK, ctrl, m).unwrap(), vec![0x08]);
}

#[test]
fn enter_honours_line_feed_mode() {
    assert_eq!(
        encode_key(VK_RETURN, PLAIN, TermMode::default()).unwrap(),
        b"\r"
    );
    assert_eq!(
        encode_key(VK_RETURN, PLAIN, TermMode::default() | TermMode::LINE_FEED_NL).unwrap(),
        b"\r\n"
    );
}

#[test]
fn tab_sends_ht_so_shells_can_complete() {
    let m = TermMode::default();
    assert_eq!(encode_key(VK_TAB, PLAIN, m).unwrap(), vec![0x09]);

    let shift = Modifiers {
        shift: true,
        ..PLAIN
    };
    assert_eq!(encode_key(VK_TAB, shift, m).unwrap(), b"\x1b[Z");
}

#[test]
fn character_keys_are_left_to_wm_char() {
    assert!(encode_key(VK_A, PLAIN, TermMode::default()).is_none());
    assert!(encode_key(VK_SPACE, PLAIN, TermMode::default()).is_none());
}

#[test]
fn sgr_mouse_encodes_button_and_position() {
    let mode = TermMode::default() | TermMode::MOUSE_CLICK | TermMode::MOUSE_SGR;
    assert_eq!(
        encode_mouse(MouseButton::Left, MouseEventKind::Press, 9, 4, PLAIN, mode).unwrap(),
        b"\x1b[<0;10;5M"
    );
    assert_eq!(
        encode_mouse(MouseButton::Left, MouseEventKind::Release, 9, 4, PLAIN, mode).unwrap(),
        b"\x1b[<0;10;5m"
    );
}

#[test]
fn drag_motion_is_reported_in_button_event_mode() {
    // 1002 + 1006 is what tmux and nvim turn on to resize splits.
    let mode = TermMode::default() | TermMode::MOUSE_DRAG | TermMode::MOUSE_SGR;
    // Motion with the left button held: 0 + 32.
    assert_eq!(
        encode_mouse(MouseButton::Left, MouseEventKind::Move, 20, 7, PLAIN, mode).unwrap(),
        b"\x1b[<32;21;8M"
    );
    // ... but bare motion belongs to 1003, not 1002.
    assert!(
        encode_mouse(MouseButton::NoButton, MouseEventKind::Move, 20, 7, PLAIN, mode).is_none()
    );

    let any = TermMode::default() | TermMode::MOUSE_MOTION | TermMode::MOUSE_SGR;
    // No button is code 3, so bare motion is 3 + 32.
    assert_eq!(
        encode_mouse(MouseButton::NoButton, MouseEventKind::Move, 20, 7, PLAIN, any).unwrap(),
        b"\x1b[<35;21;8M"
    );
}

#[test]
fn click_mode_reports_no_motion_at_all() {
    let mode = TermMode::default() | TermMode::MOUSE_CLICK | TermMode::MOUSE_SGR;
    assert!(
        encode_mouse(MouseButton::Left, MouseEventKind::Move, 3, 3, PLAIN, mode).is_none()
    );
    assert!(encode_mouse(MouseButton::Left, MouseEventKind::Press, 3, 3, PLAIN, mode).is_some());
}

#[test]
fn x10_release_keeps_modifier_bits() {
    // No 1006: the legacy encoding, where a release is always button 3.
    let mode = TermMode::default() | TermMode::MOUSE_CLICK;
    let ctrl = Modifiers {
        ctrl: true,
        ..PLAIN
    };
    // Ctrl is 16, release is 3, so the button byte is 32 + 19.
    assert_eq!(
        encode_mouse(MouseButton::Left, MouseEventKind::Release, 0, 0, ctrl, mode).unwrap(),
        vec![0x1b, b'[', b'M', 32 + 19, 33, 33]
    );
}

#[test]
fn the_wheel_has_no_release() {
    let mode = TermMode::default() | TermMode::MOUSE_DRAG | TermMode::MOUSE_SGR;
    assert!(encode_mouse(
        MouseButton::WheelUp,
        MouseEventKind::Release,
        0,
        0,
        PLAIN,
        mode
    )
    .is_none());
    assert_eq!(
        encode_mouse(MouseButton::WheelUp, MouseEventKind::Press, 0, 0, PLAIN, mode).unwrap(),
        b"\x1b[<64;1;1M"
    );
}

#[test]
fn mouse_is_silent_when_the_application_did_not_ask() {
    assert!(encode_mouse(
        MouseButton::Left,
        MouseEventKind::Press,
        0,
        0,
        PLAIN,
        TermMode::default()
    )
    .is_none());
}
