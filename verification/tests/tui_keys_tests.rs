use ccelerate::tui_keys::{
    at_last_row, auto_scroll_after, tui_action, AutoScroll, KeyCodeInput, KeyInput, TableMove,
};

fn key(code: KeyCodeInput, control: bool) -> KeyInput {
    KeyInput { code, control }
}

#[test]
fn quit_keys() {
    assert!(tui_action(&key(KeyCodeInput::Char('q'), false)).quit);
    assert!(tui_action(&key(KeyCodeInput::Esc, false)).quit);
    assert!(tui_action(&key(KeyCodeInput::Char('c'), true)).quit);
    assert!(!tui_action(&key(KeyCodeInput::Char('c'), false)).quit);
    let q = tui_action(&key(KeyCodeInput::Char('q'), false));
    assert_eq!(q.table_move, TableMove::Stay);
    assert!(!q.save);
}

#[test]
fn moving_keys() {
    let up = tui_action(&key(KeyCodeInput::Up, false));
    assert_eq!(up.table_move, TableMove::Previous);
    assert_eq!(up.auto_scroll, AutoScroll::To(false));
    let down = tui_action(&key(KeyCodeInput::Down, false));
    assert_eq!(down.table_move, TableMove::Next);
    assert_eq!(down.auto_scroll, AutoScroll::AtLastRow);
    let home = tui_action(&key(KeyCodeInput::Home, false));
    assert_eq!(home.table_move, TableMove::First);
    assert_eq!(home.auto_scroll, AutoScroll::To(false));
    let end = tui_action(&key(KeyCodeInput::End, false));
    assert_eq!(end.table_move, TableMove::Last);
    assert_eq!(end.auto_scroll, AutoScroll::To(true));
}

#[test]
fn save_and_other_keys() {
    let s = tui_action(&key(KeyCodeInput::Char('s'), false));
    assert!(s.save && !s.quit);
    let other = tui_action(&key(KeyCodeInput::Other, false));
    assert!(!other.quit && !other.save);
    assert_eq!(other.table_move, TableMove::Stay);
    assert_eq!(other.auto_scroll, AutoScroll::Keep);
}

#[test]
fn following_after_down() {
    assert!(at_last_row(Some(2), 3));
    assert!(!at_last_row(Some(1), 3));
    assert!(!at_last_row(Some(0), 0));
    assert!(!at_last_row(None, 0));
    let down = tui_action(&key(KeyCodeInput::Down, false));
    assert!(auto_scroll_after(&down, false, true));
    assert!(!auto_scroll_after(&down, true, false));
    let other = tui_action(&key(KeyCodeInput::Other, false));
    assert!(auto_scroll_after(&other, true, false));
}
