use questfleet::keys::{
    normalize, normalize_mouse, Input, KeyCode, KeyEvent, MouseButton, MouseEvent, MouseEventKind,
    MouseInput,
};

fn key(code: KeyCode) -> KeyEvent {
    KeyEvent {
        code,
        control: false,
        release: false,
    }
}

fn ctrl(c: char) -> KeyEvent {
    KeyEvent {
        control: true,
        ..key(KeyCode::Char(c))
    }
}

#[test]
fn ctrl_j_and_ctrl_m_are_enter() {
    assert_eq!(normalize(ctrl('j')), Some(Input::Enter));
    assert_eq!(normalize(ctrl('J')), Some(Input::Enter));
    assert_eq!(normalize(ctrl('m')), Some(Input::Enter));
    assert_eq!(normalize(key(KeyCode::Enter)), Some(Input::Enter));
    // A bare `j` stays a movement key.
    assert_eq!(normalize(key(KeyCode::Char('j'))), Some(Input::Char('j')));
}

#[test]
fn other_ctrl_keys_keep_their_identity_lowercased() {
    assert_eq!(normalize(ctrl('c')), Some(Input::Ctrl('c')));
    assert_eq!(normalize(ctrl('C')), Some(Input::Ctrl('c')));
}

#[test]
fn shifted_characters_arrive_as_characters() {
    let shifted = key(KeyCode::Char('R'));
    assert_eq!(normalize(shifted), Some(Input::Char('R')));
}

#[test]
fn navigation_keys_map_across() {
    for (code, want) in [
        (KeyCode::Up, Input::Up),
        (KeyCode::Down, Input::Down),
        (KeyCode::Left, Input::Left),
        (KeyCode::Right, Input::Right),
        (KeyCode::Tab, Input::Tab),
        (KeyCode::BackTab, Input::BackTab),
        (KeyCode::Esc, Input::Esc),
        (KeyCode::PageUp, Input::PageUp),
        (KeyCode::PageDown, Input::PageDown),
        (KeyCode::Home, Input::Home),
        (KeyCode::End, Input::End),
        (KeyCode::Backspace, Input::Backspace),
        (KeyCode::Delete, Input::Delete),
    ] {
        assert_eq!(normalize(key(code)), Some(want), "{code:?}");
    }
}

#[test]
fn releases_and_unknown_keys_are_dropped() {
    let mut release = key(KeyCode::Char('q'));
    release.release = true;
    assert_eq!(normalize(release), None);
    assert_eq!(normalize(key(KeyCode::F(1))), None);
    assert_eq!(normalize(key(KeyCode::Null)), None);
}

#[test]
fn mouse_events_reduce_to_click_and_scroll() {
    let at = |kind| MouseEvent {
        kind,
        column: 7,
        row: 3,
    };
    assert_eq!(
        normalize_mouse(at(MouseEventKind::Down(MouseButton::Left))),
        Some(MouseInput::Click { col: 7, row: 3 })
    );
    assert_eq!(
        normalize_mouse(at(MouseEventKind::ScrollUp)),
        Some(MouseInput::ScrollUp)
    );
    assert_eq!(
        normalize_mouse(at(MouseEventKind::ScrollDown)),
        Some(MouseInput::ScrollDown)
    );
    assert_eq!(normalize_mouse(at(MouseEventKind::Moved)), None);
    assert_eq!(
        normalize_mouse(at(MouseEventKind::Down(MouseButton::Right))),
        None
    );
}

#[test]
fn digits_are_readable_off_an_input() {
    assert_eq!(Input::Char('3').digit(), Some(3));
    assert_eq!(Input::Char('x').digit(), None);
    assert_eq!(Input::Enter.digit(), None);
}
