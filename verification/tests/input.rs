use ezcurl::{map_key, Action, AppMode, Direction, KeyCode, KeyEvent, Panel};

fn key(code: KeyCode) -> KeyEvent {
    KeyEvent { code, control: false }
}

#[test]
fn j_and_k_navigate_the_method_list() {
    let down = map_key(key(KeyCode::Char('j')), AppMode::Insert, Panel::Method, false);
    let up = map_key(key(KeyCode::Char('k')), AppMode::Insert, Panel::Method, false);

    assert!(matches!(down, Some(Action::MoveCursor(Direction::Down))));
    assert!(matches!(up, Some(Action::MoveCursor(Direction::Up))));
}

#[test]
fn leader_e_opens_history() {
    let leader = map_key(key(KeyCode::Char(' ')), AppMode::Normal, Panel::Url, false);
    let history = map_key(key(KeyCode::Char('e')), AppMode::Normal, Panel::Url, true);

    assert!(matches!(leader, Some(Action::Leader)));
    assert!(matches!(history, Some(Action::ToggleHistory)));
}

#[test]
fn ctrl_s_sends_in_every_mode() {
    let send = KeyEvent { code: KeyCode::Char('s'), control: true };
    for mode in [AppMode::SelectPanel, AppMode::Normal, AppMode::Insert] {
        assert!(matches!(map_key(send, mode, Panel::Body, false), Some(Action::SendRequest)));
    }
    assert!(matches!(
        map_key(key(KeyCode::Char('s')), AppMode::Insert, Panel::Body, false),
        Some(Action::InsertChar('s'))
    ));
}

#[test]
fn leader_is_cancelled_by_other_keys() {
    assert!(matches!(
        map_key(key(KeyCode::Char('E')), AppMode::Insert, Panel::Url, true),
        Some(Action::ToggleHistory)
    ));
    assert!(matches!(
        map_key(key(KeyCode::Char('x')), AppMode::SelectPanel, Panel::Url, true),
        Some(Action::CancelLeader)
    ));
    assert!(matches!(
        map_key(key(KeyCode::Esc), AppMode::Normal, Panel::Url, true),
        Some(Action::CancelLeader)
    ));
}

#[test]
fn readme_keybindings() {
    assert!(matches!(
        map_key(key(KeyCode::Char('h')), AppMode::SelectPanel, Panel::Url, false),
        Some(Action::Move(Direction::Left))
    ));
    assert!(matches!(
        map_key(key(KeyCode::Char('l')), AppMode::Normal, Panel::Url, false),
        Some(Action::Move(Direction::Right))
    ));
    assert!(matches!(
        map_key(key(KeyCode::Tab), AppMode::SelectPanel, Panel::Url, false),
        Some(Action::NextPanel)
    ));
    assert!(matches!(
        map_key(key(KeyCode::Char('i')), AppMode::Normal, Panel::Url, false),
        Some(Action::EnterInsert)
    ));
    assert!(matches!(
        map_key(key(KeyCode::Esc), AppMode::Insert, Panel::Url, false),
        Some(Action::ExitInsert)
    ));
    assert!(matches!(
        map_key(key(KeyCode::Char('q')), AppMode::SelectPanel, Panel::Url, false),
        Some(Action::Quit)
    ));
}

#[test]
fn unbound_keys_map_to_nothing() {
    assert!(map_key(key(KeyCode::Char('q')), AppMode::Normal, Panel::Url, false).is_none());
    assert!(map_key(key(KeyCode::Other), AppMode::Insert, Panel::Url, false).is_none());
    assert!(map_key(key(KeyCode::Backspace), AppMode::SelectPanel, Panel::Url, false).is_none());
}

#[test]
fn insert_mode_types_chars() {
    assert!(matches!(
        map_key(key(KeyCode::Char('j')), AppMode::Insert, Panel::Url, false),
        Some(Action::InsertChar('j'))
    ));
    assert!(matches!(
        map_key(key(KeyCode::Char('界')), AppMode::Insert, Panel::Method, false),
        Some(Action::InsertChar('界'))
    ));
    assert!(matches!(
        map_key(key(KeyCode::Enter), AppMode::Insert, Panel::Body, false),
        Some(Action::InsertNewline)
    ));
    assert!(matches!(
        map_key(key(KeyCode::Home), AppMode::Insert, Panel::Body, false),
        Some(Action::MoveCursorToStart)
    ));
}

#[test]
fn arrows_move_the_cursor_in_every_mode() {
    for mode in [AppMode::SelectPanel, AppMode::Normal, AppMode::Insert] {
        assert!(matches!(
            map_key(key(KeyCode::Up), mode, Panel::Headers, false),
            Some(Action::MoveCursor(Direction::Up))
        ));
        assert!(matches!(
            map_key(key(KeyCode::Left), mode, Panel::Headers, false),
            Some(Action::MoveCursor(Direction::Left))
        ));
    }
}
