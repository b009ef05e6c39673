//! Which action a key press stands for, by mode and focused panel.
use crate::action::{Action, Direction};
use vstd::prelude::*;

verus! {

/// The mode the application is in.
#[derive(Debug, Clone, Copy, PartialEq, Eq, Structural)]
pub enum AppMode {
    /// Choosing a panel to work in.
    SelectPanel,
    /// Inside a panel, navigating.
    Normal,
    /// Inside a panel, typing.
    Insert,
}

/// A panel of the screen.
#[derive(Debug, Clone, Copy, PartialEq, Eq, Structural)]
pub enum Panel {
    Method,
    Url,
    Headers,
    Body,
    Response,
}

/// A key as the terminal reports it; keys that no binding names are `Other`.
#[derive(Debug, Clone, Copy, PartialEq, Eq, Structural)]
pub enum KeyCode {
    Char(char),
    Enter,
    Esc,
    Tab,
    Backspace,
    Delete,
    Left,
    Right,
    Up,
    Down,
    Home,
    End,
    Other,
}

/// A key press: the key, and whether Control was held.
#[derive(Debug, Clone, Copy, PartialEq, Eq, Structural)]
pub struct KeyEvent {
    pub code: KeyCode,
    pub control: bool,
}

/// The cursor keys move the cursor the same way in every mode.
pub open spec fn arrow_action(code: KeyCode) -> Option<Action> {
    match code {
        KeyCode::Left => Some(Action::MoveCursor(Direction::Left)),
        KeyCode::Right => Some(Action::MoveCursor(Direction::Right)),
        KeyCode::Up => Some(Action::MoveCursor(Direction::Up)),
        KeyCode::Down => Some(Action::MoveCursor(Direction::Down)),
        _ => None,
    }
}

/// `h`, `j`, `k` and `l` move between panels, as in Vim.
pub open spec fn vim_move(c: char) -> Option<Action> {
    if c == 'h' {
        Some(Action::Move(Direction::Left))
    } else if c == 'j' {
        Some(Action::Move(Direction::Down))
    } else if c == 'k' {
        Some(Action::Move(Direction::Up))
    } else if c == 'l' {
        Some(Action::Move(Direction::Right))
    } else {
        None
    }
}

/// The bindings while choosing a panel.
pub open spec fn select_panel_action(code: KeyCode) -> Option<Action> {
    match code {
        KeyCode::Enter => Some(Action::EnterPanel),
        KeyCode::Tab => Some(Action::NextPanel),
        KeyCode::Char(c) => if vim_move(c) is Some {
            vim_move(c)
        } else if c == 'q' {
            Some(Action::Quit)
        } else if c == ' ' {
            Some(Action::Leader)
        } else {
            None
        },
        _ => arrow_action(code),
    }
}

/// The bindings while navigating inside a panel.
pub open spec fn normal_action(code: KeyCode) -> Option<Action> {
    match code {
        KeyCode::Esc => Some(Action::ExitPanel),
        KeyCode::Char(c) => if vim_move(c) is Some {
            vim_move(c)
        } else if c == '0' {
            Some(Action::MoveCursorToStart)
        } else if c == '$' {
            Some(Action::MoveCursorToEnd)
        } else if c == ' ' {
            Some(Action::Leader)
        } else if c == 'i' {
            Some(Action::EnterInsert)
        } else {
            None
        },
        _ => arrow_action(code),
    }
}

/// The bindings while typing; on the method panel `j` and `k` choose the
/// method instead of being typed.
pub open spec fn insert_action(code: KeyCode, panel: Panel) -> Option<Action> {
    match code {
        KeyCode::Esc => Some(Action::ExitInsert),
        KeyCode::Home => Some(Action::MoveCursorToStart),
        KeyCode::End => Some(Action::MoveCursorToEnd),
        KeyCode::Tab => Some(Action::NextField),
        KeyCode::Enter => Some(Action::InsertNewline),
        KeyCode::Backspace => Some(Action::Backspace),
        KeyCode::Delete => Some(Action::Delete),
        KeyCode::Char(c) => if panel == Panel::Method && c == 'j' {
            Some(Action::MoveCursor(Direction::Down))
        } else if panel == Panel::Method && c == 'k' {
            Some(Action::MoveCursor(Direction::Up))
        } else {
            Some(Action::InsertChar(c))
        },
        _ => arrow_action(code),
    }
}

/// The action of a key press: after the leader key, `e` or `E` opens the
/// history and any other key cancels the leader; otherwise Ctrl+S sends the
/// request in every mode, and other keys follow the mode's bindings.
pub open spec fn key_action(key: KeyEvent, mode: AppMode, panel: Panel, leader_pending: bool) -> Option<
    Action,
> {
    if leader_pending {
        if key.code == KeyCode::Char('e') || key.code == KeyCode::Char('E') {
            Some(Action::ToggleHistory)
        } else {
            Some(Action::CancelLeader)
        }
    } else if key.code == KeyCode::Char('s') && key.control {
        Some(Action::SendRequest)
    } else {
        match mode {
            AppMode::SelectPanel => select_panel_action(key.code),
            AppMode::Normal => normal_action(key.code),
            AppMode::Insert => insert_action(key.code, panel),
        }
    }
}

/// The action that `key` stands for in `mode`, with `panel` focused and the
/// leader key pressed just before or not; `None` for a key with no binding.
pub fn map_key(key: KeyEvent, mode: AppMode, panel: Panel, leader_pending: bool) -> (action:
    Option<Action>)
    ensures
        action == key_action(key, mode, panel, leader_pending),
{
    if leader_pending {
        return match key.code {
            KeyCode::Char('e') | KeyCode::Char('E') => Some(Action::ToggleHistory),
            _ => Some(Action::CancelLeader),
        };
    }
    if key.code == KeyCode::Char('s') && key.control {
        return Some(Action::SendRequest);
    }
    match mode {
        AppMode::SelectPanel => match key.code {
            KeyCode::Enter => Some(Action::EnterPanel),
            KeyCode::Char('h') => Some(Action::Move(Direction::Left)),
            KeyCode::Char('j') => Some(Action::Move(Direction::Down)),
            KeyCode::Char('k') => Some(Action::Move(Direction::Up)),
            KeyCode::Char('l') => Some(Action::Move(Direction::Right)),
            KeyCode::Left => Some(Action::MoveCursor(Direction::Left)),
            KeyCode::Right => Some(Action::MoveCursor(Direction::Right)),
            KeyCode::Up => Some(Action::MoveCursor(Direction::Up)),
            KeyCode::Down => Some(Action::MoveCursor(Direction::Down)),
            KeyCode::Char('q') => Some(Action::Quit),
            KeyCode::Char(' ') => Some(Action::Leader),
            KeyCode::Tab => Some(Action::NextPanel),
            _ => None,
        },
        AppMode::Normal => match key.code {
            KeyCode::Esc => Some(Action::ExitPanel),
            KeyCode::Char('h') => Some(Action::Move(Direction::Left)),
            KeyCode::Char('j') => Some(Action::Move(Direction::Down)),
            KeyCode::Char('k') => Some(Action::Move(Direction::Up)),
            KeyCode::Char('l') => Some(Action::Move(Direction::Right)),
            KeyCode::Left => Some(Action::MoveCursor(Direction::Left)),
            KeyCode::Right => Some(Action::MoveCursor(Direction::Right)),
            KeyCode::Up => Some(Action::MoveCursor(Direction::Up)),
            KeyCode::Down => Some(Action::MoveCursor(Direction::Down)),
            KeyCode::Char('0') => Some(Action::MoveCursorToStart),
            KeyCode::Char('$') => Some(Action::MoveCursorToEnd),
            KeyCode::Char(' ') => Some(Action::Leader),
            KeyCode::Char('i') => Some(Action::EnterInsert),
            _ => None,
        },
        AppMode::Insert => match key.code {
            KeyCode::Esc => Some(Action::ExitInsert),
            KeyCode::Left => Some(Action::MoveCursor(Direction::Left)),
            KeyCode::Right => Some(Action::MoveCursor(Direction::Right)),
            KeyCode::Up => Some(Action::MoveCursor(Direction::Up)),
            KeyCode::Down => Some(Action::MoveCursor(Direction::Down)),
            KeyCode::Home => Some(Action::MoveCursorToStart),
            KeyCode::End => Some(Action::MoveCursorToEnd),
            KeyCode::Tab => Some(Action::NextField),
            KeyCode::Enter => Some(Action::InsertNewline),
            KeyCode::Backspace => Some(Action::Backspace),
            KeyCode::Delete => Some(Action::Delete),
            KeyCode::Char('j') if panel == Panel::Method => {
                Some(Action::MoveCursor(Direction::Down))
            },
            KeyCode::Char('k') if panel == Panel::Method => Some(
                Action::MoveCursor(Direction::Up),
            ),
            KeyCode::Char(c) => Some(Action::InsertChar(c)),
            _ => None,
        },
    }
}

/// Ctrl+S sends the request whatever the mode and the focused panel, unless
/// the leader key was just pressed.
pub proof fn law_ctrl_s_sends_everywhere(mode: AppMode, panel: Panel)
    ensures
        key_action(KeyEvent { code: KeyCode::Char('s'), control: true }, mode, panel, false)
            == Some(Action::SendRequest),
{
}

/// After the leader key, every key is answered: `e` or `E` opens the history,
/// any other key cancels the leader.
pub proof fn law_leader_always_answered(key: KeyEvent, mode: AppMode, panel: Panel)
    ensures
        key_action(key, mode, panel, true) == (if key.code == KeyCode::Char('e') || key.code
            == KeyCode::Char('E') {
            Some(Action::ToggleHistory)
        } else {
            Some(Action::CancelLeader)
        }),
        key_action(key, mode, panel, true) is Some,
{
}

/// `h`, `j`, `k`, `l` move between panels in both navigating modes, whatever
/// panel is focused.
pub proof fn law_vim_keys_navigate(mode: AppMode, panel: Panel, control: bool)
    requires
        mode != AppMode::Insert,
    ensures
        key_action(KeyEvent { code: KeyCode::Char('h'), control }, mode, panel, false) == Some(
            Action::Move(Direction::Left),
        ),
        key_action(KeyEvent { code: KeyCode::Char('j'), control }, mode, panel, false) == Some(
            Action::Move(Direction::Down),
        ),
        key_action(KeyEvent { code: KeyCode::Char('k'), control }, mode, panel, false) == Some(
            Action::Move(Direction::Up),
        ),
        key_action(KeyEvent { code: KeyCode::Char('l'), control }, mode, panel, false) == Some(
            Action::Move(Direction::Right),
        ),
{
}

/// While typing, a char key types itself, except Ctrl+S, and `j` and `k`
/// on the method panel.
pub proof fn law_insert_mode_types_chars(c: char, control: bool, panel: Panel)
    requires
        !(c == 's' && control),
        !(panel == Panel::Method && (c == 'j' || c == 'k')),
    ensures
        key_action(KeyEvent { code: KeyCode::Char(c), control }, AppMode::Insert, panel, false)
            == Some(Action::InsertChar(c)),
{
}

/// The cursor keys move the cursor in every mode.
pub proof fn law_arrows_move_the_cursor(code: KeyCode, mode: AppMode, panel: Panel, control: bool)
    requires
        arrow_action(code) is Some,
    ensures
        key_action(KeyEvent { code, control }, mode, panel, false) == arrow_action(code),
{
}

/// While typing, the editing keys do what they name, on every panel and
/// whether Control is held or not: Backspace erases backwards, Delete
/// forwards, Enter breaks the line, Home and End go to the line's ends, Tab
/// goes to the next field and Esc leaves typing.
pub proof fn law_insert_mode_editing_keys(panel: Panel, control: bool)
    ensures
        key_action(KeyEvent { code: KeyCode::Backspace, control }, AppMode::Insert, panel, false)
            == Some(Action::Backspace),
        key_action(KeyEvent { code: KeyCode::Delete, control }, AppMode::Insert, panel, false)
            == Some(Action::Delete),
        key_action(KeyEvent { code: KeyCode::Enter, control }, AppMode::Insert, panel, false)
            == Some(Action::InsertNewline),
        key_action(KeyEvent { code: KeyCode::Home, control }, AppMode::Insert, panel, false)
            == Some(Action::MoveCursorToStart),
        key_action(KeyEvent { code: KeyCode::End, control }, AppMode::Insert, panel, false)
            == Some(Action::MoveCursorToEnd),
        key_action(KeyEvent { code: KeyCode::Tab, control }, AppMode::Insert, panel, false)
            == Some(Action::NextField),
        key_action(KeyEvent { code: KeyCode::Esc, control }, AppMode::Insert, panel, false)
            == Some(Action::ExitInsert),
{
}

/// While choosing a panel, on every panel and whether Control is held or
/// not: Enter enters the panel, Tab goes to the next one, `q` quits and Space
/// is the leader key.
pub proof fn law_select_panel_keys(panel: Panel, control: bool)
    ensures
        key_action(KeyEvent { code: KeyCode::Enter, control }, AppMode::SelectPanel, panel, false)
            == Some(Action::EnterPanel),
        key_action(KeyEvent { code: KeyCode::Tab, control }, AppMode::SelectPanel, panel, false)
            == Some(Action::NextPanel),
        key_action(KeyEvent { code: KeyCode::Char('q'), control }, AppMode::SelectPanel, panel, false)
            == Some(Action::Quit),
        key_action(KeyEvent { code: KeyCode::Char(' '), control }, AppMode::SelectPanel, panel, false)
            == Some(Action::Leader),
{
}

/// While navigating inside a panel, on every panel and whether Control is
/// held or not: Esc leaves the panel, `i` starts typing, `0` and `$` go to the
/// line's ends and Space is the leader key.
pub proof fn law_normal_mode_keys(panel: Panel, control: bool)
    ensures
        key_action(KeyEvent { code: KeyCode::Esc, control }, AppMode::Normal, panel, false)
            == Some(Action::ExitPanel),
        key_action(KeyEvent { code: KeyCode::Char('i'), control }, AppMode::Normal, panel, false)
            == Some(Action::EnterInsert),
        key_action(KeyEvent { code: KeyCode::Char('0'), control }, AppMode::Normal, panel, false)
            == Some(Action::MoveCursorToStart),
        key_action(KeyEvent { code: KeyCode::Char('$'), control }, AppMode::Normal, panel, false)
            == Some(Action::MoveCursorToEnd),
        key_action(KeyEvent { code: KeyCode::Char(' '), control }, AppMode::Normal, panel, false)
            == Some(Action::Leader),
{
}

/// Keys without a binding do nothing: an unnamed key in every mode; in the
/// navigating modes, the editing keys and every char that names no binding
/// there.
pub proof fn law_unbound_keys_do_nothing(c: char, panel: Panel, control: bool)
    ensures
        forall|mode: AppMode|
            key_action(KeyEvent { code: KeyCode::Other, control }, mode, panel, false) is None,
        forall|code: KeyCode|
            (code == KeyCode::Backspace || code == KeyCode::Delete || code == KeyCode::Home || code
                == KeyCode::End || code == KeyCode::Esc) ==> key_action(
                KeyEvent { code, control },
                AppMode::SelectPanel,
                panel,
                false,
            ) is None,
        forall|code: KeyCode|
            (code == KeyCode::Backspace || code == KeyCode::Delete || code == KeyCode::Home || code
                == KeyCode::End || code == KeyCode::Enter || code == KeyCode::Tab) ==> key_action(
                KeyEvent { code, control },
                AppMode::Normal,
                panel,
                false,
            ) is None,
        !(c == 's' && control) && c != 'h' && c != 'j' && c != 'k' && c != 'l' && c != 'q' && c
            != ' ' ==> key_action(
            KeyEvent { code: KeyCode::Char(c), control },
            AppMode::SelectPanel,
            panel,
            false,
        ) is None,
        !(c == 's' && control) && c != 'h' && c != 'j' && c != 'k' && c != 'l' && c != '0' && c
            != '$' && c != ' ' && c != 'i' ==> key_action(
            KeyEvent { code: KeyCode::Char(c), control },
            AppMode::Normal,
            panel,
            false,
        ) is None,
{
}

} // verus!
