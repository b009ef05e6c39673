//! What a key press asks the application to do.
use vstd::prelude::*;

verus! {

/// A direction of movement.
#[derive(Debug, Clone, Copy)]
pub enum Direction {
    Up,
    Down,
    Left,
    Right,
}

/// An action that a key press maps to.
pub enum Action {
    Move(Direction),
    MoveCursor(Direction),
    MoveCursorToStart,
    MoveCursorToEnd,
    NextField,
    PreviousField,
    NextPanel,
    EnterPanel,
    ExitPanel,
    EnterInsert,
    ExitInsert,
    ToggleHistory,
    Leader,
    CancelLeader,
    Activate,
    Close,
    SendRequest,
    InsertChar(char),
    InsertNewline,
    Backspace,
    Delete,
    Quit,
}

} // verus!
