//! A keyboard-driven terminal HTTP client: the text editing, key mapping and
//! history rules, verified.
pub mod action;
pub mod editor;
pub mod editor_laws;
pub mod history;
pub mod input;
pub mod utf8_text;
pub mod width;

pub use action::{Action, Direction};
pub use editor::{Edit, EditorModel, TextEditor};
pub use history::{check_version, HistoryError, HistoryStore, HISTORY_VERSION};
pub use input::{map_key, AppMode, KeyCode, KeyEvent, Panel};
