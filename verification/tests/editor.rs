use ezcurl::editor::walk_columns;
use ezcurl::{Direction, Edit, TextEditor};

#[test]
fn edits_at_the_cursor_instead_of_the_end() {
    let mut editor = TextEditor::new("helo");

    editor.edit(Edit::Move(Direction::Left));
    editor.edit(Edit::Insert('l'));

    assert_eq!(editor.text(), "hello");
    assert_eq!(editor.cursor_position(), (4, 0));
}

#[test]
fn moves_between_lines_and_keeps_the_column() {
    let mut editor = TextEditor::new("one\ntwelve");

    editor.edit(Edit::Move(Direction::Left));
    editor.edit(Edit::Move(Direction::Left));
    editor.edit(Edit::Move(Direction::Up));

    assert_eq!(editor.cursor_position(), (3, 0));
}

#[test]
fn handles_utf8_boundaries() {
    let mut editor = TextEditor::new("cafe");

    editor.edit(Edit::Move(Direction::Left));
    editor.edit(Edit::Backspace);
    editor.edit(Edit::Insert('é'));

    assert_eq!(editor.text(), "caée");
    assert_eq!(editor.cursor_position(), (3, 0));
}

#[test]
fn measures_wide_characters_as_the_terminal_displays_them() {
    let mut editor = TextEditor::new("界a");

    editor.edit(Edit::Move(Direction::Left));

    assert_eq!(editor.cursor_position(), (2, 0));
}

#[test]
fn new_editor_starts_at_the_end() {
    let editor = TextEditor::new("abc");
    assert!(editor.is_at_end());
    assert!(!editor.is_at_start());
    assert_eq!(editor.cursor_position(), (3, 0));
}

#[test]
fn default_editor_is_empty() {
    let editor = TextEditor::default();
    assert_eq!(editor.text(), "");
    assert!(editor.is_at_start());
    assert!(editor.is_at_end());
    assert_eq!(editor.cursor_position(), (0, 0));
}

#[test]
fn backspace_undoes_an_insert() {
    let mut editor = TextEditor::new("añb");
    editor.edit(Edit::Move(Direction::Left));
    editor.edit(Edit::Insert('界'));
    assert_eq!(editor.text(), "añ界b");
    editor.edit(Edit::Backspace);
    assert_eq!(editor.text(), "añb");
    assert_eq!(editor.cursor_position(), (2, 0));
}

#[test]
fn delete_after_stepping_back_undoes_an_insert() {
    let mut editor = TextEditor::new("xy");
    editor.edit(Edit::Move(Direction::Left));
    editor.edit(Edit::Insert('€'));
    editor.edit(Edit::Move(Direction::Left));
    editor.edit(Edit::Delete);
    assert_eq!(editor.text(), "xy");
    assert_eq!(editor.cursor_position(), (1, 0));
}

#[test]
fn left_then_right_returns() {
    let mut editor = TextEditor::new("ab\ncd");
    editor.edit(Edit::Move(Direction::Left));
    editor.edit(Edit::Move(Direction::Left));
    editor.edit(Edit::Move(Direction::Left));
    assert_eq!(editor.cursor_position(), (2, 0));
    editor.edit(Edit::Move(Direction::Right));
    assert_eq!(editor.cursor_position(), (0, 1));
    assert_eq!(editor.text(), "ab\ncd");
}

#[test]
fn backspace_at_start_and_delete_at_end_change_nothing() {
    let mut editor = TextEditor::new("ab");
    editor.edit(Edit::Delete);
    assert_eq!(editor.text(), "ab");
    assert!(editor.is_at_end());
    editor.edit(Edit::Home);
    assert!(editor.is_at_start());
    editor.edit(Edit::Backspace);
    editor.edit(Edit::Move(Direction::Left));
    assert_eq!(editor.text(), "ab");
    assert!(editor.is_at_start());
}

#[test]
fn delete_removes_a_multibyte_char() {
    let mut editor = TextEditor::new("a界b");
    editor.edit(Edit::Home);
    editor.edit(Edit::Move(Direction::Right));
    editor.edit(Edit::Delete);
    assert_eq!(editor.text(), "ab");
    assert_eq!(editor.cursor_position(), (1, 0));
}

#[test]
fn home_and_end_stay_on_the_line() {
    let mut editor = TextEditor::new("first\nsecond\nthird");
    editor.edit(Edit::Move(Direction::Up));
    assert_eq!(editor.cursor_position(), (5, 1));
    editor.edit(Edit::Home);
    assert_eq!(editor.cursor_position(), (0, 1));
    editor.edit(Edit::Home);
    assert_eq!(editor.cursor_position(), (0, 1));
    editor.edit(Edit::End);
    assert_eq!(editor.cursor_position(), (6, 1));
    editor.edit(Edit::End);
    assert_eq!(editor.cursor_position(), (6, 1));
    assert_eq!(editor.text(), "first\nsecond\nthird");
}

#[test]
fn vertical_moves_stop_at_the_first_and_last_line() {
    let mut editor = TextEditor::new("ab\ncd");
    editor.edit(Edit::Move(Direction::Down));
    assert_eq!(editor.cursor_position(), (2, 1));
    editor.edit(Edit::Move(Direction::Up));
    assert_eq!(editor.cursor_position(), (2, 0));
    editor.edit(Edit::Move(Direction::Up));
    assert_eq!(editor.cursor_position(), (2, 0));
    editor.edit(Edit::Move(Direction::Down));
    assert_eq!(editor.cursor_position(), (2, 1));
}

#[test]
fn moving_to_a_shorter_line_goes_to_its_end() {
    let mut editor = TextEditor::new("ab\nlonger line");
    editor.edit(Edit::Move(Direction::Up));
    assert_eq!(editor.cursor_position(), (2, 0));
    editor.edit(Edit::Insert('!'));
    assert_eq!(editor.text(), "ab!\nlonger line");
}

#[test]
fn vertical_moves_count_wide_characters() {
    let mut editor = TextEditor::new("界界x\nabcd");
    editor.edit(Edit::Move(Direction::Up));
    assert_eq!(editor.cursor_position(), (4, 0));
    editor.edit(Edit::Insert('!'));
    assert_eq!(editor.text(), "界界!x\nabcd");
}

#[test]
fn vertical_move_does_not_split_a_wide_character() {
    let mut editor = TextEditor::new("界x\na");
    editor.edit(Edit::Move(Direction::Up));
    assert_eq!(editor.cursor_position(), (0, 0));
    editor.edit(Edit::Insert('!'));
    assert_eq!(editor.text(), "!界x\na");
}

#[test]
fn insert_newline_starts_a_new_line() {
    let mut editor = TextEditor::new("ab");
    editor.edit(Edit::Move(Direction::Left));
    editor.edit(Edit::Insert('\n'));
    assert_eq!(editor.text(), "a\nb");
    assert_eq!(editor.cursor_position(), (0, 1));
}

#[test]
fn walking_columns_stops_before_an_overshooting_char() {
    assert_eq!(walk_columns(&[Some(2), Some(1), None], 2), 1);
    assert_eq!(walk_columns(&[Some(2), Some(1), None], 3), 2);
    assert_eq!(walk_columns(&[Some(2), Some(1)], 1), 0);
    assert_eq!(walk_columns(&[None, Some(1)], 0), 0);
    assert_eq!(walk_columns(&[Some(1), Some(0), Some(1)], 1), 1);
    assert_eq!(walk_columns(&[Some(1), None, Some(1)], 5), 3);
    assert_eq!(walk_columns(&[], 4), 0);
}
