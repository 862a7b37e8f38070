use xcx::editor::{bytes_of, index_of_byte, width, EditAction, EditKey, KeyInput, LineEditor};
use xcx::repl::InputReader;

fn press(code: EditKey) -> KeyInput {
    KeyInput { code, ctrl: false, release: false }
}

fn ctrl(c: char) -> KeyInput {
    KeyInput { code: EditKey::Char(c), ctrl: true, release: false }
}

fn type_text(e: &mut LineEditor, s: &str) {
    for c in s.chars() {
        assert!(e.accepts(press(EditKey::Char(c))));
        assert_eq!(e.step(press(EditKey::Char(c))), EditAction::Redraw);
    }
}

fn lines(e: &LineEditor) -> Vec<String> {
    (0..e.line_count()).map(|i| e.line(i).iter().collect()).collect()
}

fn key(e: &mut LineEditor, code: EditKey) -> EditAction {
    assert!(e.accepts(press(code)));
    e.step(press(code))
}

#[test]
fn widths_of_characters() {
    assert_eq!(width('a'), 1);
    assert_eq!(width('é'), 2);
    assert_eq!(width('€'), 3);
    assert_eq!(width('😀'), 4);
    assert_eq!(bytes_of(&['a', 'é', '€']), 6);
    assert_eq!(index_of_byte(&['a', 'é', '€'], 3), Some(2));
    assert_eq!(index_of_byte(&['a', 'é', '€'], 2), None);
    assert_eq!(index_of_byte(&['a', 'é', '€'], 6), Some(3));
    assert_eq!(index_of_byte(&['a'], 7), None);
}

#[test]
fn a_new_buffer_is_one_empty_line() {
    let e = LineEditor::new();
    assert_eq!(lines(&e), vec![String::new()]);
    assert_eq!((e.row(), e.col()), (0, 0));
}

#[test]
fn typing_and_submitting_a_program() {
    let mut e = LineEditor::new();
    type_text(&mut e, "i: x = 1;");
    assert_eq!(key(&mut e, EditKey::Enter), EditAction::Redraw);
    type_text(&mut e, ">! x;");
    assert_eq!(key(&mut e, EditKey::Enter), EditAction::Redraw);
    assert_eq!(key(&mut e, EditKey::Enter), EditAction::Redraw);
    type_text(&mut e, "!exec");
    assert_eq!(key(&mut e, EditKey::Enter), EditAction::Submit);
    assert_eq!(e.text(), "i: x = 1;\n>! x;");
}

#[test]
fn a_single_command_line_is_handed_over_as_typed() {
    let mut e = LineEditor::new();
    type_text(&mut e, "  !help ");
    assert_eq!(key(&mut e, EditKey::Enter), EditAction::Submit);
    assert_eq!(e.text(), "  !help ");
}

#[test]
fn exec_alone_hands_over_nothing() {
    let mut e = LineEditor::new();
    type_text(&mut e, "!exec");
    assert_eq!(key(&mut e, EditKey::Enter), EditAction::Submit);
    assert_eq!(lines(&e), vec![String::new()]);
    assert_eq!(e.text(), "");
}

#[test]
fn enter_splits_the_line_at_the_cursor() {
    let mut e = LineEditor::new();
    type_text(&mut e, "abcd");
    key(&mut e, EditKey::Left);
    key(&mut e, EditKey::Left);
    key(&mut e, EditKey::Enter);
    assert_eq!(lines(&e), vec!["ab".to_string(), "cd".to_string()]);
    assert_eq!((e.row(), e.col()), (1, 0));
    key(&mut e, EditKey::Backspace);
    assert_eq!(lines(&e), vec!["abcd".to_string()]);
    assert_eq!((e.row(), e.col()), (0, 2));
}

#[test]
fn backspace_takes_back_a_character() {
    let mut e = LineEditor::new();
    type_text(&mut e, "xy");
    key(&mut e, EditKey::Left);
    type_text(&mut e, "é");
    assert_eq!(lines(&e), vec!["xéy".to_string()]);
    assert_eq!(e.col(), 2);
    key(&mut e, EditKey::Backspace);
    assert_eq!(lines(&e), vec!["xy".to_string()]);
    assert_eq!(e.col(), 1);
}

#[test]
fn a_cursor_inside_a_character_cannot_edit() {
    let mut e = LineEditor::new();
    type_text(&mut e, "é");
    // The cursor moves one byte, into the middle of the character.
    assert_eq!(e.col(), 1);
    assert!(!e.accepts(press(EditKey::Char('a'))));
    assert!(!e.accepts(press(EditKey::Enter)));
    assert!(!e.accepts(press(EditKey::Delete)));
    assert!(e.accepts(press(EditKey::Backspace)));
    assert!(e.accepts(press(EditKey::End)));
    key(&mut e, EditKey::End);
    assert_eq!(e.col(), 2);
    type_text(&mut e, "a");
    assert_eq!(lines(&e), vec!["éa".to_string()]);
}

#[test]
fn tab_inserts_four_spaces() {
    let mut e = LineEditor::new();
    type_text(&mut e, "x");
    key(&mut e, EditKey::Home);
    key(&mut e, EditKey::Tab);
    assert_eq!(lines(&e), vec!["    x".to_string()]);
    assert_eq!(e.col(), 4);
}

#[test]
fn delete_removes_and_joins() {
    let mut e = LineEditor::new();
    type_text(&mut e, "ab");
    key(&mut e, EditKey::Enter);
    type_text(&mut e, "cd");
    key(&mut e, EditKey::Up);
    assert_eq!((e.row(), e.col()), (0, 2));
    key(&mut e, EditKey::Delete);
    assert_eq!(lines(&e), vec!["abcd".to_string()]);
    key(&mut e, EditKey::Home);
    key(&mut e, EditKey::Delete);
    assert_eq!(lines(&e), vec!["bcd".to_string()]);
    key(&mut e, EditKey::End);
    key(&mut e, EditKey::Delete);
    assert_eq!(lines(&e), vec!["bcd".to_string()]);
}

#[test]
fn arrows_move_across_lines() {
    let mut e = LineEditor::new();
    type_text(&mut e, "long line");
    key(&mut e, EditKey::Enter);
    type_text(&mut e, "ab");
    key(&mut e, EditKey::Left);
    key(&mut e, EditKey::Left);
    key(&mut e, EditKey::Left);
    assert_eq!((e.row(), e.col()), (0, 9));
    key(&mut e, EditKey::Right);
    assert_eq!((e.row(), e.col()), (1, 0));
    key(&mut e, EditKey::End);
    key(&mut e, EditKey::Up);
    assert_eq!((e.row(), e.col()), (0, 2));
    key(&mut e, EditKey::End);
    key(&mut e, EditKey::Down);
    assert_eq!((e.row(), e.col()), (1, 2));
    key(&mut e, EditKey::Down);
    assert_eq!((e.row(), e.col()), (1, 2));
    assert!(e.accepts(ctrl('a')));
    e.step(ctrl('a'));
    assert_eq!(e.col(), 0);
    e.step(ctrl('e'));
    assert_eq!(e.col(), 2);
}

#[test]
fn control_keys_quit_and_end_input() {
    let mut e = LineEditor::new();
    assert_eq!(e.step(ctrl('d')), EditAction::EndOfInput);
    assert_eq!(e.step(ctrl('c')), EditAction::Quit);
    type_text(&mut e, "a");
    assert_eq!(e.step(ctrl('d')), EditAction::Redraw);
    assert_eq!(lines(&e), vec!["a".to_string()]);
    e.step(ctrl('b'));
    assert_eq!(lines(&e), vec!["ab".to_string()]);
}

#[test]
fn releases_and_other_keys_change_nothing() {
    let mut e = LineEditor::new();
    type_text(&mut e, "a");
    let release = KeyInput { code: EditKey::Char('z'), ctrl: false, release: true };
    assert_eq!(e.step(release), EditAction::Ignore);
    assert_eq!(key(&mut e, EditKey::Other), EditAction::Redraw);
    assert_eq!(lines(&e), vec!["a".to_string()]);
}

#[test]
fn trailing_blank_lines_are_dropped() {
    let mut e = LineEditor::new();
    type_text(&mut e, "a;");
    key(&mut e, EditKey::Enter);
    type_text(&mut e, "   ");
    key(&mut e, EditKey::Enter);
    key(&mut e, EditKey::Up);
    key(&mut e, EditKey::Up);
    key(&mut e, EditKey::End);
    key(&mut e, EditKey::Enter);
    type_text(&mut e, "b;");
    // Lines: "a;", "b;", "   ", "" with the cursor on "b;".
    key(&mut e, EditKey::Down);
    key(&mut e, EditKey::Down);
    type_text(&mut e, "!exec");
    assert_eq!(key(&mut e, EditKey::Enter), EditAction::Submit);
    assert_eq!(e.text(), "a;\nb;");
}

#[test]
fn a_reader_starts_each_input_empty() {
    let reader = InputReader::new();
    let mut e = reader.start();
    type_text(&mut e, "x");
    let e2 = reader.start();
    assert_eq!(lines(&e2), vec![String::new()]);
    assert_eq!((e2.row(), e2.col()), (0, 0));
}
