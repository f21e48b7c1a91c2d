use dottodot_studio::editor::{EditorState, SequenceItem};
use dottodot_studio::status::{
    jump_status, point_selection_status, remove_point_status, renumber_following_status,
    renumber_from_start_status, same_text, selected_point_text,
};

fn editor_with_empty_sequence(name: &str) -> EditorState {
    let mut editor = EditorState::default();
    editor.sequences = vec![SequenceItem::fresh(name.to_string())];
    editor.selected_sequence = Some(0);
    editor
}

#[test]
fn same_text_compares_characters() {
    assert!(same_text("abc", "abc"));
    assert!(same_text("", ""));
    assert!(!same_text("abc", "abd"));
    assert!(!same_text("abc", "ab"));
    assert!(same_text("grün", "grün"));
}

#[test]
fn jump_status_reports_success() {
    let editor = EditorState::default();
    let ok: Result<String, &str> = Ok("Outline".to_string());
    assert_eq!(jump_status(&editor, false, &ok), "Jumped to first point in Outline");
    assert_eq!(jump_status(&editor, true, &ok), "Jumped to last point in Outline");
}

#[test]
fn jump_status_names_an_empty_sequence() {
    let mut editor = editor_with_empty_sequence("Outline");
    let err: Result<String, &str> = Err("Sequence has no points");
    assert_eq!(jump_status(&editor, false, &err), "Sequence Outline has no points");
    editor.selected_sequence = Some(3);
    assert_eq!(jump_status(&editor, false, &err), "Selected sequence is invalid");
    editor.selected_sequence = None;
    assert_eq!(jump_status(&editor, true, &err), "No sequence selected");
}

#[test]
fn jump_status_passes_known_errors_and_falls_back() {
    let editor = EditorState::default();
    let none: Result<String, &str> = Err("No sequence selected");
    assert_eq!(jump_status(&editor, true, &none), "No sequence selected");
    let invalid: Result<String, &str> = Err("Selected sequence is invalid");
    assert_eq!(jump_status(&editor, true, &invalid), "Selected sequence is invalid");
    let other: Result<String, &str> = Err("Something else");
    assert_eq!(jump_status(&editor, false, &other), "Could not jump to first point");
    assert_eq!(jump_status(&editor, true, &other), "Could not jump to last point");
}

#[test]
fn point_selection_status_texts() {
    let editor = editor_with_empty_sequence("Wing");
    let ok: Result<(i32, String), &str> = Ok((-7, "Wing".to_string()));
    assert_eq!(point_selection_status(&editor, true, &ok), "Selected point -7 in Wing");
    let empty: Result<(i32, String), &str> = Err("Sequence has no points");
    assert_eq!(point_selection_status(&editor, false, &empty), "Sequence Wing has no points");
    let other: Result<(i32, String), &str> = Err("?");
    assert_eq!(point_selection_status(&editor, true, &other), "Could not select previous point");
    assert_eq!(point_selection_status(&editor, false, &other), "Could not select next point");
}

#[test]
fn selected_point_text_formats_value() {
    assert_eq!(selected_point_text(42, "Tail"), "Selected point 42 in Tail");
    assert_eq!(selected_point_text(0, "T"), "Selected point 0 in T");
    assert_eq!(selected_point_text(i32::MIN, "T"), "Selected point -2147483648 in T");
}

#[test]
fn renumber_statuses() {
    let ok: Result<(String, i32), &str> = Ok(("Body".to_string(), 10));
    assert_eq!(renumber_from_start_status(&ok), "Renumbered sequence Body from 10");
    let err: Result<(String, i32), &str> = Err("No sequence selected");
    assert_eq!(renumber_from_start_status(&err), "No sequence selected");
    let following: Result<(String, usize), &str> = Ok(("Body".to_string(), 0));
    assert_eq!(renumber_following_status(&following), "Renumbered points after point 1 in Body");
    let following_err: Result<(String, usize), &str> = Err("No point selected");
    assert_eq!(renumber_following_status(&following_err), "No point selected");
}

#[test]
fn remove_point_statuses() {
    let ok: Result<String, &str> = Ok("Body".to_string());
    assert_eq!(remove_point_status(&ok), "Removed point from Body");
    let err: Result<String, &str> = Err("No point selected");
    assert_eq!(remove_point_status(&err), "No point selected");
}
