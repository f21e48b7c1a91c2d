use dottodot_studio::editor::{
    EditorState, SequenceItem, SequencePoint, DEFAULT_LINE_THICKNESS_BITS, UNDO_LIMIT,
};
use dottodot_studio::model::{color_channels, stored_color, ColorStyle};
use egui::Pos2;

fn point(x: f32, y: f32, value: i32) -> SequencePoint {
    SequencePoint { position: Pos2::new(x, y), value }
}

fn sequence(name: &str, start_value: i32, values: &[i32]) -> SequenceItem {
    SequenceItem {
        name: name.to_string(),
        visible: true,
        color: ColorStyle::from_rgb(10, 20, 30),
        line_thickness_bits: DEFAULT_LINE_THICKNESS_BITS,
        start_value,
        points: values
            .iter()
            .enumerate()
            .map(|(i, v)| point(i as f32, 2.0 * i as f32, *v))
            .collect(),
    }
}

fn values(editor: &EditorState, index: usize) -> Vec<i32> {
    editor.sequences[index].points.iter().map(|p| p.value).collect()
}

fn editor_with(sequences: Vec<SequenceItem>) -> EditorState {
    let mut editor = EditorState::default();
    editor.sequences = sequences;
    editor.selected_sequence = Some(0);
    editor.selected_point = None;
    editor
}

#[test]
fn default_editor_is_a_new_project() {
    let editor = EditorState::default();
    assert_eq!(editor.project_name, "Untitled Project");
    assert_eq!(editor.origin_url, "");
    assert_eq!(editor.comment, "");
    assert_eq!(editor.sequences.len(), 1);
    let first = &editor.sequences[0];
    assert_eq!(first.name, "Sequence 1");
    assert!(first.visible);
    assert_eq!(first.color, ColorStyle { r: 120, g: 180, b: 255, a: 255 });
    assert_eq!(f32::from_bits(first.line_thickness_bits), 3.0);
    assert_eq!(first.start_value, 1);
    assert!(first.points.is_empty());
    assert_eq!(editor.selected_sequence, Some(0));
    assert_eq!(editor.selected_point, None);
    assert!(editor.undo_stack.is_empty());
    assert!(!editor.has_unsaved_changes);
}

#[test]
fn new_project_resets_everything() {
    let mut editor = editor_with(vec![sequence("A", 5, &[5, 6]), sequence("B", 1, &[])]);
    editor.project_name = "Old".to_string();
    editor.comment = "text".to_string();
    editor.push_undo_snapshot();
    editor.mark_dirty();
    editor.dragged_point = Some((0, 1));
    editor.new_project();
    assert_eq!(editor.project_name, "Untitled Project");
    assert_eq!(editor.comment, "");
    assert_eq!(editor.sequences.len(), 1);
    assert_eq!(editor.sequences[0].name, "Sequence 1");
    assert_eq!(editor.dragged_point, None);
    assert!(editor.undo_stack.is_empty());
    assert!(!editor.has_unsaved_changes);
}

#[test]
fn add_point_numbers_from_start_value() {
    let mut editor = editor_with(vec![sequence("Dots", 10, &[10, 11])]);
    let result = editor.add_point_to_selected_sequence(Pos2::new(4.0, 5.0));
    assert_eq!(result, Ok((12, "Dots".to_string())));
    assert_eq!(values(&editor, 0), vec![10, 11, 12]);
    assert_eq!(editor.sequences[0].points[2].position, Pos2::new(4.0, 5.0));
    assert_eq!(editor.selected_point, Some(2));
    assert!(editor.scroll_selected_point_into_view);
    assert!(editor.has_unsaved_changes);
    assert_eq!(editor.undo_stack.len(), 1);
}

#[test]
fn add_point_errors_leave_state_unchanged() {
    let mut editor = editor_with(vec![sequence("Dots", 1, &[])]);
    editor.selected_sequence = None;
    assert_eq!(editor.add_point_to_selected_sequence(Pos2::new(0.0, 0.0)), Err("No sequence selected"));
    editor.selected_sequence = Some(3);
    assert_eq!(
        editor.add_point_to_selected_sequence(Pos2::new(0.0, 0.0)),
        Err("Selected sequence is invalid")
    );
    assert!(editor.sequences[0].points.is_empty());
    assert!(editor.undo_stack.is_empty());
    assert!(!editor.has_unsaved_changes);
}

#[test]
fn undo_restores_the_state_before_an_edit() {
    let mut editor = editor_with(vec![sequence("Dots", 1, &[1, 2])]);
    editor.selected_point = Some(1);
    editor.add_point_to_selected_sequence(Pos2::new(9.0, 9.0)).unwrap();
    assert_eq!(values(&editor, 0), vec![1, 2, 3]);
    assert!(editor.undo());
    assert_eq!(values(&editor, 0), vec![1, 2]);
    assert_eq!(editor.selected_sequence, Some(0));
    assert_eq!(editor.selected_point, Some(1));
    assert!(editor.undo_stack.is_empty());
}

#[test]
fn undo_on_empty_history_does_nothing() {
    let mut editor = editor_with(vec![sequence("Dots", 1, &[1])]);
    editor.dragged_point = Some((0, 0));
    assert!(!editor.undo());
    assert_eq!(editor.dragged_point, Some((0, 0)));
    assert_eq!(values(&editor, 0), vec![1]);
}

#[test]
fn undo_clears_the_dragged_point() {
    let mut editor = editor_with(vec![sequence("Dots", 1, &[1])]);
    editor.push_undo_snapshot();
    editor.dragged_point = Some((0, 0));
    assert!(editor.undo());
    assert_eq!(editor.dragged_point, None);
}

#[test]
fn undo_history_keeps_the_newest_hundred() {
    let mut editor = editor_with(vec![sequence("Dots", 0, &[])]);
    for i in 0..(UNDO_LIMIT + 20) {
        editor.add_point_to_selected_sequence(Pos2::new(i as f32, 0.0)).unwrap();
    }
    assert_eq!(editor.undo_stack.len(), UNDO_LIMIT);
    // The oldest snapshot still there was taken with 20 points.
    assert_eq!(editor.undo_stack[0].sequences[0].points.len(), 20);
    let mut undone = 0;
    while editor.undo() {
        undone += 1;
    }
    assert_eq!(undone, UNDO_LIMIT);
    assert_eq!(editor.sequences[0].points.len(), 20);
}

#[test]
fn renumber_from_start_numbers_consecutively() {
    let mut editor = editor_with(vec![sequence("Dots", 7, &[3, 3, 100, -2])]);
    assert_eq!(editor.renumber_selected_sequence_from_start(), Ok(("Dots".to_string(), 7)));
    assert_eq!(values(&editor, 0), vec![7, 8, 9, 10]);
    assert_eq!(editor.sequences[0].points[2].position, Pos2::new(2.0, 4.0));
    assert!(editor.has_unsaved_changes);
    assert!(editor.undo());
    assert_eq!(values(&editor, 0), vec![3, 3, 100, -2]);
}

#[test]
fn renumber_from_start_errors() {
    let mut editor = editor_with(vec![sequence("Dots", 7, &[1])]);
    editor.selected_sequence = None;
    assert_eq!(editor.renumber_selected_sequence_from_start(), Err("No sequence selected"));
    editor.selected_sequence = Some(1);
    assert_eq!(editor.renumber_selected_sequence_from_start(), Err("Selected sequence is invalid"));
}

#[test]
fn renumber_following_continues_from_selected_point() {
    let mut editor = editor_with(vec![sequence("Dots", 1, &[1, 2, 50, 0, 0])]);
    editor.selected_point = Some(2);
    assert_eq!(editor.renumber_selected_point_and_following(), Ok(("Dots".to_string(), 2)));
    assert_eq!(values(&editor, 0), vec![1, 2, 50, 51, 52]);
}

#[test]
fn renumber_following_errors() {
    let mut editor = editor_with(vec![sequence("Dots", 1, &[1, 2])]);
    editor.selected_point = None;
    assert_eq!(editor.renumber_selected_point_and_following(), Err("No point selected"));
    editor.selected_point = Some(2);
    assert_eq!(editor.renumber_selected_point_and_following(), Err("Selected point is invalid"));
    editor.selected_sequence = Some(4);
    assert_eq!(editor.renumber_selected_point_and_following(), Err("Selected sequence is invalid"));
    editor.selected_sequence = None;
    assert_eq!(editor.renumber_selected_point_and_following(), Err("No sequence selected"));
    assert!(editor.undo_stack.is_empty());
}

#[test]
fn remove_selected_point_keeps_a_valid_selection() {
    let mut editor = editor_with(vec![sequence("Dots", 1, &[1, 2, 3])]);
    editor.selected_point = Some(2);
    assert_eq!(editor.remove_selected_point(), Ok("Dots".to_string()));
    assert_eq!(values(&editor, 0), vec![1, 2]);
    assert_eq!(editor.selected_point, Some(1));
    editor.selected_point = Some(0);
    assert_eq!(editor.remove_selected_point(), Ok("Dots".to_string()));
    assert_eq!(values(&editor, 0), vec![2]);
    assert_eq!(editor.selected_point, Some(0));
    assert_eq!(editor.remove_selected_point(), Ok("Dots".to_string()));
    assert!(editor.sequences[0].points.is_empty());
    assert_eq!(editor.selected_point, None);
    assert_eq!(editor.remove_selected_point(), Err("No point selected"));
    assert_eq!(editor.undo_stack.len(), 3);
}

#[test]
fn remove_selected_point_rejects_a_stale_point() {
    let mut editor = editor_with(vec![sequence("Dots", 1, &[1])]);
    editor.selected_point = Some(5);
    assert_eq!(editor.remove_selected_point(), Err("Selected point is invalid"));
    assert_eq!(values(&editor, 0), vec![1]);
}

#[test]
fn previous_and_next_point_stay_inside_the_sequence() {
    let mut editor = editor_with(vec![sequence("Dots", 1, &[1, 2, 3])]);
    assert_eq!(editor.select_next_point_in_sequence(), Ok((1, "Dots".to_string())));
    assert_eq!(editor.selected_point, Some(0));
    assert_eq!(editor.select_next_point_in_sequence(), Ok((2, "Dots".to_string())));
    assert_eq!(editor.select_next_point_in_sequence(), Ok((3, "Dots".to_string())));
    assert_eq!(editor.select_next_point_in_sequence(), Ok((3, "Dots".to_string())));
    assert_eq!(editor.selected_point, Some(2));
    assert_eq!(editor.select_previous_point_in_sequence(), Ok((2, "Dots".to_string())));
    assert_eq!(editor.select_previous_point_in_sequence(), Ok((1, "Dots".to_string())));
    assert_eq!(editor.select_previous_point_in_sequence(), Ok((1, "Dots".to_string())));
    assert_eq!(editor.selected_point, Some(0));
    editor.selected_point = None;
    assert_eq!(editor.select_previous_point_in_sequence(), Ok((3, "Dots".to_string())));
    assert!(editor.scroll_selected_point_into_view);
}

#[test]
fn navigation_in_an_empty_sequence_fails() {
    let mut editor = editor_with(vec![sequence("Empty", 1, &[])]);
    assert_eq!(editor.select_next_point_in_sequence(), Err("Sequence has no points"));
    assert_eq!(editor.select_previous_point_in_sequence(), Err("Sequence has no points"));
    assert_eq!(editor.jump_to_selected_sequence_start(), Err("Sequence has no points"));
    assert_eq!(editor.jump_to_selected_sequence_end(), Err("Sequence has no points"));
    editor.selected_sequence = None;
    assert_eq!(editor.jump_to_selected_sequence_end(), Err("No sequence selected"));
    editor.selected_sequence = Some(9);
    assert_eq!(editor.jump_to_selected_sequence_start(), Err("Selected sequence is invalid"));
}

#[test]
fn jump_to_start_and_end() {
    let mut editor = editor_with(vec![sequence("Dots", 1, &[1, 2, 3, 4])]);
    assert_eq!(editor.jump_to_selected_sequence_end(), Ok("Dots".to_string()));
    assert_eq!(editor.selected_point, Some(3));
    assert_eq!(editor.jump_to_selected_sequence_start(), Ok("Dots".to_string()));
    assert_eq!(editor.selected_point, Some(0));
    assert!(editor.undo_stack.is_empty());
}

#[test]
fn select_found_point() {
    let mut editor = editor_with(vec![sequence("A", 1, &[1]), sequence("B", 4, &[4, 5])]);
    assert_eq!(editor.select_point_near_image_position(None), None);
    assert_eq!(editor.selected_sequence, Some(0));
    assert_eq!(editor.select_point_near_image_position(Some((1, 1))), Some(("B".to_string(), 5)));
    assert_eq!(editor.selected_sequence, Some(1));
    assert_eq!(editor.selected_point, Some(1));
    assert!(editor.scroll_selected_point_into_view);
}

#[test]
fn dragging_moves_a_point_and_undo_puts_it_back() {
    let mut editor = editor_with(vec![sequence("A", 1, &[1, 2])]);
    assert_eq!(editor.move_dragged_point_to(Pos2::new(1.0, 1.0)), None);
    assert_eq!(editor.begin_point_drag(0, 1), 2);
    assert_eq!(editor.dragged_point, Some((0, 1)));
    assert_eq!(editor.selected_point, Some(1));
    assert_eq!(editor.move_dragged_point_to(Pos2::new(30.0, 40.0)), Some(2));
    assert_eq!(editor.move_dragged_point_to(Pos2::new(31.0, 41.0)), Some(2));
    assert_eq!(editor.sequences[0].points[1].position, Pos2::new(31.0, 41.0));
    assert_eq!(editor.undo_stack.len(), 1);
    assert!(editor.has_unsaved_changes);
    assert!(editor.undo());
    assert_eq!(editor.sequences[0].points[1].position, Pos2::new(1.0, 2.0));
    editor.dragged_point = Some((0, 7));
    assert_eq!(editor.move_dragged_point_to(Pos2::new(0.0, 0.0)), None);
}

#[test]
fn add_sequence_names_it_by_count() {
    let mut editor = EditorState::default();
    editor.add_sequence();
    assert_eq!(editor.sequences.len(), 2);
    assert_eq!(editor.sequences[1].name, "Sequence 2");
    assert_eq!(editor.selected_sequence, Some(1));
    assert_eq!(editor.selected_point, None);
    assert!(editor.has_unsaved_changes);
    for _ in 0..9 {
        editor.add_sequence();
    }
    assert_eq!(editor.sequences[10].name, "Sequence 11");
    assert!(editor.undo());
    assert_eq!(editor.sequences.len(), 10);
}

#[test]
fn remove_selected_sequence_selects_a_neighbour() {
    let mut editor = editor_with(vec![sequence("A", 1, &[]), sequence("B", 1, &[]), sequence("C", 1, &[])]);
    editor.selected_sequence = Some(1);
    editor.selected_point = Some(0);
    assert!(editor.remove_selected_sequence());
    assert_eq!(editor.sequences.iter().map(|s| s.name.clone()).collect::<Vec<_>>(), vec!["A", "C"]);
    assert_eq!(editor.selected_sequence, Some(1));
    assert_eq!(editor.selected_point, None);
    assert!(editor.remove_selected_sequence());
    assert_eq!(editor.selected_sequence, Some(0));
    assert!(editor.remove_selected_sequence());
    assert_eq!(editor.selected_sequence, None);
    assert!(!editor.remove_selected_sequence());
    assert!(editor.undo());
    assert_eq!(editor.sequences.len(), 1);
    assert_eq!(editor.selected_sequence, Some(0));
}

#[test]
fn load_project_state_replaces_everything() {
    let mut editor = EditorState::default();
    editor.add_sequence();
    editor.load_project_state(
        "Loaded".to_string(),
        "https://example.org".to_string(),
        "note".to_string(),
        vec![sequence("X", 3, &[3, 4])],
    );
    assert_eq!(editor.project_name, "Loaded");
    assert_eq!(editor.origin_url, "https://example.org");
    assert_eq!(editor.comment, "note");
    assert_eq!(values(&editor, 0), vec![3, 4]);
    assert_eq!(editor.selected_sequence, Some(0));
    assert!(editor.undo_stack.is_empty());
    assert!(!editor.has_unsaved_changes);
    editor.load_project_state(String::new(), String::new(), String::new(), Vec::new());
    assert_eq!(editor.selected_sequence, None);
}

#[test]
fn dirty_flag_round_trip() {
    let mut editor = EditorState::default();
    editor.mark_dirty();
    assert!(editor.has_unsaved_changes);
    editor.clear_dirty();
    assert!(!editor.has_unsaved_changes);
}

#[test]
fn duplicate_is_an_independent_copy() {
    let original = sequence("A", 2, &[2, 3]);
    let mut copy = original.duplicate();
    copy.points.clear();
    assert_eq!(original.points.len(), 2);
    assert_eq!(copy.name, "A");
}

#[test]
fn saved_color_comes_back() {
    let translucent = ColorStyle { r: 10, g: 200, b: 30, a: 128 };
    assert_eq!(color_channels(translucent), [10, 200, 30, 128]);
    assert_eq!(stored_color(color_channels(translucent)), translucent);
    assert_eq!(stored_color([1, 2, 3, 0]), ColorStyle { r: 1, g: 2, b: 3, a: 0 });
}
