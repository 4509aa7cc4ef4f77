use editor_core::editor::ArrowDirection;
use editor_core::editor::CanvasEditor;
use editor_core::editor::CanvasEditorMessage;

#[test]
fn canvas_editor_test_new_canvas_editor() {
    let editor = CanvasEditor::new("line1\nline2", "py");
    assert_eq!(editor.cursor, (0, 0));
}

#[test]
fn canvas_editor_test_cursor_movement() {
    let mut editor = CanvasEditor::new("line1\nline2", "py");
    editor.move_cursor(ArrowDirection::Down);
    assert_eq!(editor.cursor.0, 1);
    editor.move_cursor(ArrowDirection::Right);
    assert_eq!(editor.cursor.1, 1);
}

#[test]
fn canvas_editor_test_page_down() {
    // Create editor with many lines
    let content = (0..100).map(|i| format!("line {i}")).collect::<Vec<_>>().join("\n");
    let mut editor = CanvasEditor::new(&content, "py");

    editor.page_down();
    // Should move approximately 30 lines (600px / 20px per line)
    assert!(editor.cursor.0 >= 25);
    assert!(editor.cursor.0 <= 35);
}

#[test]
fn canvas_editor_test_page_up() {
    // Create editor with many lines
    let content = (0..100).map(|i| format!("line {i}")).collect::<Vec<_>>().join("\n");
    let mut editor = CanvasEditor::new(&content, "py");

    // Move to line 50
    editor.cursor = (50, 0);
    editor.page_up();

    // Should move approximately 30 lines up
    assert!(editor.cursor.0 >= 15);
    assert!(editor.cursor.0 <= 25);
}

#[test]
fn canvas_editor_test_page_down_at_end() {
    let content = (0..10).map(|i| format!("line {i}")).collect::<Vec<_>>().join("\n");
    let mut editor = CanvasEditor::new(&content, "py");

    editor.page_down();
    // Should be at last line (line 9)
    assert_eq!(editor.cursor.0, 9);
}

#[test]
fn canvas_editor_test_page_up_at_start() {
    let content = (0..100).map(|i| format!("line {i}")).collect::<Vec<_>>().join("\n");
    let mut editor = CanvasEditor::new(&content, "py");

    // Already at start
    editor.cursor = (0, 0);
    editor.page_up();
    assert_eq!(editor.cursor.0, 0);
}

#[test]
fn cursor_test_cursor_movement() {
    let mut editor = CanvasEditor::new("line1\nline2", "py");
    editor.move_cursor(ArrowDirection::Down);
    assert_eq!(editor.cursor.0, 1);
    editor.move_cursor(ArrowDirection::Right);
    assert_eq!(editor.cursor.1, 1);
}

#[test]
fn cursor_test_page_down() {
    let content = (0..100).map(|i| format!("line {i}")).collect::<Vec<_>>().join("\n");
    let mut editor = CanvasEditor::new(&content, "py");

    editor.page_down();
    assert!(editor.cursor.0 >= 25);
    assert!(editor.cursor.0 <= 35);
}

#[test]
fn cursor_test_page_up() {
    let content = (0..100).map(|i| format!("line {i}")).collect::<Vec<_>>().join("\n");
    let mut editor = CanvasEditor::new(&content, "py");

    editor.cursor = (50, 0);
    editor.page_up();
    assert!(editor.cursor.0 >= 15);
    assert!(editor.cursor.0 <= 25);
}

#[test]
fn cursor_test_page_down_at_end() {
    let content = (0..10).map(|i| format!("line {i}")).collect::<Vec<_>>().join("\n");
    let mut editor = CanvasEditor::new(&content, "py");

    editor.page_down();
    assert_eq!(editor.cursor.0, 9);
}

#[test]
fn cursor_test_page_up_at_start() {
    let content = (0..100).map(|i| format!("line {i}")).collect::<Vec<_>>().join("\n");
    let mut editor = CanvasEditor::new(&content, "py");

    editor.cursor = (0, 0);
    editor.page_up();
    assert_eq!(editor.cursor.0, 0);
}

#[test]
fn update_test_new_canvas_editor() {
    let editor = CanvasEditor::new("line1\nline2", "py");
    assert_eq!(editor.cursor, (0, 0));
}

#[test]
fn update_test_home_key() {
    let mut editor = CanvasEditor::new("hello world", "py");
    editor.cursor = (0, 5); // Move to middle of line
    editor.update(&CanvasEditorMessage::Home(false));
    assert_eq!(editor.cursor, (0, 0));
}

#[test]
fn update_test_end_key() {
    let mut editor = CanvasEditor::new("hello world", "py");
    editor.cursor = (0, 0);
    editor.update(&CanvasEditorMessage::End(false));
    assert_eq!(editor.cursor, (0, 11)); // Length of "hello world"
}

#[test]
fn canvas_editor_test_home_key() {
    let mut editor = CanvasEditor::new("hello world", "py");
    editor.cursor = (0, 5);
    editor.update(&CanvasEditorMessage::Home(false));
    assert_eq!(editor.cursor, (0, 0));
}

#[test]
fn canvas_editor_test_end_key() {
    let mut editor = CanvasEditor::new("hello world", "py");
    editor.cursor = (0, 0);
    editor.update(&CanvasEditorMessage::End(false));
    assert_eq!(editor.cursor, (0, 11));
}

#[test]
fn test_arrow_key_with_shift_creates_selection() {
    let mut editor = CanvasEditor::new("hello world", "py");
    editor.cursor = (0, 0);

    // Shift+Right should start selection
    editor.update(&CanvasEditorMessage::ArrowKey(ArrowDirection::Right, true));
    assert!(editor.selection_start.is_some());
    assert!(editor.selection_end.is_some());
}

#[test]
fn test_arrow_key_without_shift_clears_selection() {
    let mut editor = CanvasEditor::new("hello world", "py");
    editor.selection_start = Some((0, 0));
    editor.selection_end = Some((0, 5));

    // Regular arrow key should clear selection
    editor.update(&CanvasEditorMessage::ArrowKey(ArrowDirection::Right, false));
    assert_eq!(editor.selection_start, None);
    assert_eq!(editor.selection_end, None);
}

#[test]
fn test_typing_with_selection() {
    let mut editor = CanvasEditor::new("hello world", "py");
    editor.selection_start = Some((0, 0));
    editor.selection_end = Some((0, 5));

    editor.update(&CanvasEditorMessage::CharacterInput('X'));
    // The character is inserted at the cursor; typing does not delete
    // the selection, only Backspace, Delete or Paste do.
    assert_eq!(editor.buffer.line(0), "Xhello world");
}

#[test]
fn test_selection_single_line() {
    let mut editor = CanvasEditor::new("hello world", "py");
    editor.selection_start = Some((0, 0));
    editor.selection_end = Some((0, 5));

    let text = editor.get_selected_text();
    assert_eq!(text, Some("hello".to_string()));
}

#[test]
fn test_selection_multiline() {
    let mut editor = CanvasEditor::new("line1\nline2\nline3", "py");
    editor.selection_start = Some((0, 2)); // "ne1"
    editor.selection_end = Some((2, 3)); // to "lin"

    let text = editor.get_selected_text();
    assert_eq!(text, Some("ne1\nline2\nlin".to_string()));
}

#[test]
fn test_selection_range_normalization() {
    let mut editor = CanvasEditor::new("hello world", "py");
    // Set selection in reverse order (end before start)
    editor.selection_start = Some((0, 5));
    editor.selection_end = Some((0, 0));

    let range = editor.get_selection_range();
    // Should normalize to (0,0) -> (0,5)
    assert_eq!(range, Some(((0, 0), (0, 5))));
}

#[test]
fn test_clear_selection() {
    let mut editor = CanvasEditor::new("hello world", "py");
    editor.selection_start = Some((0, 0));
    editor.selection_end = Some((0, 5));

    editor.clear_selection();
    assert_eq!(editor.selection_start, None);
    assert_eq!(editor.selection_end, None);
}

#[test]
fn test_delete_selection_single_line() {
    let mut editor = CanvasEditor::new("hello world", "py");
    editor.selection_start = Some((0, 0));
    editor.selection_end = Some((0, 5));

    editor.delete_selection();
    assert_eq!(editor.buffer.line(0), " world");
}

#[test]
fn test_delete_selection_multiline() {
    let mut editor = CanvasEditor::new("one\ntwo\nthree", "py");
    editor.selection_start = Some((0, 2));
    editor.selection_end = Some((2, 3));

    editor.delete_selection();
    assert_eq!(editor.buffer.to_string(), "onee");
    assert_eq!(editor.cursor, (0, 2));
    assert_eq!(editor.selection_start, None);
}

#[test]
fn test_paste_single_line() {
    let mut editor = CanvasEditor::new("Line 0\nLine 1\nLine 2\nLine 3\nLine 4", "py");

    editor.update(&CanvasEditorMessage::Paste("Hello".to_string()));
    assert_eq!(editor.cursor, (0, 5), "Column should advance by 5");
}

#[test]
fn test_paste_multiline() {
    let mut editor = CanvasEditor::new("Line 0\nLine 1\nLine 2\nLine 3\nLine 4", "py");

    editor.update(&CanvasEditorMessage::Paste("Line A\nLine B\nLine C".to_string()));
    assert_eq!(editor.cursor.0, 2, "Should be on line 2 (2 newlines)");
    assert_eq!(editor.cursor.1, 6, "Should be at end of 'Line C'");
}

#[test]
fn test_paste_text_splices_lines() {
    let mut editor = CanvasEditor::new("ab", "py");
    editor.cursor = (0, 1);
    editor.paste_text("x\ny");
    assert_eq!(editor.buffer.line(0), "ax");
    assert_eq!(editor.buffer.line(1), "yb");
    assert_eq!(editor.cursor, (1, 1));
}

#[test]
fn test_paste_replaces_selection() {
    let mut editor = CanvasEditor::new("hello world", "py");
    editor.selection_start = Some((0, 0));
    editor.selection_end = Some((0, 5));
    editor.paste_text("bye");
    assert_eq!(editor.buffer.line(0), "bye world");
    assert_eq!(editor.cursor, (0, 3));
    assert_eq!(editor.selection_start, None);
}

#[test]
fn test_backspace_merges_to_merge_point() {
    let mut editor = CanvasEditor::new("ab\ncd", "py");
    editor.cursor = (1, 0);
    editor.update(&CanvasEditorMessage::Backspace);
    assert_eq!(editor.buffer.line(0), "abcd");
    // The cursor lands at the merge point, after "ab".
    assert_eq!(editor.cursor, (0, 2));
}

#[test]
fn test_typing_multibyte_characters() {
    let mut editor = CanvasEditor::new("", "py");
    for ch in "安全与合规".chars() {
        editor.update(&CanvasEditorMessage::CharacterInput(ch));
    }
    assert_eq!(editor.buffer.line(0), "安全与合规");
    assert_eq!(editor.cursor, (0, 5));
    editor.update(&CanvasEditorMessage::Backspace);
    assert_eq!(editor.buffer.line(0), "安全与合");
}
