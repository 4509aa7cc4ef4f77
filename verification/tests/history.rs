use editor_core::buffer::TextBuffer;
use editor_core::command::EditCommand;
use editor_core::command::InsertCharCommand;
use editor_core::command::SimpleCommand;
use editor_core::history::CommandHistory;

#[test]
fn test_new_history() {
    let history = CommandHistory::new(50);
    assert_eq!(history.max_size(), 50);
    assert!(!history.can_undo());
    assert!(!history.can_redo());
}

#[test]
fn test_push_and_undo() {
    let mut buffer = TextBuffer::new("hello");
    let mut cursor = (0, 5);
    let mut history = CommandHistory::new(10);

    let cmd = InsertCharCommand::new(0, 5, '!', cursor);
    cmd.execute(&mut buffer, &mut cursor);
    history.push(EditCommand::Simple(SimpleCommand::InsertChar(cmd)));

    assert!(history.can_undo());
    assert_eq!(buffer.line(0), "hello!");

    history.undo(&mut buffer, &mut cursor);
    assert_eq!(buffer.line(0), "hello");
    assert_eq!(cursor, (0, 5));
}

#[test]
fn test_redo() {
    let mut buffer = TextBuffer::new("hello");
    let mut cursor = (0, 5);
    let mut history = CommandHistory::new(10);

    let cmd = InsertCharCommand::new(0, 5, '!', cursor);
    cmd.execute(&mut buffer, &mut cursor);
    history.push(EditCommand::Simple(SimpleCommand::InsertChar(cmd)));

    history.undo(&mut buffer, &mut cursor);
    assert_eq!(buffer.line(0), "hello");

    assert!(history.can_redo());
    history.redo(&mut buffer, &mut cursor);
    assert_eq!(buffer.line(0), "hello!");
    assert_eq!(cursor, (0, 6));
}

#[test]
fn test_save_point() {
    let mut buffer = TextBuffer::new("hello");
    let mut cursor = (0, 5);
    let mut history = CommandHistory::new(10);

    assert!(!history.is_modified()); // New document is not modified

    let cmd = InsertCharCommand::new(0, 5, '!', cursor);
    cmd.execute(&mut buffer, &mut cursor);
    history.push(EditCommand::Simple(SimpleCommand::InsertChar(cmd)));

    assert!(history.is_modified()); // Now modified

    history.mark_saved();
    assert!(!history.is_modified()); // Saved

    let cmd2 = InsertCharCommand::new(0, 6, '?', cursor);
    cmd2.execute(&mut buffer, &mut cursor);
    history.push(EditCommand::Simple(SimpleCommand::InsertChar(cmd2)));

    assert!(history.is_modified()); // Modified again
}

#[test]
fn test_clear() {
    let mut buffer = TextBuffer::new("hello");
    let mut cursor = (0, 5);
    let mut history = CommandHistory::new(10);

    let cmd = InsertCharCommand::new(0, 5, '!', cursor);
    cmd.execute(&mut buffer, &mut cursor);
    history.push(EditCommand::Simple(SimpleCommand::InsertChar(cmd)));

    assert!(history.can_undo());
    history.clear();
    assert!(!history.can_undo());
    assert!(!history.is_modified());
}

#[test]
fn test_size_limit() {
    let mut buffer = TextBuffer::new("a");
    let mut cursor = (0, 1);
    let mut history = CommandHistory::new(3);

    // Add 5 commands (exceeds limit of 3)
    for i in 0..5 {
        let cmd = InsertCharCommand::new(0, 1 + i, 'x', cursor);
        cmd.execute(&mut buffer, &mut cursor);
        cursor.1 += 1;
        history.push(EditCommand::Simple(SimpleCommand::InsertChar(cmd)));
    }

    // Should only have 3 in history
    assert_eq!(history.undo_count(), 3);
}

#[test]
fn test_grouping() {
    let mut buffer = TextBuffer::new("hello");
    let mut cursor = (0, 5);
    let mut history = CommandHistory::new(10);

    history.begin_group("typing");

    // Add multiple characters
    for ch in "!!!".chars() {
        let cmd = InsertCharCommand::new(0, cursor.1, ch, cursor);
        cmd.execute(&mut buffer, &mut cursor);
        // Don't manually increment cursor - execute() does it
        history.push(EditCommand::Simple(SimpleCommand::InsertChar(cmd)));
    }

    history.end_group();

    assert_eq!(buffer.line(0), "hello!!!");
    assert_eq!(history.undo_count(), 1); // All grouped into one

    // Single undo should remove all three characters
    history.undo(&mut buffer, &mut cursor);
    assert_eq!(buffer.line(0), "hello");
    assert_eq!(cursor, (0, 5));
}

#[test]
fn test_push_clears_redo() {
    let mut buffer = TextBuffer::new("hello");
    let mut cursor = (0, 5);
    let mut history = CommandHistory::new(10);

    let cmd1 = InsertCharCommand::new(0, 5, '!', cursor);
    cmd1.execute(&mut buffer, &mut cursor);
    history.push(EditCommand::Simple(SimpleCommand::InsertChar(cmd1)));

    history.undo(&mut buffer, &mut cursor);
    assert!(history.can_redo());

    // Push new command should clear redo stack
    let cmd2 = InsertCharCommand::new(0, 5, '?', cursor);
    cmd2.execute(&mut buffer, &mut cursor);
    history.push(EditCommand::Simple(SimpleCommand::InsertChar(cmd2)));

    assert!(!history.can_redo());
}

#[test]
fn test_set_max_size_trims_oldest() {
    let mut buffer = TextBuffer::new("a");
    let mut cursor = (0, 1);
    let mut history = CommandHistory::new(10);

    for i in 0..5 {
        let cmd = InsertCharCommand::new(0, 1 + i, 'x', cursor);
        cmd.execute(&mut buffer, &mut cursor);
        cursor.1 += 1;
        history.push(EditCommand::Simple(SimpleCommand::InsertChar(cmd)));
    }
    assert_eq!(history.undo_count(), 5);

    history.set_max_size(2);
    assert_eq!(history.max_size(), 2);
    assert_eq!(history.undo_count(), 2);

    // The two newest entries survive: undoing both removes the two
    // characters typed last.
    history.undo(&mut buffer, &mut cursor);
    history.undo(&mut buffer, &mut cursor);
    assert_eq!(buffer.line(0), "axxx");
    assert!(!history.can_undo());
}

#[test]
fn test_save_point_follows_eviction() {
    let mut buffer = TextBuffer::new("a");
    let mut cursor = (0, 1);
    let mut history = CommandHistory::new(2);

    let cmd = InsertCharCommand::new(0, 1, 'x', cursor);
    cmd.execute(&mut buffer, &mut cursor);
    cursor.1 += 1;
    history.push(EditCommand::Simple(SimpleCommand::InsertChar(cmd)));
    history.mark_saved();
    assert!(!history.is_modified());

    // Two more pushes overflow the bound of two and evict the saved
    // entry; the document counts as modified throughout.
    for i in 1..3 {
        let cmd = InsertCharCommand::new(0, 1 + i, 'x', cursor);
        cmd.execute(&mut buffer, &mut cursor);
        cursor.1 += 1;
        history.push(EditCommand::Simple(SimpleCommand::InsertChar(cmd)));
        assert!(history.is_modified());
    }
    assert_eq!(history.undo_count(), 2);
}

#[test]
fn test_default_history_bound() {
    let history = CommandHistory::default();
    assert_eq!(history.max_size(), 100);
    assert!(!history.can_undo());
    assert_eq!(history.redo_count(), 0);
}
