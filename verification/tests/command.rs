use editor_core::buffer::TextBuffer;
use editor_core::command::CompositeCommand;
use editor_core::command::DeleteCharCommand;
use editor_core::command::DeleteForwardCommand;
use editor_core::command::DeleteRangeCommand;
use editor_core::command::InsertCharCommand;
use editor_core::command::InsertNewlineCommand;
use editor_core::command::InsertTextCommand;
use editor_core::command::ReplaceTextCommand;
use editor_core::command::SimpleCommand;

#[test]
fn test_insert_char_command() {
    let mut buffer = TextBuffer::new("hello");
    let mut cursor = (0, 5);
    let cmd = InsertCharCommand::new(0, 5, '!', cursor);

    cmd.execute(&mut buffer, &mut cursor);
    assert_eq!(buffer.line(0), "hello!");
    assert_eq!(cursor, (0, 6));

    cmd.undo(&mut buffer, &mut cursor);
    assert_eq!(buffer.line(0), "hello");
    assert_eq!(cursor, (0, 5));
}

#[test]
fn test_delete_char_command() {
    let mut buffer = TextBuffer::new("hello");
    let mut cursor = (0, 5);
    let cmd = DeleteCharCommand::new(&buffer, 0, 5, cursor);

    cmd.execute(&mut buffer, &mut cursor);
    assert_eq!(buffer.line(0), "hell");
    assert_eq!(cursor, (0, 4));

    cmd.undo(&mut buffer, &mut cursor);
    assert_eq!(buffer.line(0), "hello");
    assert_eq!(cursor, (0, 5));
}

#[test]
fn test_insert_newline_command() {
    let mut buffer = TextBuffer::new("hello world");
    let mut cursor = (0, 5);
    let cmd = InsertNewlineCommand::new(0, 5, cursor);

    cmd.execute(&mut buffer, &mut cursor);
    assert_eq!(buffer.line(0), "hello");
    assert_eq!(buffer.line(1), " world");
    assert_eq!(cursor, (1, 0));

    cmd.undo(&mut buffer, &mut cursor);
    assert_eq!(buffer.line(0), "hello world");
    assert_eq!(cursor, (0, 5));
}

#[test]
fn test_insert_text_command() {
    let mut buffer = TextBuffer::new("hello");
    let mut cursor = (0, 5);
    let cmd = InsertTextCommand::new(0, 5, " world".to_string(), cursor);

    cmd.execute(&mut buffer, &mut cursor);
    assert_eq!(buffer.line(0), "hello world");
    assert_eq!(cursor, (0, 11));

    cmd.undo(&mut buffer, &mut cursor);
    assert_eq!(buffer.line(0), "hello");
    assert_eq!(cursor, (0, 5));
}

#[test]
fn test_insert_text_command_multiline() {
    let mut buffer = TextBuffer::new("ab");
    let mut cursor = (0, 1);
    let cmd = InsertTextCommand::new(0, 1, "x\ny".to_string(), cursor);

    cmd.execute(&mut buffer, &mut cursor);
    assert_eq!(buffer.line_count(), 2);
    assert_eq!(buffer.line(0), "ax");
    assert_eq!(buffer.line(1), "yb");
    assert_eq!(cursor, (1, 1));

    cmd.undo(&mut buffer, &mut cursor);
    assert_eq!(buffer.line_count(), 1);
    assert_eq!(buffer.line(0), "ab");
    assert_eq!(cursor, (0, 1));
}

#[test]
fn test_delete_range_command() {
    let mut buffer = TextBuffer::new("hello world");
    let mut cursor = (0, 0);
    let cmd = DeleteRangeCommand::new(&buffer, (0, 0), (0, 5), cursor);

    cmd.execute(&mut buffer, &mut cursor);
    assert_eq!(buffer.line(0), " world");
    assert_eq!(cursor, (0, 0));

    cmd.undo(&mut buffer, &mut cursor);
    assert_eq!(buffer.line(0), "hello world");
    assert_eq!(cursor, (0, 0));
}

#[test]
fn test_delete_range_command_multiline() {
    let mut buffer = TextBuffer::new("one\ntwo\nthree");
    let mut cursor = (0, 0);
    let cmd = DeleteRangeCommand::new(&buffer, (0, 2), (2, 3), cursor);

    cmd.execute(&mut buffer, &mut cursor);
    assert_eq!(buffer.line_count(), 1);
    assert_eq!(buffer.line(0), "onee");
    assert_eq!(cursor, (0, 2));

    cmd.undo(&mut buffer, &mut cursor);
    assert_eq!(buffer.to_string(), "one\ntwo\nthree");
    assert_eq!(cursor, (0, 0));
}

#[test]
fn test_delete_forward_command() {
    let mut buffer = TextBuffer::new("ab\ncd");
    let mut cursor = (0, 2);
    let cmd = DeleteForwardCommand::new(&buffer, 0, 2, cursor);

    cmd.execute(&mut buffer, &mut cursor);
    assert_eq!(buffer.line_count(), 1);
    assert_eq!(buffer.line(0), "abcd");
    assert_eq!(cursor, (0, 2));

    cmd.undo(&mut buffer, &mut cursor);
    assert_eq!(buffer.line(0), "ab");
    assert_eq!(buffer.line(1), "cd");
    assert_eq!(cursor, (0, 2));
}

#[test]
fn test_composite_command() {
    let mut buffer = TextBuffer::new("hello");
    let mut cursor = (0, 5);
    let mut composite = CompositeCommand::new("Multiple edits".to_string());

    composite.add(SimpleCommand::InsertChar(InsertCharCommand::new(0, 5, ' ', cursor)));
    cursor.1 += 1;
    composite.add(SimpleCommand::InsertChar(InsertCharCommand::new(0, 6, 'w', cursor)));
    cursor.1 += 1;
    composite.add(SimpleCommand::InsertChar(InsertCharCommand::new(0, 7, 'o', cursor)));

    composite.execute(&mut buffer, &mut cursor);
    assert_eq!(buffer.line(0), "hello wo");

    composite.undo(&mut buffer, &mut cursor);
    assert_eq!(buffer.line(0), "hello");
}

#[test]
fn test_replace_text_command() {
    let mut buffer = TextBuffer::new("hello world");
    let mut cursor = (0, 0);
    let cmd = ReplaceTextCommand::new(&buffer, (0, 0), 5, "goodbye".to_string(), cursor);

    cmd.execute(&mut buffer, &mut cursor);
    assert_eq!(buffer.line(0), "goodbye world");
    assert_eq!(cursor, (0, 7));

    cmd.undo(&mut buffer, &mut cursor);
    assert_eq!(buffer.line(0), "hello world");
    assert_eq!(cursor, (0, 0));
}

#[test]
fn test_replace_text_different_lengths() {
    let mut buffer = TextBuffer::new("foo bar baz");
    let mut cursor = (0, 4);

    // Replace "bar" (3 chars) with "x" (1 char)
    let cmd = ReplaceTextCommand::new(&buffer, (0, 4), 3, "x".to_string(), cursor);

    cmd.execute(&mut buffer, &mut cursor);
    assert_eq!(buffer.line(0), "foo x baz");
    assert_eq!(cursor, (0, 5));

    cmd.undo(&mut buffer, &mut cursor);
    assert_eq!(buffer.line(0), "foo bar baz");
    assert_eq!(cursor, (0, 4));
}

#[test]
fn test_replace_all_composite() {
    let mut buffer = TextBuffer::new("foo foo foo");
    let mut cursor = (0, 0);
    let mut composite = CompositeCommand::new("Replace all".to_string());

    // Replace all "foo" with "bar" (in reverse order to preserve positions)
    composite.add(SimpleCommand::ReplaceText(ReplaceTextCommand::new(
        &buffer,
        (0, 8),
        3,
        "bar".to_string(),
        cursor,
    )));
    composite.add(SimpleCommand::ReplaceText(ReplaceTextCommand::new(
        &buffer,
        (0, 4),
        3,
        "bar".to_string(),
        cursor,
    )));
    composite.add(SimpleCommand::ReplaceText(ReplaceTextCommand::new(
        &buffer,
        (0, 0),
        3,
        "bar".to_string(),
        cursor,
    )));

    composite.execute(&mut buffer, &mut cursor);
    assert_eq!(buffer.line(0), "bar bar bar");

    composite.undo(&mut buffer, &mut cursor);
    assert_eq!(buffer.line(0), "foo foo foo");
}

#[test]
fn test_execute_undo_execute_replays_exactly() {
    let mut buffer = TextBuffer::new("alpha\nbeta");
    let mut cursor = (0, 3);
    let cmd = InsertTextCommand::new(0, 3, "X\nY".to_string(), cursor);

    cmd.execute(&mut buffer, &mut cursor);
    let after_text = buffer.to_string();
    let after_cursor = cursor;

    cmd.undo(&mut buffer, &mut cursor);
    assert_eq!(buffer.to_string(), "alpha\nbeta");
    assert_eq!(cursor, (0, 3));

    cmd.execute(&mut buffer, &mut cursor);
    assert_eq!(buffer.to_string(), after_text);
    assert_eq!(cursor, after_cursor);
}

#[test]
fn test_round_trip_around_multibyte_text() {
    let mut buffer = TextBuffer::new("安全与合规");
    let mut cursor = (0, 2);
    let cmd = DeleteForwardCommand::new(&buffer, 0, 2, cursor);

    cmd.execute(&mut buffer, &mut cursor);
    assert_eq!(buffer.line(0), "安全合规");

    cmd.undo(&mut buffer, &mut cursor);
    assert_eq!(buffer.line(0), "安全与合规");
    assert_eq!(cursor, (0, 2));
}
