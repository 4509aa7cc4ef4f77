use editor_core::buffer::TextBuffer;

#[test]
fn test_new_buffer() {
    let buffer = TextBuffer::new("line1\nline2\nline3");
    assert_eq!(buffer.line_count(), 3);
    assert_eq!(buffer.line(0), "line1");
    assert_eq!(buffer.line(1), "line2");
    assert_eq!(buffer.line(2), "line3");
}

#[test]
fn test_empty_buffer() {
    let buffer = TextBuffer::new("");
    assert_eq!(buffer.line_count(), 1);
    assert_eq!(buffer.line(0), "");
}

#[test]
fn test_insert_char() {
    let mut buffer = TextBuffer::new("hello");
    buffer.insert_char(0, 5, '!');
    assert_eq!(buffer.line(0), "hello!");
}

#[test]
fn test_insert_newline() {
    let mut buffer = TextBuffer::new("hello world");
    buffer.insert_newline(0, 5);
    assert_eq!(buffer.line_count(), 2);
    assert_eq!(buffer.line(0), "hello");
    assert_eq!(buffer.line(1), " world");
}

#[test]
fn test_delete_char() {
    let mut buffer = TextBuffer::new("hello");
    let merged = buffer.delete_char(0, 5);
    assert!(!merged);
    assert_eq!(buffer.line(0), "hell");
}

#[test]
fn test_delete_char_merge() {
    let mut buffer = TextBuffer::new("line1\nline2");
    let merged = buffer.delete_char(1, 0);
    assert!(merged);
    assert_eq!(buffer.line_count(), 1);
    assert_eq!(buffer.line(0), "line1line2");
}

#[test]
fn test_to_string() {
    let buffer = TextBuffer::new("line1\nline2\nline3");
    assert_eq!(buffer.to_string(), "line1\nline2\nline3");
}

#[test]
fn test_replace_range() {
    let mut buffer = TextBuffer::new("hello world");
    // Replace "world" with "rust"
    buffer.replace_range(0, 6, 5, "rust");
    assert_eq!(buffer.line(0), "hello rust");

    // Replace "hello" with "hi"
    buffer.replace_range(0, 0, 5, "hi");
    assert_eq!(buffer.line(0), "hi rust");

    // Insert at end
    buffer.replace_range(0, 7, 0, "!");
    assert_eq!(buffer.line(0), "hi rust!");
}

#[test]
fn test_multibyte_columns_count_characters() {
    let mut buffer = TextBuffer::new("安全与合规");
    assert_eq!(buffer.line_len(0), 5);
    buffer.insert_char(0, 2, 'x');
    assert_eq!(buffer.line(0), "安全x与合规");
    assert_eq!(buffer.line_len(0), 6);
    buffer.delete_forward(0, 2);
    assert_eq!(buffer.line(0), "安全与合规");
    let merged = buffer.delete_char(0, 5);
    assert!(!merged);
    assert_eq!(buffer.line(0), "安全与合");
}

#[test]
fn test_multibyte_newline_split() {
    let mut buffer = TextBuffer::new("安全与合规");
    buffer.insert_newline(0, 2);
    assert_eq!(buffer.line(0), "安全");
    assert_eq!(buffer.line(1), "与合规");
    let merged = buffer.delete_char(1, 0);
    assert!(merged);
    assert_eq!(buffer.line(0), "安全与合规");
}

#[test]
fn test_delete_forward_merges_next_line() {
    let mut buffer = TextBuffer::new("ab\ncd");
    buffer.delete_forward(0, 2);
    assert_eq!(buffer.line_count(), 1);
    assert_eq!(buffer.line(0), "abcd");
}

#[test]
fn test_out_of_range_line_is_ignored() {
    let mut buffer = TextBuffer::new("abc");
    buffer.insert_char(5, 0, 'x');
    buffer.insert_newline(5, 0);
    buffer.replace_range(5, 0, 1, "y");
    buffer.delete_forward(5, 0);
    assert_eq!(buffer.to_string(), "abc");
}

#[test]
fn test_crlf_line_breaks() {
    let buffer = TextBuffer::new("one\r\ntwo\r\nthree");
    assert_eq!(buffer.line_count(), 3);
    assert_eq!(buffer.line(0), "one");
    assert_eq!(buffer.line(1), "two");
    assert_eq!(buffer.line(2), "three");
}

#[test]
fn test_trailing_newline_yields_no_extra_line() {
    let buffer = TextBuffer::new("one\ntwo\n");
    assert_eq!(buffer.line_count(), 2);
    assert_eq!(buffer.line(1), "two");
}
