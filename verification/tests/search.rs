use editor_core::buffer::TextBuffer;
use editor_core::history::CommandHistory;
use editor_core::search::SearchState;
use editor_core::search::find_matches;

#[test]
fn test_find_matches_case_sensitive() {
    let buffer = TextBuffer::new("Hello World\nhello world");
    let matches = find_matches(&buffer, "hello", true);

    assert_eq!(matches.len(), 1);
    assert_eq!(matches[0].line, 1);
    assert_eq!(matches[0].col, 0);
}

#[test]
fn test_find_matches_case_insensitive() {
    let buffer = TextBuffer::new("Hello World\nhello world");
    let matches = find_matches(&buffer, "hello", false);

    assert_eq!(matches.len(), 2);
    assert_eq!(matches[0].line, 0);
    assert_eq!(matches[0].col, 0);
    assert_eq!(matches[1].line, 1);
    assert_eq!(matches[1].col, 0);
}

#[test]
fn test_find_matches_multiple_occurrences() {
    let buffer = TextBuffer::new("foo bar foo baz foo");
    let matches = find_matches(&buffer, "foo", false);

    assert_eq!(matches.len(), 3);
    assert_eq!(matches[0].col, 0);
    assert_eq!(matches[1].col, 8);
    assert_eq!(matches[2].col, 16);
}

#[test]
fn test_find_matches_multiline() {
    let buffer = TextBuffer::new("line1\nfoo\nline3\nfoo");
    let matches = find_matches(&buffer, "foo", false);

    assert_eq!(matches.len(), 2);
    assert_eq!(matches[0].line, 1);
    assert_eq!(matches[1].line, 3);
}

#[test]
fn test_find_matches_empty_query() {
    let buffer = TextBuffer::new("Hello World");
    let matches = find_matches(&buffer, "", false);

    assert_eq!(matches.len(), 0);
}

#[test]
fn test_find_matches_no_results() {
    let buffer = TextBuffer::new("Hello World");
    let matches = find_matches(&buffer, "xyz", false);

    assert_eq!(matches.len(), 0);
}

#[test]
fn test_find_matches_non_overlapping() {
    let buffer = TextBuffer::new("aaaa");
    let matches = find_matches(&buffer, "aa", true);

    assert_eq!(matches.len(), 2);
    assert_eq!(matches[0].col, 0);
    assert_eq!(matches[1].col, 2);
}

#[test]
fn test_find_matches_multibyte_columns() {
    let buffer = TextBuffer::new("安全与合规 safety 安全");
    let matches = find_matches(&buffer, "安全", true);

    assert_eq!(matches.len(), 2);
    assert_eq!(matches[0].col, 0);
    assert_eq!(matches[1].col, 13);
}

#[test]
fn test_search_state_navigation() {
    let buffer = TextBuffer::new("foo bar foo baz foo");
    let mut state = SearchState::new();
    state.set_query("foo".to_string(), &buffer);

    assert_eq!(state.match_count(), 3);
    assert_eq!(state.current_match_index, Some(0));

    state.next_match();
    assert_eq!(state.current_match_index, Some(1));

    state.next_match();
    assert_eq!(state.current_match_index, Some(2));

    // Test wrap-around
    state.next_match();
    assert_eq!(state.current_match_index, Some(0));

    // Test previous
    state.previous_match();
    assert_eq!(state.current_match_index, Some(2));
}

#[test]
fn test_search_state_toggle_case() {
    let buffer = TextBuffer::new("Hello hello");
    let mut state = SearchState::new();
    state.set_query("hello".to_string(), &buffer);

    assert_eq!(state.match_count(), 2);

    state.toggle_case_sensitive(&buffer);
    assert_eq!(state.match_count(), 1);

    state.toggle_case_sensitive(&buffer);
    assert_eq!(state.match_count(), 2);
}

#[test]
fn test_search_wraparound_both_directions() {
    let buffer = TextBuffer::new("x x x");
    let mut state = SearchState::new();
    state.set_query("x".to_string(), &buffer);
    assert_eq!(state.current_match_index, Some(0));

    // previous from the first match wraps to the last
    state.previous_match();
    assert_eq!(state.current_match_index, Some(2));

    // three nexts from the last match return to it
    state.next_match();
    state.next_match();
    state.next_match();
    assert_eq!(state.current_match_index, Some(2));
}

#[test]
fn test_select_match_near_cursor() {
    let buffer = TextBuffer::new("foo\n\nfoo\n\nfoo");
    let mut state = SearchState::new();
    state.set_query("foo".to_string(), &buffer);
    assert_eq!(state.match_count(), 3);

    state.select_match_near_cursor((4, 0));
    assert_eq!(state.current_match_index, Some(2));

    state.select_match_near_cursor((1, 2));
    assert_eq!(state.current_match_index, Some(0));
}

#[test]
fn test_replace_all_disjoint_text() {
    let mut buffer = TextBuffer::new("foo foo foo");
    let mut cursor = (0, 0);
    let mut history = CommandHistory::new(10);
    let mut state = SearchState::new();
    state.set_query("foo".to_string(), &buffer);
    state.set_replace_with("bar".to_string());

    state.replace_all(&mut buffer, &mut cursor, &mut history);

    assert_eq!(buffer.to_string(), "bar bar bar");
    assert_eq!(state.match_count(), 0);
    assert_eq!(state.current_match_index, None);

    // The whole replacement is one undo step.
    assert_eq!(history.undo_count(), 1);
    history.undo(&mut buffer, &mut cursor);
    assert_eq!(buffer.to_string(), "foo foo foo");
}

#[test]
fn test_replace_current_advances() {
    let mut buffer = TextBuffer::new("foo foo");
    let mut cursor = (0, 0);
    let mut history = CommandHistory::new(10);
    let mut state = SearchState::new();
    state.set_query("foo".to_string(), &buffer);
    state.set_replace_with("qux".to_string());

    state.replace_current(&mut buffer, &mut cursor, &mut history);
    assert_eq!(buffer.to_string(), "qux foo");
    assert_eq!(state.match_count(), 1);
    assert_eq!(state.current_match_index, Some(0));
    assert_eq!(cursor, (0, 3));

    state.replace_current(&mut buffer, &mut cursor, &mut history);
    assert_eq!(buffer.to_string(), "qux qux");
    assert_eq!(state.match_count(), 0);
    assert_eq!(history.undo_count(), 2);
}

#[test]
fn test_search_dialog_fields() {
    let buffer = TextBuffer::new("abc");
    let mut state = SearchState::new();
    assert!(!state.is_open);

    state.open_replace();
    assert!(state.is_open);
    assert!(state.is_replace_mode);

    state.focus_next_field();
    state.focus_previous_field();

    state.close();
    assert!(!state.is_open);

    state.set_query("b".to_string(), &buffer);
    assert_eq!(state.match_count(), 1);
    let m = state.current_match().unwrap();
    assert_eq!((m.line, m.col), (0, 1));
}
