use zorforge::buffer::Buffer;

#[test]
fn test_new_buffer() {
    let buffer = Buffer::new();
    assert_eq!(buffer.get_cursor_position(), (0, 0));
    assert_eq!(buffer.get_content(), vec![String::new()]);
    assert_eq!(buffer.tab_size, 4);
}

#[test]
fn test_insert_char() {
    let mut buffer = Buffer::new();
    buffer.insert_char('a');
    assert_eq!(buffer.get_line(0), Some("a".to_string()));
    assert_eq!(buffer.get_cursor_position(), (0, 1));
}

#[test]
fn test_delete_char() {
    let mut buffer = Buffer::new();
    buffer.insert_char('a');
    buffer.delete_char();
    assert_eq!(buffer.get_line(0), Some(String::new()));
    assert_eq!(buffer.get_cursor_position(), (0, 0));
}

#[test]
fn test_insert_line_splits_at_cursor() {
    let mut buffer = Buffer::new();
    buffer.replace_line(0, "abc".to_string());
    buffer.set_cursor_position(0, 1);
    buffer.insert_line();
    assert_eq!(buffer.line_count(), 2);
    assert_eq!(buffer.get_line(0), Some("a".to_string()));
    assert_eq!(buffer.get_line(1), Some("bc".to_string()));
    assert_eq!(buffer.get_cursor_position(), (1, 0));
}

#[test]
fn test_cursor_movement() {
    let mut buffer = Buffer::new();
    buffer.insert_char('a');
    buffer.insert_line();
    buffer.insert_char('b');

    buffer.move_cursor("up");
    assert_eq!(buffer.get_cursor_position(), (0, 1));

    buffer.move_cursor("down");
    assert_eq!(buffer.get_cursor_position(), (1, 1));

    buffer.move_cursor("left");
    assert_eq!(buffer.get_cursor_position(), (1, 0));

    buffer.move_cursor("right");
    assert_eq!(buffer.get_cursor_position(), (1, 1));
}

#[test]
fn test_visual_selection() {
    let mut buffer = Buffer::new();
    buffer.insert_char('a');
    buffer.insert_char('b');
    buffer.insert_char('c');

    buffer.set_cursor_position(0, 0);
    buffer.start_visual();
    buffer.set_cursor_position(0, 3);

    let selected_text = buffer.get_selected_text().unwrap();
    assert_eq!(selected_text, "abc");

    buffer.clear_visual();
    assert_eq!(buffer.get_visual_selection(), None);
}

#[test]
fn test_multiline_visual_selection() {
    let mut buffer = Buffer::new();
    buffer.insert_char('a');
    buffer.insert_line();
    buffer.insert_char('b');
    buffer.insert_line();
    buffer.insert_char('c');

    buffer.set_cursor_position(0, 0);
    buffer.start_visual();
    buffer.set_cursor_position(2, 1);

    let selected_text = buffer.get_selected_text().unwrap();
    assert_eq!(selected_text, "a\nb\nc");
}

#[test]
fn test_prepare_append() {
    let mut buffer = Buffer::new();
    buffer.insert_char('a');
    buffer.set_cursor_position(0, 0);
    buffer.prepare_append();
    assert_eq!(buffer.get_cursor_position().1, 1);
}

#[test]
fn test_prepare_append_end_of_line() {
    let mut buffer = Buffer::new();
    buffer.insert_char('a');
    buffer.insert_char('b');
    buffer.set_cursor_position(0, 0);
    buffer.prepare_append_end_of_line();
    assert_eq!(buffer.get_cursor_position().1, 2);
}

#[test]
fn test_prepare_insert_start_of_line() {
    let mut buffer = Buffer::new();
    buffer.replace_line(0, "    text".to_string());
    buffer.set_cursor_position(0, 6);
    buffer.prepare_insert_start_of_line();
    assert_eq!(buffer.get_cursor_position().1, 4);
}

#[test]
fn test_insert_line_below() {
    let mut buffer = Buffer::new();
    buffer.replace_line(0, "    first line".to_string());
    buffer.insert_line_below();
    assert_eq!(buffer.line_count(), 2);
    assert_eq!(buffer.get_line(1), Some("    ".to_string()));
    assert_eq!(buffer.get_cursor_position(), (1, 4));
}

#[test]
fn test_insert_line_above() {
    let mut buffer = Buffer::new();
    buffer.replace_line(0, "    first line".to_string());
    buffer.insert_line_above();
    assert_eq!(buffer.line_count(), 2);
    assert_eq!(buffer.get_line(0), Some("    ".to_string()));
    assert_eq!(buffer.get_line(1), Some("    first line".to_string()));
    assert_eq!(buffer.get_cursor_position(), (0, 4));
}

#[test]
fn test_insert_char_replace() {
    let mut buffer = Buffer::new();
    buffer.insert_char('a');
    buffer.insert_char('b');
    buffer.set_cursor_position(0, 0);
    buffer.insert_char_replace('x');
    assert_eq!(buffer.get_line(0), Some("xb".to_string()));
    assert_eq!(buffer.get_cursor_position().1, 1);
}

#[test]
fn test_insert_newline_auto_indent() {
    let mut buffer = Buffer::new();
    buffer.replace_line(0, "    first line".to_string());
    buffer.set_cursor_position(0, 8);
    buffer.insert_newline_auto_indent();
    assert_eq!(buffer.get_line(0), Some("    firs".to_string()));
    assert_eq!(buffer.get_line(1), Some("    t line".to_string()));
    assert_eq!(buffer.get_cursor_position(), (1, 4));
}

#[test]
fn test_search_basic() {
    let mut buffer = Buffer::new();
    buffer.replace_line(0, "first line".to_string());
    buffer.insert_at(1, "second line".to_string());
    buffer.insert_at(2, "third line".to_string());

    let matches = buffer.search("line", true);
    assert_eq!(matches, 3);
    assert_eq!(buffer.search_matches.len(), 3);
    assert_eq!(buffer.current_match, Some(0));
}

#[test]
fn test_search_case_insensitive() {
    let mut buffer = Buffer::new();
    buffer.replace_line(0, "UPPER LINE".to_string());
    buffer.insert_at(1, "lower line".to_string());

    let matches = buffer.search("line", false);
    assert_eq!(matches, 2);
}

#[test]
fn test_search_navigation() {
    let mut buffer = Buffer::new();
    buffer.replace_line(0, "line one".to_string());
    buffer.insert_at(1, "line two".to_string());

    buffer.search("line", true);
    assert_eq!(buffer.get_cursor_position(), (0, 0));

    buffer.next_match();
    assert_eq!(buffer.get_cursor_position(), (1, 0));

    buffer.previous_match();
    assert_eq!(buffer.get_cursor_position(), (0, 0));
}

#[test]
fn test_undo_restores_insert() {
    let mut buffer = Buffer::new();
    buffer.insert_char('a');
    buffer.insert_char('b');
    assert!(buffer.undo());
    assert_eq!(buffer.get_line(0), Some("a".to_string()));
    assert_eq!(buffer.get_cursor_position(), (0, 1));
    assert!(buffer.undo());
    assert_eq!(buffer.get_line(0), Some(String::new()));
    assert_eq!(buffer.get_cursor_position(), (0, 0));
    assert!(!buffer.undo());
}

#[test]
fn test_undo_redo_round_trip() {
    let mut buffer = Buffer::new();
    buffer.insert_char('h');
    buffer.insert_char('i');
    buffer.delete_char();
    assert!(buffer.undo());
    assert_eq!(buffer.get_line(0), Some("hi".to_string()));
    assert!(buffer.redo());
    assert_eq!(buffer.get_line(0), Some("h".to_string()));
    assert_eq!(buffer.get_cursor_position(), (0, 1));
}

#[test]
fn test_undo_restores_newline_split() {
    let mut buffer = Buffer::new();
    buffer.replace_line(0, "    first line".to_string());
    buffer.set_cursor_position(0, 8);
    buffer.insert_newline_auto_indent();
    assert!(buffer.undo());
    assert_eq!(buffer.line_count(), 1);
    assert_eq!(buffer.get_line(0), Some("    first line".to_string()));
    assert_eq!(buffer.get_cursor_position(), (0, 8));
}

#[test]
fn test_undo_restores_line_join() {
    let mut buffer = Buffer::new();
    buffer.replace_line(0, "ab".to_string());
    buffer.insert_at(1, "cd".to_string());
    buffer.set_cursor_position(1, 0);
    buffer.delete_char();
    assert_eq!(buffer.get_line(0), Some("abcd".to_string()));
    assert_eq!(buffer.line_count(), 1);
    assert!(buffer.undo());
    assert_eq!(buffer.get_line(0), Some("ab".to_string()));
    assert_eq!(buffer.get_line(1), Some("cd".to_string()));
    assert_eq!(buffer.get_cursor_position(), (1, 0));
}

#[test]
fn test_delete_backward_at_origin_is_no_op() {
    let mut buffer = Buffer::new();
    buffer.replace_line(0, "abc".to_string());
    buffer.set_cursor_position(0, 0);
    buffer.delete_char();
    assert_eq!(buffer.get_line(0), Some("abc".to_string()));
    assert_eq!(buffer.get_stack_sizes(), (0, 0));
}

#[test]
fn test_delete_forward_at_document_end_is_no_op() {
    let mut buffer = Buffer::new();
    buffer.replace_line(0, "abc".to_string());
    buffer.set_cursor_position(0, 3);
    buffer.delete_char_forward();
    assert_eq!(buffer.get_line(0), Some("abc".to_string()));
    assert_eq!(buffer.get_stack_sizes(), (0, 0));
}

#[test]
fn test_match_navigation_saturates() {
    let mut buffer = Buffer::new();
    buffer.replace_line(0, "line".to_string());
    buffer.search("line", true);
    assert!(!buffer.previous_match());
    assert_eq!(buffer.get_cursor_position(), (0, 0));
    assert!(!buffer.next_match());
    assert_eq!(buffer.get_cursor_position(), (0, 0));
}

#[test]
fn test_search_moves_cursor_to_first_match() {
    let mut buffer = Buffer::new();
    buffer.replace_line(0, "first line".to_string());
    buffer.insert_at(1, "second line".to_string());
    buffer.insert_at(2, "third line".to_string());
    let count = buffer.search("line", true);
    assert_eq!(count, 3);
    assert_eq!(buffer.current_match, Some(0));
    assert_eq!(buffer.get_cursor_position(), (0, 6));
}

#[test]
fn test_search_reports_overlapping_occurrences() {
    let mut buffer = Buffer::new();
    buffer.replace_line(0, "aaa".to_string());
    let count = buffer.search("aa", true);
    assert_eq!(count, 2);
    assert_eq!(buffer.search_matches, vec![(0, 0, 2), (0, 1, 3)]);
}

#[test]
fn test_mark_saved_tracks_changes() {
    let mut buffer = Buffer::new();
    assert!(!buffer.has_unsaved_changes());
    buffer.insert_char('a');
    assert!(buffer.has_unsaved_changes());
    buffer.mark_saved();
    assert!(!buffer.has_unsaved_changes());
    buffer.insert_char('b');
    assert!(buffer.has_unsaved_changes());
}

#[test]
fn test_new_buffer_scenario_two_chars() {
    let mut buffer = Buffer::new();
    buffer.insert_char('a');
    buffer.insert_char('b');
    assert_eq!(buffer.get_content(), vec!["ab".to_string()]);
    assert_eq!(buffer.get_cursor_position(), (0, 2));
}

#[test]
fn test_insert_line_below_without_indentation() {
    let mut buffer = Buffer::new();
    buffer.replace_line(0, "a".to_string());
    buffer.insert_line_below();
    assert_eq!(buffer.get_content(), vec!["a".to_string(), String::new()]);
    assert_eq!(buffer.get_cursor_position(), (1, 0));
}

#[test]
fn test_delete_selection_scenario() {
    let mut buffer = Buffer::new();
    buffer.replace_line(0, "abc".to_string());
    buffer.set_cursor_position(0, 0);
    buffer.start_visual();
    buffer.set_cursor_position(0, 3);
    assert_eq!(buffer.get_selected_text(), Some("abc".to_string()));
    assert!(buffer.delete_selection());
    assert_eq!(buffer.get_content(), vec![String::new()]);
    assert_eq!(buffer.get_cursor_position(), (0, 0));
}

#[test]
fn test_delete_selection_across_rows() {
    let mut buffer = Buffer::new();
    buffer.replace_line(0, "abc".to_string());
    buffer.insert_at(1, "def".to_string());
    buffer.insert_at(2, "ghi".to_string());
    buffer.set_cursor_position(0, 1);
    buffer.start_visual();
    buffer.set_cursor_position(2, 2);
    assert_eq!(buffer.get_selected_text(), Some("bc\ndef\ngh".to_string()));
    assert!(buffer.delete_selection());
    assert_eq!(buffer.get_content(), vec!["ai".to_string()]);
    assert_eq!(buffer.get_cursor_position(), (0, 1));
}

#[test]
fn test_delete_selection_across_rows_reversed_anchor() {
    let mut buffer = Buffer::new();
    buffer.replace_line(0, "one".to_string());
    buffer.insert_at(1, "two".to_string());
    buffer.set_cursor_position(1, 1);
    buffer.start_visual();
    buffer.set_cursor_position(0, 2);
    assert!(buffer.delete_selection());
    assert_eq!(buffer.get_content(), vec!["onwo".to_string()]);
    assert_eq!(buffer.get_cursor_position(), (0, 2));
}

#[test]
fn test_content_never_empties() {
    let mut buffer = Buffer::new();
    buffer.replace_line(0, "one".to_string());
    buffer.insert_at(1, "two".to_string());
    buffer.set_cursor_position(0, 0);
    buffer.start_visual();
    buffer.toggle_visual_mode(zorforge::buffer::VisualMode::Line);
    buffer.set_cursor_position(1, 0);
    buffer.delete_selection();
    assert_eq!(buffer.line_count(), 1);
    assert_eq!(buffer.get_line(0), Some(String::new()));
}

#[test]
fn test_word_motions() {
    let mut buffer = Buffer::new();
    buffer.replace_line(0, "one two  three".to_string());
    buffer.set_cursor_position(0, 0);
    buffer.move_word_forward();
    assert_eq!(buffer.get_cursor_position(), (0, 4));
    buffer.move_word_forward();
    assert_eq!(buffer.get_cursor_position(), (0, 9));
    buffer.move_word_backward();
    assert_eq!(buffer.get_cursor_position(), (0, 6));
}

#[test]
fn test_indent_and_dedent_line() {
    let mut buffer = Buffer::new();
    buffer.replace_line(0, "text".to_string());
    buffer.set_cursor_position(0, 2);
    buffer.indent_line(4);
    assert_eq!(buffer.get_line(0), Some("    text".to_string()));
    assert_eq!(buffer.get_cursor_position(), (0, 6));
    buffer.dedent_line(4);
    assert_eq!(buffer.get_line(0), Some("text".to_string()));
    assert_eq!(buffer.get_cursor_position(), (0, 2));
    buffer.dedent_line(4);
    assert_eq!(buffer.get_line(0), Some("text".to_string()));
}

#[test]
fn test_select_word_inner() {
    let mut buffer = Buffer::new();
    buffer.replace_line(0, "foo bar baz".to_string());
    buffer.set_cursor_position(0, 5);
    buffer.select_word(zorforge::buffer::SelectionType::Inner);
    assert_eq!(buffer.get_visual_selection(), Some(((0, 4), (0, 7))));
    assert_eq!(buffer.get_selected_text(), Some("bar".to_string()));
}

#[test]
fn test_select_paired_chars_inner() {
    let mut buffer = Buffer::new();
    buffer.replace_line(0, "f(a, b)".to_string());
    buffer.set_cursor_position(0, 0);
    buffer.select_paired_chars('(', ')', zorforge::buffer::SelectionType::Inner);
    assert_eq!(buffer.get_selected_text(), Some("a, b".to_string()));
}
