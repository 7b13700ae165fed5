use zorforge::buffer::SelectionType;
use zorforge::config::EditorConfig;
use zorforge::editor::Editor;
use zorforge::input::{handle_text_object, GlobalKeyHandler};
use zorforge::mode::{Mode, VisualVariant};

#[test]
fn test_new_editor_defaults() {
    let editor = Editor::new(EditorConfig::default());
    assert_eq!(*editor.mode(), Mode::Normal);
    assert!(!editor.is_readonly());
    assert_eq!(editor.file_info(), "[No Name]");
    assert_eq!(editor.command_line_content(), "");
    assert_eq!(editor.config.tab_size, 4);
}

#[test]
fn test_command_line_editing() {
    let mut editor = Editor::new(EditorConfig::default());
    editor.append_to_command('w');
    editor.append_to_command('q');
    assert_eq!(editor.command_line_content(), "wq");
    editor.delete_from_command();
    assert_eq!(editor.command_line_content(), "w");
    editor.delete_from_command();
    assert_eq!(editor.command_line_content(), "");
    editor.clear_command();
    assert_eq!(editor.command_line_content(), "");
}

#[test]
fn test_cursor_position_info_is_one_based() {
    let mut editor = Editor::new(EditorConfig::default());
    assert_eq!(editor.cursor_position_info(), "1:1");
    editor.buffer.insert_char('a');
    assert_eq!(editor.cursor_position_info(), "1:2");
}

#[test]
fn test_save_buffer_as_joins_lines() {
    let mut editor = Editor::new(EditorConfig::default());
    editor.buffer.replace_line(0, "alpha".to_string());
    editor.buffer.insert_at(1, "beta".to_string());
    let payload = editor.save_buffer_as("notes.txt".to_string());
    assert_eq!(payload, "alpha\nbeta");
    assert_eq!(editor.file_info(), "notes.txt");
    editor.buffer.mark_saved();
    assert!(!editor.has_unsaved_changes());
}

#[test]
fn test_messages() {
    let mut editor = Editor::new(EditorConfig::default());
    assert_eq!(editor.get_message(), None);
    editor.show_message("written");
    assert_eq!(editor.get_message(), Some(&"written".to_string()));
    editor.clear_message();
    assert_eq!(editor.get_message(), None);
}

#[test]
fn test_mouse_drag_enters_visual_mode() {
    let mut editor = Editor::new(EditorConfig::default());
    editor.buffer.replace_line(0, "hello".to_string());
    editor.handle_mouse_drag(3, 0);
    assert_eq!(*editor.mode(), Mode::Visual(VisualVariant::Char));
    assert_eq!(editor.cursor_position(), (0, 3));
}

#[test]
fn test_global_copy_takes_current_line() {
    let mut editor = Editor::new(EditorConfig::default());
    editor.buffer.replace_line(0, "copy me".to_string());
    assert!(GlobalKeyHandler::handle_global_copy(&mut editor));
    assert_eq!(editor.clipboard.peek(), Some(&"copy me".to_string()));
}

#[test]
fn test_global_undo_gated_by_mode() {
    let mut editor = Editor::new(EditorConfig::default());
    editor.buffer.insert_char('x');
    editor.set_mode(Mode::Visual(VisualVariant::Char));
    assert!(!GlobalKeyHandler::handle_undo(&mut editor));
    assert_eq!(editor.buffer.get_line(0), Some("x".to_string()));
    editor.set_mode(Mode::Normal);
    assert!(GlobalKeyHandler::handle_undo(&mut editor));
    assert_eq!(editor.buffer.get_line(0), Some(String::new()));
}

#[test]
fn test_text_object_word() {
    let mut editor = Editor::new(EditorConfig::default());
    editor.buffer.replace_line(0, "alpha beta".to_string());
    editor.buffer.set_cursor_position(0, 7);
    handle_text_object(&mut editor, 'w', SelectionType::Inner);
    assert_eq!(editor.buffer.get_selected_text(), Some("beta".to_string()));
}

#[test]
fn test_cursor_stays_in_bounds() {
    let mut editor = Editor::new(EditorConfig::default());
    editor.buffer.replace_line(0, "ab".to_string());
    editor.buffer.insert_at(1, "c".to_string());
    editor.buffer.set_cursor_position(0, 2);
    editor.buffer.move_cursor("down");
    let (row, col) = editor.cursor_position();
    assert!(row < editor.buffer.line_count());
    assert!(col <= editor.buffer.get_line(row).unwrap().chars().count());
    editor.buffer.move_cursor("bottom");
    editor.buffer.move_cursor("down");
    let (row2, _) = editor.cursor_position();
    assert!(row2 < editor.buffer.line_count());
}

#[test]
fn test_global_cut_takes_selection_and_deletes_it() {
    let mut editor = Editor::new(EditorConfig::default());
    editor.buffer.replace_line(0, "hello world".to_string());
    editor.buffer.set_cursor_position(0, 0);
    editor.buffer.start_visual();
    editor.buffer.set_cursor_position(0, 6);
    assert!(GlobalKeyHandler::handle_global_cut(&mut editor));
    assert_eq!(editor.clipboard.peek(), Some(&"hello ".to_string()));
    assert_eq!(editor.buffer.get_line(0), Some("world".to_string()));
    assert_eq!(editor.buffer.get_visual_selection(), None);
}

#[test]
fn test_paste_over_selection_line_mode() {
    let mut editor = Editor::new(EditorConfig::default());
    editor.buffer.replace_line(0, "aaa".to_string());
    editor.buffer.insert_at(1, "bbb".to_string());
    editor.buffer.insert_at(2, "ccc".to_string());
    if let Some(clip) = &mut editor.buffer.clipboard {
        clip.yank("xx\nyy".to_string());
    }
    editor.buffer.set_cursor_position(0, 0);
    editor.buffer.start_visual();
    editor.buffer.toggle_visual_mode(zorforge::buffer::VisualMode::Line);
    editor.buffer.set_cursor_position(1, 0);
    editor.buffer.paste_over_selection();
    assert_eq!(
        editor.buffer.get_content(),
        vec!["xx".to_string(), "yy".to_string(), "ccc".to_string()]
    );
}

#[test]
fn test_select_paired_chars_without_pair_changes_nothing() {
    let mut editor = Editor::new(EditorConfig::default());
    editor.buffer.replace_line(0, "no brackets (here".to_string());
    editor.buffer.set_cursor_position(0, 0);
    editor.buffer.select_paired_chars('(', ')', SelectionType::Inner);
    assert_eq!(editor.buffer.get_visual_selection(), None);
    assert_eq!(editor.buffer.get_cursor_position(), (0, 0));
}

#[test]
fn test_paste_over_selection_char_mode() {
    let mut editor = Editor::new(EditorConfig::default());
    editor.buffer.replace_line(0, "abcdef".to_string());
    if let Some(clip) = &mut editor.buffer.clipboard {
        clip.yank("XY".to_string());
    }
    editor.buffer.set_cursor_position(0, 1);
    editor.buffer.start_visual();
    editor.buffer.set_cursor_position(0, 4);
    editor.buffer.paste_over_selection();
    assert_eq!(editor.buffer.get_line(0), Some("aXYef".to_string()));
}
