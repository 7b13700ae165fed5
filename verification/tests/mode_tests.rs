use zorforge::mode::{CommandType, CursorStyle, InsertVariant, Mode, ModeTrigger, VisualVariant};

#[test]
fn test_mode_transitions() {
    let normal = Mode::Normal;

    assert_eq!(normal.transition(ModeTrigger::InsertNormal), Mode::Insert(InsertVariant::Insert));
    assert_eq!(normal.transition(ModeTrigger::InsertAppend), Mode::Insert(InsertVariant::Append));
    assert_eq!(
        normal.transition(ModeTrigger::InsertAppendEnd),
        Mode::Insert(InsertVariant::AppendEnd)
    );

    assert_eq!(normal.transition(ModeTrigger::VisualChar), Mode::Visual(VisualVariant::Char));
    assert_eq!(normal.transition(ModeTrigger::VisualLine), Mode::Visual(VisualVariant::Line));
    assert_eq!(normal.transition(ModeTrigger::VisualBlock), Mode::Visual(VisualVariant::Block));

    assert_eq!(normal.transition(ModeTrigger::CommandMode), Mode::Command(CommandType::Regular));
    assert_eq!(normal.transition(ModeTrigger::SearchForward), Mode::Command(CommandType::Search));
    assert_eq!(
        normal.transition(ModeTrigger::SearchBackward),
        Mode::Command(CommandType::Backward)
    );
}

#[test]
fn test_escape_from_all_modes() {
    let modes = vec![
        Mode::Insert(InsertVariant::Insert),
        Mode::Visual(VisualVariant::Char),
        Mode::Command(CommandType::Regular),
    ];

    for mode in modes {
        assert_eq!(mode.transition(ModeTrigger::Escape), Mode::Normal);
    }
}

#[test]
fn test_visual_mode_operations() {
    let visual = Mode::Visual(VisualVariant::Char);

    assert_eq!(visual.transition(ModeTrigger::VisualYank), Mode::Normal);
    assert_eq!(visual.transition(ModeTrigger::VisualDelete), Mode::Normal);

    assert_eq!(visual.transition(ModeTrigger::VisualChange), Mode::Insert(InsertVariant::Insert));

    let visual_line = Mode::Visual(VisualVariant::Line);
    assert_eq!(visual_line.transition(ModeTrigger::VisualIndent), Mode::Visual(VisualVariant::Line));
}

#[test]
fn test_command_mode_completion() {
    let command = Mode::Command(CommandType::Regular);
    let search = Mode::Command(CommandType::Search);

    assert_eq!(command.transition(ModeTrigger::Enter), Mode::Normal);
    assert_eq!(search.transition(ModeTrigger::Enter), Mode::Normal);
}

#[test]
fn test_permission_checks() {
    let normal = Mode::Normal;
    let insert = Mode::Insert(InsertVariant::Insert);
    let visual = Mode::Visual(VisualVariant::Char);
    let command = Mode::Command(CommandType::Regular);

    assert!(!normal.allows_text_input());
    assert!(insert.allows_text_input());
    assert!(!visual.allows_text_input());
    assert!(command.allows_text_input());

    assert!(normal.allows_cursor_movement());
    assert!(insert.allows_cursor_movement());
    assert!(visual.allows_cursor_movement());
    assert!(!command.allows_cursor_movement());

    assert!(normal.allows_deletion());
    assert!(insert.allows_deletion());
    assert!(!visual.allows_deletion());
    assert!(command.allows_deletion());

    assert!(normal.allows_undo());
    assert!(!insert.allows_undo());
    assert!(!visual.allows_undo());
    assert!(!command.allows_undo());
}

#[test]
fn test_display_names() {
    assert_eq!(Mode::Normal.display_name(), "NORMAL");
    assert_eq!(Mode::Insert(InsertVariant::Insert).display_name(), "INSERT");
    assert_eq!(Mode::Visual(VisualVariant::Line).display_name(), "VISUAL LINE");
    assert_eq!(Mode::Command(CommandType::Regular).display_name(), "COMMAND");
}

#[test]
fn test_cursor_styles() {
    assert_eq!(Mode::Normal.cursor_style(), CursorStyle::Block);
    assert_eq!(Mode::Insert(InsertVariant::Insert).cursor_style(), CursorStyle::Line);
    assert_eq!(Mode::Insert(InsertVariant::Replace).cursor_style(), CursorStyle::Underline);
    assert_eq!(Mode::Command(CommandType::Regular).cursor_style(), CursorStyle::Line);
}

#[test]
fn test_command_prefixes() {
    assert_eq!(Mode::Command(CommandType::Regular).command_prefix(), ":");
    assert_eq!(Mode::Command(CommandType::Search).command_prefix(), "/");
    assert_eq!(Mode::Command(CommandType::Backward).command_prefix(), "?");
    assert_eq!(Mode::Normal.command_prefix(), "");
}

#[test]
fn test_visual_variant_access() {
    assert_eq!(Mode::Visual(VisualVariant::Char).get_visual_variant(), Some(VisualVariant::Char));
    assert_eq!(Mode::Normal.get_visual_variant(), None);
}

#[test]
fn test_movement_preserves_mode() {
    let insert = Mode::Insert(InsertVariant::Append);
    assert_eq!(insert.transition(ModeTrigger::ArrowLeft), insert);
    let visual = Mode::Visual(VisualVariant::Block);
    assert_eq!(visual.transition(ModeTrigger::MoveWordForward), visual);
    let command = Mode::Command(CommandType::Search);
    assert_eq!(command.transition(ModeTrigger::ArrowLeft), command);
}

#[test]
fn test_mouse_drag_keeps_active_visual_variant() {
    let visual_line = Mode::Visual(VisualVariant::Line);
    assert_eq!(visual_line.transition(ModeTrigger::MouseDrag), visual_line);
    let visual_block = Mode::Visual(VisualVariant::Block);
    assert_eq!(visual_block.transition(ModeTrigger::MouseDrag), visual_block);
    assert_eq!(
        Mode::Normal.transition(ModeTrigger::MouseDrag),
        Mode::Visual(VisualVariant::Char)
    );
}

#[test]
fn test_unrecognised_pair_is_no_op() {
    let insert = Mode::Insert(InsertVariant::Replace);
    assert_eq!(insert.transition(ModeTrigger::VisualYank), insert);
    let command = Mode::Command(CommandType::Regular);
    assert_eq!(command.transition(ModeTrigger::InsertNormal), command);
}
