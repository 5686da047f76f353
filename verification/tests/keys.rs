use openedit_ui::keys::{
    egui_key_to_vim_str, key_command, key_named, modifies_document, recorded_in_macro,
    typed_text_action, EditorKey, KeyCommand, TypedText,
};

#[test]
fn clipboard_and_movement_bindings() {
    assert_eq!(key_command(EditorKey::C, true, false, false), Some(KeyCommand::Copy));
    assert_eq!(key_command(EditorKey::C, false, false, false), None);
    assert_eq!(key_command(EditorKey::X, true, false, false), Some(KeyCommand::Cut));
    assert_eq!(key_command(EditorKey::ArrowUp, false, false, true), Some(KeyCommand::MoveLineUp));
    assert_eq!(key_command(EditorKey::ArrowUp, false, false, false), Some(KeyCommand::Up));
    assert_eq!(key_command(EditorKey::ArrowDown, false, false, true), Some(KeyCommand::MoveLineDown));
    assert_eq!(key_command(EditorKey::ArrowLeft, true, false, false), Some(KeyCommand::WordLeft));
    assert_eq!(key_command(EditorKey::ArrowRight, false, true, false), Some(KeyCommand::Right));
    assert_eq!(key_command(EditorKey::Home, true, false, false), Some(KeyCommand::DocStart));
    assert_eq!(key_command(EditorKey::Home, false, false, false), Some(KeyCommand::LineStart));
    assert_eq!(key_command(EditorKey::End, true, false, false), Some(KeyCommand::DocEnd));
    assert_eq!(key_command(EditorKey::PageDown, true, true, true), Some(KeyCommand::PageDown));
}

#[test]
fn editing_bindings() {
    assert_eq!(key_command(EditorKey::K, true, true, false), Some(KeyCommand::DeleteLine));
    assert_eq!(key_command(EditorKey::K, true, false, false), None);
    assert_eq!(key_command(EditorKey::Backspace, true, false, false), Some(KeyCommand::DeleteWordLeft));
    assert_eq!(key_command(EditorKey::Backspace, false, false, false), Some(KeyCommand::Backspace));
    assert_eq!(key_command(EditorKey::Delete, true, false, false), Some(KeyCommand::DeleteWordRight));
    assert_eq!(key_command(EditorKey::Delete, false, false, false), Some(KeyCommand::DeleteForward));
    assert_eq!(key_command(EditorKey::Enter, false, false, false), Some(KeyCommand::NewlineWithIndent));
    assert_eq!(key_command(EditorKey::Tab, false, true, false), Some(KeyCommand::Outdent));
    assert_eq!(key_command(EditorKey::Tab, false, false, false), Some(KeyCommand::Indent));
    assert_eq!(key_command(EditorKey::Z, true, true, false), Some(KeyCommand::Redo));
    assert_eq!(key_command(EditorKey::Z, true, false, false), Some(KeyCommand::Undo));
    assert_eq!(key_command(EditorKey::Y, true, false, false), Some(KeyCommand::Redo));
    assert_eq!(key_command(EditorKey::Slash, true, false, false), Some(KeyCommand::ToggleComment));
    assert_eq!(key_command(EditorKey::D, true, false, false), Some(KeyCommand::DuplicateLine));
    assert_eq!(key_command(EditorKey::L, true, true, false), Some(KeyCommand::SelectAllOccurrences));
    assert_eq!(key_command(EditorKey::L, true, false, false), None);
    assert_eq!(key_command(EditorKey::A, true, false, false), Some(KeyCommand::SelectAll));
    assert_eq!(key_command(EditorKey::Escape, false, false, false), Some(KeyCommand::Cancel));
    assert_eq!(key_command(EditorKey::Other, true, true, true), None);
}

#[test]
fn modifying_and_recorded_commands() {
    assert!(modifies_document(KeyCommand::Backspace));
    assert!(modifies_document(KeyCommand::ToggleComment));
    assert!(modifies_document(KeyCommand::DuplicateLine));
    assert!(!modifies_document(KeyCommand::Copy));
    assert!(!modifies_document(KeyCommand::Cut));
    assert!(!modifies_document(KeyCommand::Undo));
    assert!(recorded_in_macro(KeyCommand::Copy));
    assert!(!recorded_in_macro(KeyCommand::SelectAllOccurrences));
}

#[test]
fn vim_key_strings() {
    assert_eq!(egui_key_to_vim_str(EditorKey::R, true, false, false), Some("Ctrl+r".to_string()));
    assert_eq!(egui_key_to_vim_str(EditorKey::R, true, true, false), Some("Ctrl+R".to_string()));
    assert_eq!(egui_key_to_vim_str(EditorKey::U, true, false, false), Some("Ctrl+u".to_string()));
    assert_eq!(egui_key_to_vim_str(EditorKey::C, true, false, false), None);
    assert_eq!(egui_key_to_vim_str(EditorKey::Escape, false, false, false), Some("Escape".to_string()));
    assert_eq!(egui_key_to_vim_str(EditorKey::PageUp, false, true, false), Some("PageUp".to_string()));
    assert_eq!(egui_key_to_vim_str(EditorKey::A, false, false, false), None);
}

#[test]
fn recorded_key_names() {
    assert_eq!(key_named("ArrowUp"), EditorKey::ArrowUp);
    assert_eq!(key_named("Z"), EditorKey::Z);
    assert_eq!(key_named("Escape"), EditorKey::Escape);
    assert_eq!(key_named("F5"), EditorKey::Other);
    assert_eq!(key_named("arrowup"), EditorKey::Other);
    assert_eq!(key_command(key_named("Backspace"), true, false, false), Some(KeyCommand::DeleteWordLeft));
}

#[test]
fn bracket_auto_close() {
    assert_eq!(typed_text_action("(", None), TypedText::InsertPair(')'));
    assert_eq!(typed_text_action("[", Some(']')), TypedText::InsertPair(']'));
    assert_eq!(typed_text_action("{", Some('x')), TypedText::InsertPair('}'));
    assert_eq!(typed_text_action("\"", Some('"')), TypedText::SkipQuote);
    assert_eq!(typed_text_action("'", Some('a')), TypedText::InsertPair('\''));
    assert_eq!(typed_text_action(")", Some(')')), TypedText::SkipCloser);
    assert_eq!(typed_text_action("]", Some(')')), TypedText::Insert);
    assert_eq!(typed_text_action("x", Some('x')), TypedText::Insert);
    assert_eq!(typed_text_action("()", None), TypedText::Insert);
    assert_eq!(typed_text_action("é", None), TypedText::Insert);
}
