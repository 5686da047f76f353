use openedit_ui::macro_recorder::{actions_from_script, actions_to_script, MacroAction, MacroRecorder};

#[test]
fn test_new_recorder_not_recording() {
    let rec = MacroRecorder::new();
    assert!(!rec.is_recording());
    assert!(rec.actions.is_empty());
    assert!(rec.saved_macros.is_empty());
    assert!(rec.named_macros.is_empty());
}

#[test]
fn test_start_stop_recording() {
    let mut rec = MacroRecorder::new();
    rec.start_recording();
    assert!(rec.is_recording());
    rec.stop_recording();
    assert!(!rec.is_recording());
}

#[test]
fn test_record_action_while_recording() {
    let mut rec = MacroRecorder::new();
    rec.start_recording();
    rec.record_action(MacroAction::InsertText("hello".to_string()));
    rec.record_action(MacroAction::KeyAction {
        key: "Enter".to_string(),
        ctrl: false,
        shift: false,
        alt: false,
    });
    assert_eq!(rec.actions.len(), 2);
}

#[test]
fn test_record_action_while_not_recording() {
    let mut rec = MacroRecorder::new();
    rec.record_action(MacroAction::InsertText("hello".to_string()));
    assert!(rec.actions.is_empty());
}

#[test]
fn test_start_recording_clears_previous() {
    let mut rec = MacroRecorder::new();
    rec.start_recording();
    rec.record_action(MacroAction::InsertText("first".to_string()));
    rec.stop_recording();
    assert_eq!(rec.actions.len(), 1);

    rec.start_recording();
    assert!(rec.actions.is_empty());
}

#[test]
fn test_save_macro() {
    let mut rec = MacroRecorder::new();
    rec.start_recording();
    rec.record_action(MacroAction::InsertText("test".to_string()));
    rec.stop_recording();

    rec.save_macro("my_macro".to_string());
    assert_eq!(rec.saved_macros.len(), 1);
    assert_eq!(rec.saved_macros[0].0, "my_macro");
    assert_eq!(rec.saved_macros[0].1.len(), 1);
    assert!(rec.named_macros.contains_key("my_macro"));
}

#[test]
fn test_save_empty_macro_does_nothing() {
    let mut rec = MacroRecorder::new();
    rec.save_macro("empty".to_string());
    assert!(rec.saved_macros.is_empty());
    assert!(rec.named_macros.is_empty());
}

#[test]
fn test_last_recorded() {
    let mut rec = MacroRecorder::new();
    assert!(rec.last_recorded().is_empty());

    rec.start_recording();
    rec.record_action(MacroAction::Paste("pasted".to_string()));
    rec.stop_recording();

    let recorded = rec.last_recorded();
    assert_eq!(recorded.len(), 1);
    match &recorded[0] {
        MacroAction::Paste(text) => assert_eq!(text, "pasted"),
        _ => panic!("Expected Paste action"),
    }
}

#[test]
fn test_named_macros() {
    let mut rec = MacroRecorder::new();
    rec.start_recording();
    rec.record_action(MacroAction::InsertText("hello".to_string()));
    rec.stop_recording();
    rec.save_macro("greeting".to_string());

    assert_eq!(rec.macro_names(), vec!["greeting".to_string()]);
    assert!(rec.get_named_macro("greeting").is_some());
    assert_eq!(rec.get_named_macro("greeting").unwrap().len(), 1);
}

#[test]
fn test_load_named_macro() {
    let mut rec = MacroRecorder::new();
    rec.start_recording();
    rec.record_action(MacroAction::InsertText("hello".to_string()));
    rec.stop_recording();
    rec.save_macro("greeting".to_string());

    // Clear current actions
    rec.start_recording();
    rec.stop_recording();
    assert!(rec.actions.is_empty());

    // Load named macro
    assert!(rec.load_named_macro("greeting"));
    assert_eq!(rec.actions.len(), 1);
}

#[test]
fn test_load_nonexistent_macro() {
    let mut rec = MacroRecorder::new();
    assert!(!rec.load_named_macro("nonexistent"));
}

#[test]
fn test_delete_named_macro() {
    let mut rec = MacroRecorder::new();
    rec.start_recording();
    rec.record_action(MacroAction::InsertText("hello".to_string()));
    rec.stop_recording();
    rec.save_macro("greeting".to_string());

    rec.delete_named_macro("greeting");
    assert!(rec.named_macros.is_empty());
    assert!(rec.saved_macros.is_empty());
}

#[test]
fn test_macro_names_sorted() {
    let mut rec = MacroRecorder::new();
    rec.start_recording();
    rec.record_action(MacroAction::InsertText("a".to_string()));
    rec.stop_recording();
    rec.save_macro("zebra".to_string());

    rec.start_recording();
    rec.record_action(MacroAction::InsertText("b".to_string()));
    rec.stop_recording();
    rec.save_macro("alpha".to_string());

    let names = rec.macro_names();
    assert_eq!(names, vec!["alpha".to_string(), "zebra".to_string()]);
}

#[test]
fn test_script_roundtrip() {
    let actions = vec![
        MacroAction::InsertText("hello world".to_string()),
        MacroAction::Paste("line1\nline2".to_string()),
        MacroAction::KeyAction {
            key: "Enter".to_string(),
            ctrl: false,
            shift: false,
            alt: false,
        },
        MacroAction::KeyAction {
            key: "S".to_string(),
            ctrl: true,
            shift: false,
            alt: false,
        },
        MacroAction::KeyAction {
            key: "K".to_string(),
            ctrl: true,
            shift: true,
            alt: false,
        },
        MacroAction::InsertText("has \"quotes\" and \\backslash".to_string()),
    ];

    let script = actions_to_script(&actions);
    let parsed = actions_from_script(&script);

    assert_eq!(parsed.len(), actions.len());

    // Verify round-trip by converting back to script
    let script2 = actions_to_script(&parsed);
    assert_eq!(script, script2);
}

#[test]
fn test_script_line_type() {
    let action = MacroAction::InsertText("hello".to_string());
    assert_eq!(action.to_script_line(), "type \"hello\"");
    let parsed = MacroAction::from_script_line("type \"hello\"").unwrap();
    match parsed {
        MacroAction::InsertText(t) => assert_eq!(t, "hello"),
        _ => panic!("Expected InsertText"),
    }
}

#[test]
fn test_script_line_paste() {
    let action = MacroAction::Paste("clip".to_string());
    assert_eq!(action.to_script_line(), "paste \"clip\"");
    let parsed = MacroAction::from_script_line("paste \"clip\"").unwrap();
    match parsed {
        MacroAction::Paste(t) => assert_eq!(t, "clip"),
        _ => panic!("Expected Paste"),
    }
}

#[test]
fn test_script_line_key_simple() {
    let action = MacroAction::KeyAction {
        key: "Enter".to_string(),
        ctrl: false,
        shift: false,
        alt: false,
    };
    assert_eq!(action.to_script_line(), "key Enter");
}

#[test]
fn test_script_line_key_modifiers() {
    let action = MacroAction::KeyAction {
        key: "S".to_string(),
        ctrl: true,
        shift: true,
        alt: false,
    };
    assert_eq!(action.to_script_line(), "key ctrl+shift+S");

    let parsed = MacroAction::from_script_line("key ctrl+shift+S").unwrap();
    match parsed {
        MacroAction::KeyAction {
            key,
            ctrl,
            shift,
            alt,
        } => {
            assert_eq!(key, "S");
            assert!(ctrl);
            assert!(shift);
            assert!(!alt);
        }
        _ => panic!("Expected KeyAction"),
    }
}

#[test]
fn test_script_blank_and_comment_lines_skipped() {
    let script = "type \"a\"\n\n# comment\nkey Enter\n";
    let parsed = actions_from_script(script);
    assert_eq!(parsed.len(), 2);
}

#[test]
fn test_script_invalid_lines_skipped() {
    let script = "type \"a\"\ninvalid line\nkey Enter\n";
    let parsed = actions_from_script(script);
    assert_eq!(parsed.len(), 2);
}

#[test]
fn merge_loaded_macros_fills_slots() {
    let mut rec = MacroRecorder::new();
    rec.start_recording();
    rec.record_action(MacroAction::InsertText("x".to_string()));
    rec.stop_recording();
    rec.save_macro("keep".to_string());
    assert_eq!(rec.saved_macros.len(), 1);
    let loaded = vec![
        ("keep".to_string(), vec![MacroAction::Paste("p".to_string())]),
        ("fresh".to_string(), vec![MacroAction::InsertText("f".to_string())]),
    ];
    rec.merge_loaded_macros(loaded);
    assert_eq!(rec.macro_names(), vec!["fresh".to_string(), "keep".to_string()]);
    assert_eq!(rec.saved_macros.len(), 2);
    assert_eq!(rec.saved_macros[1].0, "fresh");
    match rec.get_named_macro("keep").expect("slot")[0] {
        MacroAction::Paste(ref t) => assert_eq!(t, "p"),
        _ => panic!("expected the loaded macro"),
    }
}
