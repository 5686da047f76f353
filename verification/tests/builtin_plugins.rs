use openedit_ui::builtin_plugins::{
    days_to_ymd, iso_timestamp, timestamp_action, LoremIpsumPlugin, PluginAction, PluginContext,
    TimestampPlugin, WordCounterPlugin,
};

#[test]
fn test_word_counter_plugin() {
    let mut plugin = WordCounterPlugin::new();
    assert_eq!(plugin.info().id, "builtin.word_counter");
    assert_eq!(plugin.commands().len(), 1);

    let text = "Hello world, this is a test.";
    let ctx = PluginContext {
        active_text: Some(text),
        ..PluginContext::default()
    };
    let action = plugin.execute_command("builtin.word_counter.show_count", &ctx);
    match action {
        PluginAction::ShowMessage(msg) => {
            assert!(msg.contains("Words: 6"), "Expected 'Words: 6' in: {}", msg);
        }
        _ => panic!("Expected ShowMessage"),
    }
}

#[test]
fn test_word_counter_empty() {
    let mut plugin = WordCounterPlugin::new();
    let ctx = PluginContext::default();
    let action = plugin.execute_command("builtin.word_counter.show_count", &ctx);
    match action {
        PluginAction::ShowMessage(msg) => {
            assert!(msg.contains("No active document"));
        }
        _ => panic!("Expected ShowMessage"),
    }
}

#[test]
fn test_lorem_ipsum_sentence() {
    let mut plugin = LoremIpsumPlugin::new();
    assert_eq!(plugin.info().id, "builtin.lorem_ipsum");
    assert_eq!(plugin.commands().len(), 2);

    let ctx = PluginContext::default();
    let action = plugin.execute_command("builtin.lorem_ipsum.insert_sentence", &ctx);
    match action {
        PluginAction::InsertAtCursor(text) => {
            assert!(text.starts_with("Lorem ipsum"));
        }
        _ => panic!("Expected InsertAtCursor"),
    }
}

#[test]
fn test_lorem_ipsum_paragraph() {
    let mut plugin = LoremIpsumPlugin::new();
    let ctx = PluginContext::default();
    let action = plugin.execute_command("builtin.lorem_ipsum.insert_paragraph", &ctx);
    match action {
        PluginAction::InsertAtCursor(text) => {
            assert!(text.starts_with("Lorem ipsum"));
            assert!(text.contains("laborum"));
        }
        _ => panic!("Expected InsertAtCursor"),
    }
}

#[test]
fn test_timestamp_plugin() {
    let mut plugin = TimestampPlugin::new();
    assert_eq!(plugin.info().id, "builtin.timestamp");
    assert_eq!(plugin.commands().len(), 2);

    let ctx = PluginContext::default();

    let action = plugin.execute_command("builtin.timestamp.insert_iso", &ctx);
    match action {
        PluginAction::InsertAtCursor(text) => {
            assert!(text.contains("T"), "Expected ISO format with T separator: {}", text);
            assert!(text.ends_with("Z"), "Expected UTC Z suffix: {}", text);
        }
        _ => panic!("Expected InsertAtCursor"),
    }

    let action = plugin.execute_command("builtin.timestamp.insert_unix", &ctx);
    match action {
        PluginAction::InsertAtCursor(text) => {
            let ts: u64 = text.parse().expect("Expected numeric timestamp");
            assert!(ts > 1_700_000_000, "Timestamp seems too small: {}", ts);
        }
        _ => panic!("Expected InsertAtCursor"),
    }
}

#[test]
fn test_days_to_ymd() {
    // 1970-01-01 = day 0
    assert_eq!(days_to_ymd(0), (1970, 1, 1));
    // 2000-01-01 = day 10957
    assert_eq!(days_to_ymd(10957), (2000, 1, 1));
}

#[test]
fn days_to_ymd_leap_days_and_negative_days() {
    assert_eq!(days_to_ymd(11016), (2000, 2, 29));
    assert_eq!(days_to_ymd(11017), (2000, 3, 1));
    assert_eq!(days_to_ymd(-1), (1969, 12, 31));
    assert_eq!(days_to_ymd(-719468), (0, 3, 1));
    assert_eq!(days_to_ymd(19723), (2024, 1, 1));
}

#[test]
fn iso_timestamp_exact_text() {
    assert_eq!(iso_timestamp(0), "1970-01-01T00:00:00Z");
    assert_eq!(iso_timestamp(951_782_400 + 3_661), "2000-02-29T01:01:01Z");
    assert_eq!(iso_timestamp(1_700_000_000), "2023-11-14T22:13:20Z");
}

#[test]
fn timestamp_action_for_a_given_clock() {
    match timestamp_action("builtin.timestamp.insert_unix", 1_234_567_890) {
        PluginAction::InsertAtCursor(t) => assert_eq!(t, "1234567890"),
        _ => panic!("Expected InsertAtCursor"),
    }
    match timestamp_action("builtin.timestamp.insert_iso", 86_399) {
        PluginAction::InsertAtCursor(t) => assert_eq!(t, "1970-01-01T23:59:59Z"),
        _ => panic!("Expected InsertAtCursor"),
    }
    assert!(matches!(timestamp_action("other", 5), PluginAction::NoAction));
}

#[test]
fn word_counter_full_message() {
    let mut plugin = WordCounterPlugin::new();
    let ctx = PluginContext { active_text: Some("  one two\n\tthree\r\nfour  ") };
    match plugin.execute_command("builtin.word_counter.show_count", &ctx) {
        PluginAction::ShowMessage(m) => {
            assert_eq!(m, "Words: 4  |  Characters: 24  |  Lines: 3");
        }
        _ => panic!("Expected ShowMessage"),
    }
    let ctx = PluginContext { active_text: Some("") };
    match plugin.execute_command("builtin.word_counter.show_count", &ctx) {
        PluginAction::ShowMessage(m) => {
            assert_eq!(m, "Words: 0  |  Characters: 0  |  Lines: 1");
        }
        _ => panic!("Expected ShowMessage"),
    }
    assert!(matches!(plugin.execute_command("x", &ctx), PluginAction::NoAction));
    assert_eq!(WordCounterPlugin::count_words("a  b\u{3000}c"), 3);
}
