use openedit_ui::hex_view::{hex_digit_value, parse_offset, HexAction, HexEditor, HexKeys};

#[test]
fn test_hex_digit_value() {
    assert_eq!(hex_digit_value('0'), Some(0));
    assert_eq!(hex_digit_value('9'), Some(9));
    assert_eq!(hex_digit_value('a'), Some(10));
    assert_eq!(hex_digit_value('f'), Some(15));
    assert_eq!(hex_digit_value('A'), Some(10));
    assert_eq!(hex_digit_value('F'), Some(15));
    assert_eq!(hex_digit_value('g'), None);
    assert_eq!(hex_digit_value('z'), None);
    assert_eq!(hex_digit_value(' '), None);
}

#[test]
fn test_parse_offset_hex_prefix() {
    assert_eq!(parse_offset("0x1A"), Some(26));
    assert_eq!(parse_offset("0xFF"), Some(255));
    assert_eq!(parse_offset("0X10"), Some(16));
    assert_eq!(parse_offset("0x0"), Some(0));
}

#[test]
fn test_parse_offset_decimal() {
    assert_eq!(parse_offset("42"), Some(42));
    assert_eq!(parse_offset("0"), Some(0));
    assert_eq!(parse_offset("1000"), Some(1000));
}

#[test]
fn test_parse_offset_hex_without_prefix() {
    // Contains hex alpha chars -> treated as hex
    assert_eq!(parse_offset("FF"), Some(255));
    assert_eq!(parse_offset("1a"), Some(26));
    assert_eq!(parse_offset("DEAD"), Some(0xDEAD));
}

#[test]
fn test_parse_offset_empty() {
    assert_eq!(parse_offset(""), None);
    assert_eq!(parse_offset("  "), None);
}

#[test]
fn test_parse_offset_whitespace() {
    assert_eq!(parse_offset("  42  "), Some(42));
    assert_eq!(parse_offset("  0xFF  "), Some(255));
}

#[test]
fn parse_offset_rejects_bad_input() {
    assert_eq!(parse_offset("0x"), None);
    assert_eq!(parse_offset("0xZZ"), None);
    assert_eq!(parse_offset("12ab!"), None);
    assert_eq!(parse_offset("-5"), None);
    assert_eq!(parse_offset("+"), None);
    assert_eq!(parse_offset("+17"), Some(17));
    assert_eq!(parse_offset("0x+10"), Some(16));
    // Overflow of usize is rejected.
    assert_eq!(parse_offset("0x1FFFFFFFFFFFFFFFF"), None);
    assert_eq!(parse_offset("99999999999999999999999"), None);
    assert_eq!(parse_offset("\u{3000}7\u{2003}"), Some(7));
}

#[test]
fn hex_action_holds_edit() {
    let a = HexAction::EditByte { offset: 3, old_byte: 0x11, new_byte: 0xA5 };
    match a {
        HexAction::EditByte { offset, old_byte, new_byte } => {
            assert_eq!((offset, old_byte, new_byte), (3, 0x11, 0xA5));
        }
        HexAction::NoAction => panic!("expected an edit"),
    }
}

fn keys() -> HexKeys {
    HexKeys { typed: Vec::new(), escape: false, go_to_offset: false, left: false, right: false, up: false, down: false }
}

#[test]
fn hex_view_test_default_state() {
    let state = HexEditor::default();
    assert!(!state.active);
    assert!(state.data.is_empty());
    assert_eq!(state.bytes_per_row, 16);
    assert!(state.selected_offset.is_none());
    assert!(state.editing_nibble.is_none());
    assert!(!state.go_to_offset_open);
    assert!(state.go_to_offset_input.is_empty());
}

#[test]
fn test_state_with_data() {
    let mut state = HexEditor::default();
    state.data = vec![0x48, 0x65, 0x6C, 0x6C, 0x6F]; // "Hello"
    assert_eq!(state.data.len(), 5);
    state.selected_offset = Some(2);
    assert_eq!(state.selected_offset, Some(2));
}

#[test]
fn test_active_toggle() {
    let mut state = HexEditor::default();
    assert!(!state.active);
    state.active = true;
    assert!(state.active);
    state.active = false;
    assert!(!state.active);
}

#[test]
fn test_editing_nibble_state() {
    let mut state = HexEditor::default();
    state.data = vec![0x00, 0x11, 0x22];
    state.selected_offset = Some(1);
    let mut k = keys();
    k.typed = vec!['A'];
    let (action, moved) = state.handle_keys(&k);
    assert!(matches!(action, HexAction::NoAction));
    assert_eq!(moved, None);
    assert_eq!(state.editing_nibble, Some(0xA));
    k.typed = vec!['5'];
    let (action, _) = state.handle_keys(&k);
    match action {
        HexAction::EditByte { offset, old_byte, new_byte } => {
            assert_eq!((offset, old_byte, new_byte), (1, 0x11, 0xA5));
        }
        HexAction::NoAction => panic!("expected an edit"),
    }
    assert_eq!(state.data[1], 0xA5);
    assert!(state.editing_nibble.is_none());
    assert_eq!(state.selected_offset, Some(2));
}

#[test]
fn test_go_to_offset_state() {
    let mut state = HexEditor::default();
    state.data = vec![0; 256];
    state.go_to_offset_open = true;
    state.go_to_offset_input = "0x80".to_string();
    let selected = state.confirm_go_to_offset();
    assert_eq!(selected, Some(128));
    assert_eq!(state.selected_offset, Some(128));
    assert_eq!(128 / state.bytes_per_row, 8);
    assert!(!state.go_to_offset_open);
    state.go_to_offset_input = "0x100".to_string();
    assert_eq!(state.confirm_go_to_offset(), None);
    assert_eq!(state.selected_offset, Some(128));
}

#[test]
fn hex_keys_navigation_and_dialog() {
    let mut state = HexEditor::default();
    state.data = (0..40u8).collect();
    state.selected_offset = Some(0);
    let mut k = keys();
    k.left = true;
    assert_eq!(state.handle_keys(&k).1, None);
    k = keys();
    k.down = true;
    assert_eq!(state.handle_keys(&k).1, Some(16));
    k = keys();
    k.down = true;
    assert_eq!(state.handle_keys(&k).1, Some(32));
    assert_eq!(state.handle_keys(&k).1, None);
    k = keys();
    k.right = true;
    assert_eq!(state.handle_keys(&k).1, Some(33));
    k = keys();
    k.typed = vec!['f'];
    state.handle_keys(&k);
    assert_eq!(state.editing_nibble, Some(15));
    k = keys();
    k.escape = true;
    state.handle_keys(&k);
    assert_eq!(state.editing_nibble, None);
    k = keys();
    k.go_to_offset = true;
    k.typed = vec!['1', '2'];
    state.go_to_offset_input = "old".to_string();
    let (action, _) = state.handle_keys(&k);
    assert!(matches!(action, HexAction::NoAction));
    assert!(state.go_to_offset_open);
    assert!(state.go_to_offset_input.is_empty());
    assert_eq!(state.data[33], 33);
}

#[test]
fn hex_rows_and_labels() {
    let mut state = HexEditor::default();
    state.data = b"Hello, hex view!\n\x00\xff".to_vec();
    assert_eq!(state.total_rows(), 2);
    assert_eq!(state.offset_label(1), "00000010");
    let (hex, ascii) = state.row_text(0);
    assert_eq!(hex, "48 65 6C 6C 6F 2C 20 68  65 78 20 76 69 65 77 21 ");
    assert_eq!(ascii, "Hello, hex view!");
    state.selected_offset = Some(17);
    state.editing_nibble = Some(0xB);
    let (hex, ascii) = state.row_text(1);
    assert_eq!(hex, "0A B_FF                                         ");
    assert_eq!(ascii, "...             ");
    assert_eq!(state.info_text(), "19 bytes (2 rows) | Offset: 0x11 (17) [editing]  |  Ctrl+G: Go to offset");
    state.selected_offset = None;
    assert_eq!(state.info_text(), "19 bytes (2 rows)  |  Ctrl+G: Go to offset");
}

#[test]
fn hex_clicks() {
    let mut state = HexEditor::default();
    state.data = vec![0; 20];
    state.editing_nibble = Some(3);
    assert_eq!(state.click_hex(0, 4), Some(1));
    assert_eq!(state.editing_nibble, None);
    assert_eq!(state.click_hex(0, 26), Some(8));
    assert_eq!(state.click_hex(1, 9), Some(19));
    assert_eq!(state.click_hex(1, 12), None);
    assert_eq!(state.click_hex(0, 50), None);
    assert_eq!(state.selected_offset, Some(19));
}
