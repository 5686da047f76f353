use openedit_ui::lsp::{
    completion_kind_name, events_for_message, frame_message, language_id, parse_completion_response,
    parse_content_length, parse_definition_response, parse_diagnostic, parse_hover_response,
    parse_locations_response, parse_rename_response, parse_single_location, parse_text_edit,
    completion_backspaces, completion_icon, completion_selection, completion_tint, text_to_insert, group_by_file, reference_label, severity_color, squiggle_columns,
    detail_shown, edit_application_order, hover_display, popup_rows, response_id, server_command, DiagnosticSeverityLevel, Json,
    LspClientState, LspCompletionItem, LspDiagnostic, LspEvent, LspLocation, LspTextEdit, RenameDialogState,
};

fn s(t: &str) -> Json {
    Json::Str(t.to_string())
}
fn n(v: u64) -> Json {
    Json::Number(Some(v), Some(v as i64))
}
fn obj(es: Vec<(&str, Json)>) -> Json {
    Json::Object(es.into_iter().map(|(k, v)| (k.to_string(), v)).collect())
}
fn pos(l: u64, c: u64) -> Json {
    obj(vec![("line", n(l)), ("character", n(c))])
}
fn range(a: (u64, u64), b: (u64, u64)) -> Json {
    obj(vec![("start", pos(a.0, a.1)), ("end", pos(b.0, b.1))])
}
fn loc(uri: &str, l: u64, c: u64) -> Json {
    obj(vec![("uri", s(uri)), ("range", range((l, c), (l, c + 1)))])
}

#[test]
fn diagnostics_parse() {
    let d = obj(vec![("range", range((1, 2), (3, 4))), ("message", s("oops")), ("severity", n(2))]);
    let p = parse_diagnostic(&d).unwrap();
    assert_eq!((p.line, p.col, p.end_line, p.end_col), (1, 2, 3, 4));
    assert_eq!(p.message, "oops");
    assert_eq!(p.severity, DiagnosticSeverityLevel::Warning);
    let d = obj(vec![("range", range((0, 0), (0, 1))), ("message", s("m"))]);
    assert_eq!(parse_diagnostic(&d).unwrap().severity, DiagnosticSeverityLevel::Hint);
    assert!(parse_diagnostic(&obj(vec![("message", s("m"))])).is_none());
}

#[test]
fn completions_parse() {
    let r = obj(vec![(
        "items",
        Json::Array(vec![
            obj(vec![("label", s("push")), ("kind", n(2)), ("detail", s("fn"))]),
            obj(vec![("insertText", s("x"))]),
        ]),
    )]);
    let items = parse_completion_response(&r).unwrap();
    assert_eq!(items.len(), 2);
    assert_eq!(items[0].label, "push");
    assert_eq!(items[0].kind.as_deref(), Some("Method"));
    assert_eq!(items[0].detail.as_deref(), Some("fn"));
    assert_eq!(items[1].label, "");
    assert_eq!(items[1].insert_text.as_deref(), Some("x"));
    assert!(parse_completion_response(&s("no")).is_none());
    assert!(parse_completion_response(&obj(vec![("items", s("no"))])).is_none());
    assert_eq!(parse_completion_response(&Json::Array(vec![])).unwrap().len(), 0);
    assert_eq!(completion_kind_name(25), "TypeParameter");
    assert_eq!(completion_kind_name(0), "Unknown");
}

#[test]
fn hover_parse() {
    let h = obj(vec![("contents", obj(vec![("kind", s("markdown")), ("value", s("**x**"))]))]);
    assert_eq!(parse_hover_response(&h).as_deref(), Some("**x**"));
    let h = obj(vec![("contents", s("plain"))]);
    assert_eq!(parse_hover_response(&h).as_deref(), Some("plain"));
    let h = obj(vec![("contents", Json::Array(vec![s("a"), n(1), obj(vec![("value", s("b"))])]))]);
    assert_eq!(parse_hover_response(&h).as_deref(), Some("a\n\nb"));
    assert!(parse_hover_response(&obj(vec![("contents", Json::Array(vec![]))])).is_none());
    assert!(parse_hover_response(&Json::Null).is_none());
}

#[test]
fn definition_and_references_parse() {
    let d = parse_definition_response(&Json::Array(vec![loc("file:///a.rs", 4, 2)])).unwrap();
    assert_eq!((d.uri.as_str(), d.line, d.col), ("file:///a.rs", 4, 2));
    let link = || obj(vec![("targetUri", s("file:///b.rs")), ("targetRange", range((7, 0), (8, 0)))]);
    let d = parse_definition_response(&link()).unwrap();
    assert_eq!((d.uri.as_str(), d.line), ("file:///b.rs", 7));
    assert!(parse_definition_response(&Json::Array(vec![])).is_none());
    assert!(parse_definition_response(&Json::Null).is_none());
    let refs = parse_locations_response(&Json::Array(vec![loc("u1", 1, 1), n(3), link()]));
    assert_eq!(refs.len(), 2);
    assert_eq!(refs[1].uri, "file:///b.rs");
    assert!(parse_locations_response(&Json::Null).is_empty());
    assert_eq!(parse_locations_response(&loc("u", 0, 0)).len(), 1);
    assert!(parse_single_location(&obj(vec![("uri", s("u"))])).is_none());
}

#[test]
fn rename_parse() {
    let edit = |l: u64, t: &str| obj(vec![("range", range((l, 0), (l, 3))), ("newText", s(t))]);
    assert_eq!(parse_text_edit(&edit(2, "new")).unwrap().new_text, "new");
    let r = obj(vec![
        ("changes", obj(vec![("file:///a", Json::Array(vec![edit(1, "x")])), ("file:///b", Json::Array(vec![]))])),
        (
            "documentChanges",
            Json::Array(vec![obj(vec![
                ("textDocument", obj(vec![("uri", s("file:///a")), ("version", n(3))])),
                ("edits", Json::Array(vec![edit(5, "y")])),
            ])]),
        ),
    ]);
    let w = parse_rename_response(&r).unwrap();
    assert_eq!(w.changes.len(), 1);
    assert_eq!(w.changes[0].0, "file:///a");
    let texts: Vec<&str> = w.changes[0].1.iter().map(|e| e.new_text.as_str()).collect();
    assert_eq!(texts, vec!["x", "y"]);
    assert!(parse_rename_response(&Json::Null).is_none());
    assert!(parse_rename_response(&obj(vec![])).is_none());
}

#[test]
fn messages_to_events() {
    assert_eq!(parse_content_length("Content-Length: 52\r\n"), Some(52));
    assert_eq!(parse_content_length("Content-Type: x"), None);
    assert_eq!(parse_content_length("Content-Length: x"), None);
    assert_eq!(frame_message("{}"), "Content-Length: 2\r\n\r\n{}");
    assert_eq!(frame_message("\u{e9}"), "Content-Length: 2\r\n\r\n\u{e9}");
    let note = obj(vec![
        ("method", s("textDocument/publishDiagnostics")),
        ("params", obj(vec![("uri", s("file:///a")), ("diagnostics", Json::Array(vec![]))])),
    ]);
    assert_eq!(response_id(&note), None);
    let ev = events_for_message(&note, None);
    assert!(matches!(&ev[..], [LspEvent::Diagnostics { uri, diagnostics }] if uri == "file:///a" && diagnostics.is_empty()));
    let resp = obj(vec![("id", n(7)), ("result", Json::Array(vec![loc("u", 1, 2)]))]);
    assert_eq!(response_id(&resp), Some(7));
    let ev = events_for_message(&resp, Some("references"));
    assert!(matches!(&ev[..], [LspEvent::References { request_id: 7, locations }] if locations.len() == 1));
    // an array of locations reads as a completion list when no kind is known
    let ev = events_for_message(&resp, None);
    assert!(matches!(&ev[..], [LspEvent::Completions { request_id: 7, .. }]));
    let init = obj(vec![("id", n(1)), ("result", obj(vec![("capabilities", obj(vec![]))]))]);
    let ev = events_for_message(&init, None);
    assert!(matches!(&ev[..], [LspEvent::Initialized]));
    let ev = events_for_message(&obj(vec![("id", n(2)), ("result", Json::Null)]), Some("rename"));
    assert!(matches!(&ev[..], [LspEvent::Rename { request_id: 2, edit: None }]));
}

#[test]
fn client_state_events_and_versions() {
    let mut st = LspClientState::new();
    st.last_hover_id = 4;
    st.apply_event(LspEvent::Hover { request_id: 3, contents: "old".to_string() });
    assert!(st.pending_hover.is_none());
    st.apply_event(LspEvent::Hover { request_id: 4, contents: "doc".to_string() });
    assert_eq!(st.take_hover().as_deref(), Some("doc"));
    assert!(st.take_hover().is_none());
    st.apply_event(LspEvent::Diagnostics { uri: "u".to_string(), diagnostics: vec![] });
    assert!(st.get_diagnostics("u").is_empty());
    assert!(st.get_diagnostics("v").is_empty());
    st.did_open("u");
    assert_eq!(st.did_change("u"), 2);
    assert_eq!(st.did_change("u"), 3);
    assert_eq!(st.did_change("w"), 2);
    assert_eq!(server_command("Python"), Some(("pyright-langserver", vec!["--stdio"])));
    assert_eq!(server_command("Rust"), Some(("rust-analyzer", vec![])));
    assert_eq!(server_command("Cobol"), None);
    assert_eq!(language_id("C++"), "cpp");
    assert_eq!(language_id("Zig"), "Zig");
    let d = RenameDialogState::default();
    assert!(!d.visible && d.input.is_empty());
}

fn te(line: usize, col: usize, text: &str) -> LspTextEdit {
    LspTextEdit { start_line: line, start_col: col, end_line: line, end_col: col + 1, new_text: text.to_string() }
}

#[test]
fn edits_applied_bottom_up() {
    let edits = vec![te(1, 4, "a"), te(3, 0, "b"), te(1, 9, "c"), te(3, 0, "d"), te(0, 2, "e")];
    assert_eq!(edit_application_order(&edits), vec![1, 3, 2, 0, 4]);
    assert_eq!(edit_application_order(&Vec::new()), Vec::<usize>::new());
}

#[test]
fn framed_header_reads_back() {
    let body = "{\"name\":\"caf\u{e9}\"}";
    let framed = frame_message(body);
    let first = framed.split_inclusive('\n').next().expect("header line");
    assert_eq!(parse_content_length(first), Some(body.len()));
    assert_eq!(&framed[framed.len() - body.len()..], body);
}

#[test]
fn completion_popup_marks() {
    assert_eq!(completion_icon(Some("Method")), "fn");
    assert_eq!(completion_icon(Some("EnumMember")), "cst");
    assert_eq!(completion_icon(Some("Text")), " - ");
    assert_eq!(completion_icon(None), " - ");
    let t = completion_tint(Some("Struct"));
    assert_eq!((t.r, t.g, t.b, t.a), (78, 201, 176, 255));
    let t = completion_tint(Some("Module"));
    assert_eq!((t.r, t.g, t.b), (188, 188, 188));
    assert_eq!(detail_shown("short"), "short");
    assert_eq!(detail_shown("fn very_long_function_name_here(x: i32)"), "fn very_long_function_name_her");
    assert_eq!(popup_rows(0, 3), (0, 3));
    assert_eq!(popup_rows(12, 30), (3, 13));
    assert_eq!(popup_rows(0, 0), (1, 0));
}

fn at(uri: &str, line: usize, col: usize) -> LspLocation {
    LspLocation { uri: uri.to_string(), line, col }
}

#[test]
fn references_grouped_by_file() {
    let locs = vec![at("file:///b.rs", 3, 1), at("file:///a.rs", 0, 0), at("file:///b.rs", 9, 4)];
    let groups = group_by_file(&locs);
    assert_eq!(groups.len(), 2);
    assert_eq!(groups[0].0, "file:///b.rs");
    assert_eq!(groups[0].1.iter().map(|l| (l.line, l.col)).collect::<Vec<_>>(), vec![(3, 1), (9, 4)]);
    assert_eq!(groups[1].0, "file:///a.rs");
    assert_eq!(groups[1].1.len(), 1);
    assert_eq!(reference_label(&locs[2]), "Line 10, Col 5");
    assert!(group_by_file(&Vec::new()).is_empty());
}

#[test]
fn diagnostic_squiggles() {
    let d = LspDiagnostic {
        line: 4,
        col: 10,
        end_line: 4,
        end_col: 10,
        message: "m".to_string(),
        severity: DiagnosticSeverityLevel::Warning,
    };
    assert_eq!(squiggle_columns(&d, 4, 0), Some((10, 11)));
    assert_eq!(squiggle_columns(&d, 4, 12), Some((0, 1)));
    assert_eq!(squiggle_columns(&d, 5, 0), None);
    let d2 = LspDiagnostic { end_line: 6, end_col: 2, ..d.clone() };
    assert_eq!(squiggle_columns(&d2, 4, 3), Some((7, 17)));
    let c = severity_color(DiagnosticSeverityLevel::Error);
    assert_eq!((c.r, c.g, c.b), (255, 80, 80));
}

#[test]
fn accepting_completions() {
    assert_eq!(completion_selection(0, 4, true, false), 3);
    assert_eq!(completion_selection(2, 4, true, false), 1);
    assert_eq!(completion_selection(3, 4, false, true), 0);
    assert_eq!(completion_selection(1, 4, false, true), 2);
    assert_eq!(completion_selection(0, 0, true, false), 0);
    assert_eq!(completion_backspaces("let caf\u{e9}_x = 1", 10), 7);
    assert_eq!(completion_backspaces("foo.ba", 99), 2);
    assert_eq!(completion_backspaces("foo ", 4), 0);
    let item = LspCompletionItem { label: "push".to_string(), detail: None, kind: None, insert_text: None };
    assert_eq!(text_to_insert(&item), "push");
    let item = LspCompletionItem { insert_text: Some("push($0)".to_string()), ..item };
    assert_eq!(text_to_insert(&item), "push($0)");
}

#[test]
fn hover_popup_text() {
    assert_eq!(hover_display("fn main()\r\n\nreturns ()"), "fn main()\n\nreturns ()");
    let many: String = (0..20).map(|i| format!("l{}\n", i)).collect();
    let shown = hover_display(&many);
    assert_eq!(shown.lines().count(), 15);
    assert!(shown.ends_with("l14"));
    let long = "x".repeat(600);
    assert_eq!(hover_display(&long).len(), 500);
    assert_eq!(hover_display(""), "");
}

#[test]
fn rename_dialog_flow() {
    let mut d = RenameDialogState::default();
    assert_eq!(d.confirm(true), None);
    d.open_with("old_name".to_string());
    assert!(d.visible && d.needs_focus);
    assert_eq!(d.confirm(false), None);
    assert!(d.visible);
    d.input = String::new();
    assert_eq!(d.confirm(true), None);
    d.input = "new_name".to_string();
    assert_eq!(d.confirm(true), Some("new_name".to_string()));
    assert!(!d.visible);
}
