use openedit_ui::command_palette::all_commands;
use openedit_ui::diff_view::DiffCache;
use openedit_ui::find_in_files::{FileMatch, FindInFilesState, LineMatch};
use openedit_ui::git::{compute_line_diff, GitManager, LineDiffStatus, StatusFlags};
use openedit_ui::go_to_file::{listed_files, WalkedEntry, MAX_FILES};
use openedit_ui::hex_view::{HexAction, HexEditor, HexKeys};
use openedit_ui::i18n::Locale;
use openedit_ui::lsp::LspClientState;
use openedit_ui::config::{config_file_path, ConfigPlatform};
use openedit_ui::lsp::{decode_message, Json};
use openedit_ui::markdown::{markdown_blocks, markdown_source_blocks, preview_blocks, Alignment, MdBlock, MdEvent, MdTag, MdTagEnd};
use openedit_ui::search::{build_filter_globs, build_search_regex, file_result, search_walked, sort_results};

#[test]
fn diff_cache_notices_changed_text() {
    let mut c = DiffCache::new();
    let (stale, lh, rh) = c.check("left", "right");
    assert!(stale);
    c.store(Vec::new(), lh, rh);
    let (again, lh2, rh2) = c.check("left", "right");
    assert!(!again);
    assert_eq!((lh, rh), (lh2, rh2));
    let (changed, lh3, _) = c.check("left edited", "right");
    assert!(changed);
    assert_ne!(lh3, lh);
}

#[test]
fn refresh_without_repository_clears_statuses() {
    let mut mgr = GitManager::new();
    mgr.set_repository(Some("/repo".to_string()), Some("main".to_string()));
    let flags = StatusFlags {
        conflicted: false,
        index_new: false,
        index_modified: false,
        index_renamed: false,
        wt_modified: true,
        wt_deleted: false,
        index_deleted: false,
        wt_new: false,
        wt_renamed: false,
    };
    mgr.refresh_statuses(Some("main".to_string()), vec![("a.rs".to_string(), flags)]);
    assert_eq!(mgr.file_statuses.len(), 1);
    mgr.set_repository(None, None);
    mgr.refresh_statuses(None, vec![("b.rs".to_string(), flags)]);
    assert!(mgr.file_statuses.is_empty());
}

#[test]
fn line_diff_special_cases_exact() {
    assert!(compute_line_diff(&["a", "b"], &["a", "b"]).is_empty());
    assert_eq!(
        compute_line_diff(&[], &["x", "y", "z"]),
        vec![(0, LineDiffStatus::Added), (1, LineDiffStatus::Added), (2, LineDiffStatus::Added)]
    );
    assert_eq!(compute_line_diff(&["x", "y"], &[]), vec![(0, LineDiffStatus::Removed)]);
}

fn keys() -> HexKeys {
    HexKeys { typed: Vec::new(), escape: false, go_to_offset: false, left: false, right: false, up: false, down: false }
}

#[test]
fn hex_edits_stay_inside_the_data() {
    let mut ed = HexEditor::default();
    ed.data = vec![0x00, 0x11, 0x22];
    ed.selected_offset = Some(2);
    let mut k = keys();
    k.typed = vec!['a', 'b', 'c'];
    let (action, moved) = ed.handle_keys(&k);
    assert_eq!(ed.data.len(), 3);
    assert_eq!(ed.data[2], 0xab);
    assert_eq!(ed.selected_offset, Some(2));
    assert_eq!(ed.editing_nibble, Some(0xc));
    assert!(matches!(action, HexAction::EditByte { offset: 2, old_byte: 0x22, new_byte: 0xab }));
    assert_eq!(moved, None);
    let mut k = keys();
    k.down = true;
    let (_, moved) = ed.handle_keys(&k);
    assert_eq!(moved, None);
    assert_eq!(ed.selected_offset, Some(2));
}

#[test]
fn file_versions_update_in_place() {
    let mut st = LspClientState::new();
    st.did_open("a");
    st.did_open("b");
    assert_eq!(st.did_change("a"), 2);
    assert_eq!(st.did_change("a"), 3);
    st.did_open("a");
    assert_eq!(st.file_versions.len(), 2);
    assert_eq!(st.did_change("a"), 2);
    assert_eq!(st.did_change("b"), 2);
    assert_eq!(st.file_versions.len(), 2);
}

#[test]
fn navigation_target_joins_search_folder() {
    let mut st = FindInFilesState::new("/work".to_string());
    st.results = vec![FileMatch {
        path: "src/main.rs".to_string(),
        matches: vec![LineMatch { line_num: 7, line_text: "fn main".to_string(), match_start: 0, match_end: 2 }],
    }];
    let (path, line) = st.navigation_target(0, 0).unwrap();
    assert_eq!(std::path::PathBuf::from(path), std::path::Path::new("/work").join("src/main.rs"));
    assert_eq!(line, 6);
    assert!(st.navigation_target(0, 1).is_none());
    assert!(st.navigation_target(1, 0).is_none());
}

fn walked(path: &str, dirs: &[&str], is_file: bool) -> WalkedEntry {
    WalkedEntry { rel_path: path.to_string(), dirs: dirs.iter().map(|d| d.to_string()).collect(), is_file }
}

#[test]
fn walked_entries_listed_by_rules() {
    let deep: Vec<&str> = vec!["d"; 10];
    let entries = vec![
        walked("src", &[], false),
        walked("src/main.rs", &["src"], true),
        walked(".git/config", &[".git"], true),
        walked("target/out", &["target"], true),
        walked("a/node_modules/x.js", &["a", "node_modules"], true),
        walked("./top.rs", &["."], true),
        walked("deep/file.rs", &deep, true),
        walked("README.md", &[], true),
    ];
    assert_eq!(listed_files(&entries), vec!["src/main.rs", "./top.rs", "README.md"]);
    let many: Vec<WalkedEntry> = (0..MAX_FILES + 5).map(|i| walked(&format!("f{}", i), &[], true)).collect();
    let listed = listed_files(&many);
    assert_eq!(listed.len(), MAX_FILES);
    assert_eq!(listed[0], "f0");
}

#[test]
fn search_walked_files_sorted_and_relative() {
    let re = build_search_regex("foo", false, true).unwrap();
    let globs = build_filter_globs("*.rs");
    let files = vec![
        ("/w/src/z.rs".to_string(), "foo\nbar foo".to_string()),
        ("/w/a.rs".to_string(), "nothing".to_string()),
        ("/w/b.rs".to_string(), "xfoo".to_string()),
        ("/w/c.txt".to_string(), "foo".to_string()),
        ("/w/target/d.rs".to_string(), "foo".to_string()),
    ];
    let r = search_walked(&re, &globs, "/w", &files);
    assert_eq!(r.len(), 2);
    assert_eq!(r[0].path, "b.rs");
    assert_eq!(r[1].path, "src/z.rs");
    assert_eq!(r[1].matches.len(), 2);
    assert_eq!((r[1].matches[1].line_num, r[1].matches[1].match_start, r[1].matches[1].match_end), (2, 4, 7));
    assert_eq!((r[0].matches[0].match_start, r[0].matches[0].match_end), (1, 4));
}

#[test]
fn markdown_blocks_refuses_unnumberable_list() {
    let ok = vec![
        MdEvent::Start(MdTag::List(Some(5))),
        MdEvent::Start(MdTag::Item),
        MdEvent::Text("five".to_string()),
        MdEvent::End(MdTagEnd::Item),
        MdEvent::End(MdTagEnd::List),
    ];
    let blocks = markdown_blocks(ok).unwrap();
    assert_eq!(blocks.len(), 1);
    assert!(matches!(blocks[0], MdBlock::ListItem { ordered: true, index: 6, depth: 0, .. }));
    let huge = vec![
        MdEvent::Start(MdTag::List(Some(u64::MAX))),
        MdEvent::Start(MdTag::Item),
        MdEvent::End(MdTagEnd::Item),
        MdEvent::End(MdTagEnd::List),
    ];
    assert!(markdown_blocks(huge).is_none());
}

#[test]
fn language_commands_follow_locales() {
    let cmds = all_commands();
    for l in Locale::all() {
        let id = format!("settings.language.{}", l.id());
        let label = format!("Language: {}", l.display_name());
        assert!(cmds.iter().any(|c| c.id == id && c.label == label));
    }
    assert_eq!(cmds.iter().filter(|c| c.id.starts_with("settings.language.")).count(), Locale::all().len());
}

#[test]
fn markdown_source_to_blocks() {
    let src = "# Title\n\nSome **bold** and ~~gone~~ text.\n\n3. three\n4. four\n\n- [x] done\n\n| a | b |\n|:--|--:|\n| 1 | 2 |\n\n---\n";
    let blocks = markdown_source_blocks(src).unwrap();
    assert!(matches!(&blocks[0], MdBlock::Heading(1, s) if s[0].text == "Title"));
    match &blocks[1] {
        MdBlock::Paragraph(spans) => {
            assert!(spans.iter().any(|s| s.text == "bold" && s.bold));
            assert!(spans.iter().any(|s| s.text == "gone" && s.strikethrough));
        }
        _ => panic!("unexpected block"),
    }
    assert!(matches!(blocks[2], MdBlock::ListItem { ordered: true, index: 4, .. }));
    assert!(matches!(blocks[3], MdBlock::ListItem { ordered: true, index: 5, .. }));
    assert!(matches!(blocks[4], MdBlock::TaskListItem { checked: true, .. }));
    match &blocks[5] {
        MdBlock::Table { header, rows, alignments } => {
            assert_eq!(header.len(), 2);
            assert_eq!(rows.len(), 1);
            assert_eq!(alignments, &vec![Alignment::Left, Alignment::Right]);
        }
        _ => panic!("unexpected block"),
    }
    assert!(matches!(blocks[6], MdBlock::HorizontalRule));
    assert_eq!(blocks.len(), 7);
    assert_eq!(preview_blocks(src).len(), 7);
}

#[test]
fn preview_numbers_a_large_list_start() {
    let src = "999999999. big\n";
    let blocks = markdown_source_blocks(src).unwrap();
    assert!(matches!(blocks[0], MdBlock::ListItem { ordered: true, index: 1_000_000_000, .. }));
    let blocks = preview_blocks(src);
    assert_eq!(blocks.len(), 1);
    assert!(matches!(blocks[0], MdBlock::ListItem { ordered: true, index: 1_000_000_000, .. }));
}

#[test]
fn settings_file_paths_by_platform() {
    let p = config_file_path(ConfigPlatform::OtherUnix, None, Some("/home/u".to_string()), None, "config.toml");
    assert_eq!(p.as_deref(), Some("/home/u/.config/openedit/config.toml"));
    let p = config_file_path(ConfigPlatform::OtherUnix, None, Some("/home/u".to_string()), Some("/xdg".to_string()), "macros.json");
    assert_eq!(p.as_deref(), Some("/xdg/openedit/macros.json"));
    let p = config_file_path(ConfigPlatform::MacOs, None, Some("/Users/u".to_string()), None, "config.toml");
    assert_eq!(p.as_deref(), Some("/Users/u/Library/Application Support/openedit/config.toml"));
    assert!(config_file_path(ConfigPlatform::Windows, None, Some("/home/u".to_string()), None, "config.toml").is_none());
    assert!(config_file_path(ConfigPlatform::OtherUnix, None, None, None, "config.toml").is_none());
}

#[test]
fn decode_message_reads_json_and_id() {
    let (msg, id) = decode_message(br#"{"jsonrpc":"2.0","id":7,"result":null}"#).unwrap();
    assert_eq!(id, Some(7));
    assert!(matches!(msg, Json::Object(_)));
    let (_, id) = decode_message(br#"{"jsonrpc":"2.0","method":"window/logMessage","params":{}}"#).unwrap();
    assert_eq!(id, None);
    assert!(decode_message(b"{not json").is_none());
}

#[test]
fn literal_search_escapes_meta_characters() {
    let re = build_search_regex("a.b", false, true).unwrap();
    assert!(file_result(&re, "f".to_string(), "axb").is_none());
    assert!(file_result(&re, "f".to_string(), "a.b").is_some());
    let re = build_search_regex("(x)", false, true).unwrap();
    assert!(file_result(&re, "f".to_string(), "(x)").is_some());
}

#[test]
fn results_follow_path_order() {
    let mk = |p: &str| FileMatch { path: p.to_string(), matches: Vec::new() };
    let r = sort_results(vec![mk("a-c.txt"), mk("a/b.txt"), mk("a.txt"), mk("a")]);
    let mut want: Vec<std::path::PathBuf> = vec!["a-c.txt".into(), "a/b.txt".into(), "a.txt".into(), "a".into()];
    want.sort();
    let got: Vec<std::path::PathBuf> = r.iter().map(|f| f.path.clone().into()).collect();
    assert_eq!(got, want);
}
