use openedit_ui::find_in_files::{FileMatch, LineMatch};
use openedit_ui::search::{
    build_filter_globs, build_search_regex, file_result, is_skipped_path, line_match_records,
    matches_in_text, name_included, replacement_for, sort_results, wants_file,
};
use std::path::PathBuf;

fn spans(v: &[LineMatch]) -> Vec<(usize, String, usize, usize)> {
    v.iter().map(|m| (m.line_num, m.line_text.clone(), m.match_start, m.match_end)).collect()
}

#[test]
fn literal_query_ignoring_case() {
    let re = build_search_regex("foo", false, false).expect("valid");
    let got = matches_in_text(&re, "Foo bar\nno\nxfoo");
    assert_eq!(
        spans(&got),
        vec![(1, "Foo bar".to_string(), 0, 3), (3, "xfoo".to_string(), 1, 4)]
    );
}

#[test]
fn literal_query_escapes_metacharacters() {
    let re = build_search_regex("a.b", false, true).expect("valid");
    let got = matches_in_text(&re, "axb a.b");
    assert_eq!(spans(&got), vec![(1, "axb a.b".to_string(), 4, 7)]);
    let re = build_search_regex("a.b", true, true).expect("valid");
    let got = matches_in_text(&re, "axb a.b");
    assert_eq!(
        spans(&got),
        vec![(1, "axb a.b".to_string(), 0, 3), (1, "axb a.b".to_string(), 4, 7)]
    );
}

#[test]
fn case_sensitive_query() {
    let re = build_search_regex("Foo", false, true).expect("valid");
    let got = matches_in_text(&re, "foo Foo");
    assert_eq!(spans(&got), vec![(1, "foo Foo".to_string(), 4, 7)]);
}

#[test]
fn invalid_regex_query() {
    assert!(build_search_regex("(", true, true).is_none());
    assert!(build_search_regex("(", false, true).is_some());
}

#[test]
fn match_offsets_are_bytes() {
    let re = build_search_regex("b", false, true).expect("valid");
    let got = matches_in_text(&re, "éb\r\nb");
    assert_eq!(spans(&got), vec![(1, "éb".to_string(), 2, 3), (2, "b".to_string(), 0, 1)]);
}

#[test]
fn file_result_only_with_matches() {
    let re = build_search_regex("x", false, true).expect("valid");
    assert!(file_result(&re, "a.rs".to_string(), "abc\ndef").is_none());
    let f = file_result(&re, "a.rs".to_string(), "x\nyx").expect("matches");
    assert_eq!(f.path, "a.rs");
    assert_eq!(spans(&f.matches), vec![(1, "x".to_string(), 0, 1), (2, "yx".to_string(), 1, 2)]);
}

#[test]
fn filter_globs() {
    assert!(build_filter_globs("").is_none());
    assert!(build_filter_globs("[").is_none());
    let g = build_filter_globs(" *.rs , *.toml,[").expect("patterns");
    assert_eq!(g.len(), 2);
    let some = Some(g);
    assert!(name_included(&some, "main.rs"));
    assert!(name_included(&some, "Cargo.toml"));
    assert!(!name_included(&some, "notes.txt"));
    assert!(name_included(&None, "notes.txt"));
}

#[test]
fn skipped_directories() {
    assert!(is_skipped_path("/p/.git/config"));
    assert!(is_skipped_path("/p/target/debug/x"));
    assert!(is_skipped_path("/p/node_modules/a.js"));
    assert!(is_skipped_path("C:\\p\\target\\x"));
    assert!(is_skipped_path("C:\\p\\node_modules\\x"));
    assert!(is_skipped_path("/p/.git\\x"));
    assert!(!is_skipped_path("/p/src/main.rs"));
    assert!(!is_skipped_path("/p/targets/x"));
}

#[test]
fn wanted_files() {
    let g = build_filter_globs("*.rs");
    assert!(wants_file(&g, "/p/src/main.rs", "main.rs"));
    assert!(!wants_file(&g, "/p/target/main.rs", "main.rs"));
    assert!(!wants_file(&g, "/p/src/notes.md", "notes.md"));
    assert!(wants_file(&None, "/p/src/notes.md", "notes.md"));
}

#[test]
fn results_in_path_order() {
    let paths = ["b.rs", "a/b.rs", "a-b.rs", "a.rs", "a/a/z.rs"];
    let files: Vec<FileMatch> =
        paths.iter().map(|p| FileMatch { path: p.to_string(), matches: Vec::new() }).collect();
    let sorted = sort_results(files);
    let got: Vec<String> = sorted.iter().map(|f| f.path.clone()).collect();
    assert_eq!(got, vec!["a/a/z.rs", "a/b.rs", "a-b.rs", "a.rs", "b.rs"]);
    let mut expected: Vec<PathBuf> = paths.iter().map(PathBuf::from).collect();
    expected.sort();
    let expected: Vec<String> = expected.iter().map(|p| p.to_string_lossy().into_owned()).collect();
    assert_eq!(got, expected);
}

#[test]
fn replacement_only_when_changed() {
    let re = build_search_regex("foo", false, true).expect("valid");
    assert_eq!(replacement_for(&re, "foo bar foo", "x"), Some("x bar x".to_string()));
    assert_eq!(replacement_for(&re, "bar", "x"), None);
    assert_eq!(replacement_for(&re, "foo", "foo"), None);
    let re = build_search_regex("(\\w+)@", true, true).expect("valid");
    assert_eq!(replacement_for(&re, "me@ you@", "<$1>"), Some("<me> <you>".to_string()));
}

#[test]
fn records_of_a_line() {
    let r = line_match_records(3, &"abc".to_string(), &vec![(0, 1), (2, 3)]);
    assert_eq!(spans(&r), vec![(3, "abc".to_string(), 0, 1), (3, "abc".to_string(), 2, 3)]);
}
