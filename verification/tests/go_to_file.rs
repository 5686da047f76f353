use openedit_ui::go_to_file::{fuzzy_match_path, skip_dir, sort_by_file_name, visible_window, GoToFileState};

#[test]
fn test_fuzzy_match_path_basic() {
    assert!(fuzzy_match_path("main", "src/main.rs"));
    assert!(fuzzy_match_path("mr", "src/main.rs"));
    assert!(fuzzy_match_path("MR", "src/main.rs"));
    assert!(!fuzzy_match_path("xyz", "src/main.rs"));
}

#[test]
fn test_fuzzy_match_path_empty_query() {
    assert!(fuzzy_match_path("", "anything.txt"));
}

#[test]
fn test_fuzzy_match_path_exact() {
    assert!(fuzzy_match_path("lib.rs", "crates/core/src/lib.rs"));
}

#[test]
fn test_fuzzy_match_path_order_matters() {
    // Characters must appear in order
    assert!(fuzzy_match_path("abc", "a_b_c.txt"));
    assert!(!fuzzy_match_path("cba", "a_b_c.txt"));
}

#[test]
fn go_to_file_test_default_state() {
    let state = GoToFileState::default();
    assert!(!state.open);
    assert!(state.query.is_empty());
    assert_eq!(state.selected, 0);
    assert!(state.files.is_empty());
    assert!(state.filtered.is_empty());
}

#[test]
fn test_update_filtered_empty_query() {
    let mut state = GoToFileState::default();
    state.files = vec!["a.rs".to_string(), "b.rs".to_string(), "c.rs".to_string()];
    state.update_filtered();
    assert_eq!(state.filtered.len(), 3);
}

#[test]
fn test_update_filtered_with_query() {
    let mut state = GoToFileState::default();
    state.files = vec!["main.rs".to_string(), "lib.rs".to_string(), "utils.rs".to_string()];
    state.query = "lib".to_string();
    state.update_filtered();
    assert_eq!(state.filtered.len(), 1);
    assert_eq!(state.filtered[0], 1);
}

#[test]
fn test_update_filtered_clamps_selection() {
    let mut state = GoToFileState::default();
    state.files = vec!["a.rs".to_string(), "b.rs".to_string()];
    state.selected = 5;
    state.update_filtered();
    assert_eq!(state.selected, 1); // clamped to last index
}

#[test]
fn test_update_filtered_no_matches_clamps_to_zero() {
    let mut state = GoToFileState::default();
    state.files = vec!["a.rs".to_string()];
    state.query = "zzz".to_string();
    state.selected = 3;
    state.update_filtered();
    assert_eq!(state.selected, 0);
    assert!(state.filtered.is_empty());
}

#[test]
fn fuzzy_match_ignores_directories() {
    // Only the file name is matched, not the directory part.
    assert!(!fuzzy_match_path("src", "src/main.rs"));
    assert!(fuzzy_match_path("ÄB", "x/äbc.txt"));
}

#[test]
fn scan_orders_by_file_name_and_filters() {
    let mut state = GoToFileState::default();
    state.query = "rs".to_string();
    state.scan(vec![
        "z/b.rs".to_string(),
        "a/c.txt".to_string(),
        "y/a.rs".to_string(),
        "x/b.rs".to_string(),
    ]);
    assert_eq!(state.files, vec!["y/a.rs", "z/b.rs", "x/b.rs", "a/c.txt"]);
    assert_eq!(state.filtered, vec![0, 1, 2]);
}

#[test]
fn sort_by_file_name_is_stable() {
    let v = sort_by_file_name(vec!["b/x".to_string(), "a/x".to_string(), "w".to_string()]);
    assert_eq!(v, vec!["w", "b/x", "a/x"]);
}

#[test]
fn skip_dir_rules() {
    assert!(skip_dir(".git"));
    assert!(skip_dir(".hidden"));
    assert!(skip_dir("node_modules"));
    assert!(skip_dir("target"));
    assert!(!skip_dir("."));
    assert!(!skip_dir("src"));
}

#[test]
fn go_to_file_keys_and_count() {
    let mut state = GoToFileState::default();
    state.open = true;
    state.scan(vec!["src/main.rs".to_string(), "README.md".to_string(), "src/lib.rs".to_string()]);
    assert_eq!(state.count_text(), "3 files");
    assert_eq!(state.handle_keys(false, true, false), None);
    assert_eq!(state.selected, 1);
    assert_eq!(state.handle_keys(false, true, false), None);
    assert_eq!(state.handle_keys(false, true, false), None);
    assert_eq!(state.selected, 2);
    assert_eq!(state.handle_keys(true, false, true), Some("src/lib.rs".to_string()));
    assert!(!state.open);
    state.query = "main".to_string();
    state.update_filtered();
    assert_eq!(state.count_text(), "1 / 3 files");
}

#[test]
fn list_windows() {
    assert_eq!(visible_window(0, 5, 20), (0, 5));
    assert_eq!(visible_window(25, 40, 20), (6, 26));
    assert_eq!(visible_window(19, 40, 20), (0, 20));
    assert_eq!(visible_window(0, 0, 20), (1, 0));
}

#[test]
fn equal_names_keep_walk_order() {
    let mut state = GoToFileState::default();
    state.scan(vec!["b/x.rs".to_string(), "a/x.rs".to_string(), "c/a.rs".to_string(), "x.rs".to_string()]);
    assert_eq!(state.files, vec!["c/a.rs", "b/x.rs", "a/x.rs", "x.rs"]);
}
