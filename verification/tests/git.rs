use openedit_ui::color::Rgba;
use openedit_ui::git::{
    classify_status, compute_line_diff, git_status_indicator, gutter_mark, line_diff_for_contents, BlameHunk,
    FileGitStatus, GitManager, LineDiffStatus, StatusFlags,
};

fn no_flags() -> StatusFlags {
    StatusFlags {
        conflicted: false,
        index_new: false,
        index_modified: false,
        index_deleted: false,
        index_renamed: false,
        wt_new: false,
        wt_modified: false,
        wt_deleted: false,
        wt_renamed: false,
    }
}

#[test]
fn test_compute_line_diff_identical() {
    let old = vec!["a", "b", "c"];
    let new = vec!["a", "b", "c"];
    let result = compute_line_diff(&old, &new);
    assert!(result.is_empty());
}

#[test]
fn test_compute_line_diff_added_line() {
    let old = vec!["a", "c"];
    let new = vec!["a", "b", "c"];
    let result = compute_line_diff(&old, &new);
    assert!(!result.is_empty());
    assert!(result.iter().any(|&(l, s)| l == 1 && s == LineDiffStatus::Added));
}

#[test]
fn test_compute_line_diff_removed_line() {
    let old = vec!["a", "b", "c"];
    let new = vec!["a", "c"];
    let result = compute_line_diff(&old, &new);
    assert!(!result.is_empty());
    assert!(result.iter().any(|&(_, s)| s == LineDiffStatus::Removed));
}

#[test]
fn test_compute_line_diff_modified_line() {
    let old = vec!["a", "b", "c"];
    let new = vec!["a", "x", "c"];
    let result = compute_line_diff(&old, &new);
    assert!(!result.is_empty());
    assert!(result.iter().any(|&(l, s)| l == 1 && s == LineDiffStatus::Modified));
}

#[test]
fn test_compute_line_diff_all_new() {
    let old: Vec<&str> = vec![];
    let new = vec!["a", "b"];
    let result = compute_line_diff(&old, &new);
    assert_eq!(result.len(), 2);
    assert!(result.iter().all(|&(_, s)| s == LineDiffStatus::Added));
}

#[test]
fn test_git_status_indicator() {
    let (label, _color) = git_status_indicator(FileGitStatus::Modified);
    assert_eq!(label, "M");
    let (label, _) = git_status_indicator(FileGitStatus::Unchanged);
    assert_eq!(label, "");
}

#[test]
fn test_git_manager_new() {
    let mgr = GitManager::new();
    assert!(mgr.branch.is_none());
    assert!(mgr.file_statuses.is_empty());
    assert!(mgr.line_diffs.is_empty());
}

#[test]
fn test_git_manager_default() {
    let mgr = GitManager::default();
    assert!(!mgr.show_blame);
    assert!(mgr.blame_info.is_empty());
}

#[test]
fn compute_line_diff_all_gone_marks_one_removal() {
    let old = vec!["a", "b"];
    let new: Vec<&str> = vec![];
    let result = compute_line_diff(&old, &new);
    assert_eq!(result, vec![(0, LineDiffStatus::Removed)]);
}

#[test]
fn compute_line_diff_exact_entries() {
    let old = vec!["a", "b", "c"];
    let new = vec!["a", "x", "c"];
    assert_eq!(compute_line_diff(&old, &new), vec![(1, LineDiffStatus::Modified)]);
    let old = vec!["a", "c"];
    let new = vec!["a", "b", "c"];
    assert_eq!(compute_line_diff(&old, &new), vec![(1, LineDiffStatus::Added)]);
}

#[test]
fn line_diff_for_contents_new_file_is_all_added() {
    let r = line_diff_for_contents(None, "x\ny\n");
    assert_eq!(r, vec![(0, LineDiffStatus::Added), (1, LineDiffStatus::Added)]);
    let r = line_diff_for_contents(Some("a\nb"), "a\r\nb\r\n");
    assert!(r.is_empty());
}

#[test]
fn git_status_indicator_colors() {
    let (label, color) = git_status_indicator(FileGitStatus::Conflict);
    assert_eq!(label, "!");
    assert_eq!(color, Rgba::from_rgb(220, 60, 60));
    let (_, color) = git_status_indicator(FileGitStatus::Unchanged);
    assert_eq!(color, Rgba::transparent());
    assert_eq!(git_status_indicator(FileGitStatus::New).0, "A");
    assert_eq!(git_status_indicator(FileGitStatus::Staged).0, "S");
}

#[test]
fn classify_status_priority() {
    let mut f = no_flags();
    assert_eq!(classify_status(f), None);
    f.wt_new = true;
    assert_eq!(classify_status(f), Some(FileGitStatus::Untracked));
    f.wt_modified = true;
    assert_eq!(classify_status(f), Some(FileGitStatus::Modified));
    f.index_new = true;
    assert_eq!(classify_status(f), Some(FileGitStatus::New));
    f.conflicted = true;
    assert_eq!(classify_status(f), Some(FileGitStatus::Conflict));
    let mut g = no_flags();
    g.wt_renamed = true;
    assert_eq!(classify_status(g), Some(FileGitStatus::Renamed));
    g.index_deleted = true;
    assert_eq!(classify_status(g), Some(FileGitStatus::Deleted));
}

#[test]
fn git_manager_refresh_and_status_lookup() {
    let mut mgr = GitManager::new();
    assert!(!mgr.maybe_refresh(0));
    mgr.set_repository(Some("/repo".to_string()), Some("main".to_string()));
    assert!(mgr.maybe_refresh(100));
    assert!(!mgr.maybe_refresh(200));
    assert!(mgr.maybe_refresh(5100));
    let mut modified = no_flags();
    modified.wt_modified = true;
    mgr.refresh_statuses(
        Some("main".to_string()),
        vec![("src/a.rs".to_string(), modified), ("clean.rs".to_string(), no_flags())],
    );
    assert_eq!(mgr.file_statuses.len(), 1);
    assert_eq!(mgr.file_statuses[0].path, "/repo/src/a.rs");
    assert_eq!(mgr.get_file_status("/repo/src/a.rs"), FileGitStatus::Modified);
    assert_eq!(mgr.get_file_status("/repo/clean.rs"), FileGitStatus::Unchanged);
}

#[test]
fn git_manager_blame_and_line_diff_cache() {
    let mut mgr = GitManager::new();
    mgr.compute_blame(Some(vec![
        BlameHunk { final_start_line: 1, lines_in_hunk: 2, author: Some("ann".to_string()) },
        BlameHunk { final_start_line: 2, lines_in_hunk: 1, author: None },
    ]));
    assert_eq!(mgr.blame_info.len(), 2);
    assert_eq!(mgr.blame_info.get(&0).map(|s| s.as_str()), Some("ann"));
    assert_eq!(mgr.blame_info.get(&1).map(|s| s.as_str()), Some("?"));
    mgr.compute_blame(None);
    assert!(mgr.blame_info.is_empty());

    mgr.store_line_diff("/r/f.rs".to_string(), vec![(3, LineDiffStatus::Added)]);
    mgr.store_line_diff("/r/f.rs".to_string(), vec![]);
    assert_eq!(mgr.get_line_diffs("/r/f.rs"), &[(3, LineDiffStatus::Added)][..]);
    assert!(mgr.get_line_diffs("/r/g.rs").is_empty());
    mgr.invalidate_file_cache();
    assert!(mgr.line_diffs.is_empty());
}

#[test]
fn gutter_marks() {
    let diffs = vec![(2, LineDiffStatus::Added), (5, LineDiffStatus::Removed), (2, LineDiffStatus::Modified)];
    let (st, c) = gutter_mark(&diffs, 2).expect("mark");
    assert_eq!(st, LineDiffStatus::Added);
    assert_eq!((c.r, c.g, c.b), (80, 200, 80));
    let (st, c) = gutter_mark(&diffs, 5).expect("mark");
    assert_eq!(st, LineDiffStatus::Removed);
    assert_eq!((c.r, c.g, c.b), (220, 60, 60));
    assert!(gutter_mark(&diffs, 3).is_none());
}
