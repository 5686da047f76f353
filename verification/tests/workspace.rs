use openedit_ui::workspace::{active_tab_after_close, remember_recent, MAX_RECENT};

fn strings(v: &[&str]) -> Vec<String> {
    v.iter().map(|s| s.to_string()).collect()
}

#[test]
fn recent_files_keep_newest_first() {
    let r = remember_recent(strings(&["/a/x.rs", "/b/y.rs", "/a/./x.rs"]), "/a/x.rs".to_string());
    assert_eq!(r, strings(&["/a/x.rs", "/b/y.rs"]));
    let r = remember_recent(Vec::new(), "/new.txt".to_string());
    assert_eq!(r, strings(&["/new.txt"]));
    let many: Vec<String> = (0..25).map(|i| format!("/f{}", i)).collect();
    let r = remember_recent(many, "/g".to_string());
    assert_eq!(r.len(), MAX_RECENT);
    assert_eq!(r[0], "/g");
    assert_eq!(r[19], "/f18");
}

#[test]
fn active_tab_after_closing() {
    assert_eq!(active_tab_after_close(3, 3), 2);
    assert_eq!(active_tab_after_close(1, 3), 1);
    assert_eq!(active_tab_after_close(0, 0), 0);
}
