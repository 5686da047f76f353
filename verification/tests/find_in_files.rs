use openedit_ui::find_in_files::{FileMatch, FindInFilesState, LineMatch, SearchPoll};

fn file(path: &str, n: usize) -> FileMatch {
    let matches = (0..n)
        .map(|i| LineMatch { line_num: i + 1, line_text: "x".to_string(), match_start: 0, match_end: 1 })
        .collect();
    FileMatch { path: path.to_string(), matches }
}

#[test]
fn search_lifecycle() {
    let mut st = FindInFilesState::new("/work".to_string());
    assert!(!st.visible);
    assert_eq!(st.search_path, "/work");
    assert!(!st.begin_search());
    assert!(!st.searching);
    st.query = "needle".to_string();
    assert!(st.begin_search());
    assert!(st.searching && st.awaiting);
    st.poll_results(SearchPoll::Pending);
    assert!(st.searching);
    assert_eq!(st.summary(), None);
    st.poll_results(SearchPoll::Ready(vec![file("a.rs", 2), file("b.rs", 3)]));
    assert!(!st.searching && !st.awaiting);
    assert_eq!(st.total_matches, 5);
    assert_eq!(st.summary(), Some("5 matches in 2 files".to_string()));
    // no search awaited: polling changes nothing
    st.poll_results(SearchPoll::Ready(vec![]));
    assert_eq!(st.results.len(), 2);
    st.toggle_collapsed(1);
    assert!(st.is_collapsed(1));
    st.toggle_collapsed(1);
    assert!(!st.is_collapsed(1));
    st.clear_results();
    assert_eq!(st.total_matches, 0);
    assert_eq!(st.summary(), Some("No results found.".to_string()));
}

#[test]
fn search_disconnected() {
    let mut st = FindInFilesState::new(String::new());
    st.query = "q".to_string();
    assert!(st.begin_search());
    st.toggle_collapsed(0);
    st.poll_results(SearchPoll::Disconnected);
    assert!(!st.searching && !st.awaiting);
    assert!(st.results.is_empty());
}
