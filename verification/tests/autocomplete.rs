use openedit_ui::autocomplete::{collect_words, suggestions, AutocompleteState};

fn chars(s: &str) -> Vec<char> {
    s.chars().collect()
}

#[test]
fn new_and_dismiss() {
    let mut st = AutocompleteState::new();
    assert!(!st.visible);
    assert!(st.suggestions.is_empty());
    st.visible = true;
    st.suggestions.push("x".to_string());
    st.prefix = "ab".to_string();
    st.selected = 3;
    st.dismiss();
    assert!(!st.visible);
    assert!(st.suggestions.is_empty());
    assert!(st.prefix.is_empty());
    assert_eq!(st.selected, 3);
}

#[test]
fn update_suggests_sorted_words_of_the_document() {
    let mut st = AutocompleteState::new();
    let text = "let counter = 0;\ncount_all(counter, Counted, co);\ncou";
    st.update("cou", 3, text);
    assert_eq!(st.prefix, "cou");
    assert_eq!(st.suggestions, vec!["Counted", "count_all", "counter"]);
    assert!(st.visible);
    assert_eq!(st.selected, 0);
}

#[test]
fn update_short_prefix_dismisses() {
    let mut st = AutocompleteState::new();
    st.update("x c", 3, "cat cow");
    assert!(!st.visible);
    assert!(st.prefix.is_empty());
    // a cursor past the end of the line counts from the line's end
    st.update("ca", 10, "cat cow car");
    assert_eq!(st.suggestions, vec!["car", "cat"]);
    // a single two-byte character is long enough
    st.update("\u{e9}", 1, "\u{e9}t\u{e9} x");
    assert_eq!(st.prefix, "\u{e9}");
    assert_eq!(st.suggestions, vec!["\u{e9}t\u{e9}"]);
}

#[test]
fn suggestions_keep_the_first_ten() {
    let text = "w11 w02 w03 w04 w05 w06 w07 w08 w09 w10 w01 w12 w";
    let s = suggestions(&chars(text), &chars("w"));
    assert_eq!(s.len(), 10);
    assert_eq!(s[0], "w01");
    assert_eq!(s[9], "w10");
    // the prefix itself (ignoring case) is not suggested
    assert!(suggestions(&chars("ab AB abc"), &chars("ab")) == vec!["abc"]);
}

#[test]
fn collect_words_distinct_runs() {
    let w = collect_words(&chars("a bb bb_c x9 bb"));
    let mut w: Vec<String> = w.into_iter().map(|v| v.into_iter().collect()).collect();
    w.sort();
    assert_eq!(w, vec!["bb", "bb_c", "x9"]);
}
