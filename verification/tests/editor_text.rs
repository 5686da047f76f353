use openedit_ui::editor_view::{find_matching_bracket, is_bracket, word_range_at};
use openedit_ui::languages::language_from_extension;
use openedit_ui::markdown::{spans_to_words, RichSpan};

fn chars(s: &str) -> Vec<char> {
    s.chars().collect()
}

#[test]
fn brackets_match_forward_and_backward() {
    let t = chars("f(a[1], (b)) {x}");
    assert!(is_bracket('{') && !is_bracket('<'));
    // at the cursor: '(' at 1 matches ')' at 11
    assert_eq!(find_matching_bracket(&t, 1), Some(11));
    // cursor after ')' at 11: the bracket before the cursor is used
    assert_eq!(find_matching_bracket(&t, 12), Some(1));
    assert_eq!(find_matching_bracket(&t, 3), Some(5));
    assert_eq!(find_matching_bracket(&t, 16), Some(13));
    // no bracket at or before the cursor
    assert_eq!(find_matching_bracket(&t, 0), None);
    // unbalanced
    assert_eq!(find_matching_bracket(&chars("(("), 0), None);
    assert_eq!(find_matching_bracket(&chars("])"), 2), None);
}

#[test]
fn word_under_cursor_range() {
    let t = chars("let foo_bar = 1;");
    assert_eq!(word_range_at(&t, 5), (4, 11));
    assert_eq!(word_range_at(&t, 3).0, word_range_at(&t, 3).1);
    // past the end: the last character, here ';', is no word character
    assert_eq!(word_range_at(&t, 99).0, word_range_at(&t, 99).1);
    assert_eq!(word_range_at(&chars("ab"), 99), (0, 2));
    assert_eq!(word_range_at(&[], 0), (0, 0));
}

#[test]
fn languages_by_extension() {
    assert_eq!(language_from_extension("rs"), "Rust");
    assert_eq!(language_from_extension("PY"), "Python");
    assert_eq!(language_from_extension("hpp"), "C++");
    assert_eq!(language_from_extension("Makefile"), "Makefile");
    assert_eq!(language_from_extension("unknown"), "Plain Text");
    assert_eq!(language_from_extension(""), "Plain Text");
}

#[test]
fn spans_break_after_white_space() {
    let mut bold = RichSpan::plain("hello  big world");
    bold.bold = true;
    let mut code = RichSpan::plain("a b");
    code.code = true;
    let words = spans_to_words(&[bold, code, RichSpan::plain("")]);
    let texts: Vec<&str> = words.iter().map(|w| w.text.as_str()).collect();
    assert_eq!(texts, vec!["hello ", " ", "big ", "world", "a b"]);
    assert!(words[0].bold && words[3].bold && !words[4].bold);
    assert!(words[4].code);
    assert_eq!(RichSpan::flat_text(&words), "hello  big worlda b");
}
