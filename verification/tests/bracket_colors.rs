use openedit_ui::bracket_colors::{bracket_color, colorize_brackets, colorize_brackets_line};
use openedit_ui::color::Rgba;

#[test]
fn test_colorize_brackets_line_empty() {
    let (brackets, depth) = colorize_brackets_line("", 0);
    assert!(brackets.is_empty());
    assert_eq!(depth, 0);
}

#[test]
fn test_colorize_brackets_line_nested() {
    let (brackets, depth) = colorize_brackets_line("(())", 0);
    assert_eq!(brackets.len(), 4);
    assert_eq!(brackets[0].depth, 0); // (
    assert_eq!(brackets[1].depth, 1); // (
    assert_eq!(brackets[2].depth, 1); // )
    assert_eq!(brackets[3].depth, 0); // )
    assert_eq!(depth, 0);
}

#[test]
fn test_colorize_brackets_line_unmatched() {
    let (brackets, depth) = colorize_brackets_line("((", 0);
    assert_eq!(brackets.len(), 2);
    assert_eq!(depth, 2);
}

#[test]
fn test_colorize_brackets_with_preceding() {
    let lines = vec!["fn main() {", "    let x = (1 + 2);", "}"];
    let result = colorize_brackets(&lines, 1, 2);
    assert!(!result.is_empty());
}

#[test]
fn test_colorize_brackets_colors_cycle() {
    let (brackets, _) = colorize_brackets_line("((((((((", 0);
    assert_eq!(brackets.len(), 8);
    // Colors should cycle through the palette
    assert_eq!(brackets[0].color, bracket_color(0));
    assert_eq!(brackets[6].color, bracket_color(0)); // cycles
}

#[test]
fn colorize_brackets_carries_depth_and_columns() {
    let lines = vec!["fn main() {", "    let x = (1 + 2);", "}"];
    let result = colorize_brackets(&lines, 1, 3);
    assert_eq!(result.len(), 2);
    assert_eq!(result[0].0, 1);
    assert_eq!(result[0].1.len(), 2);
    assert_eq!((result[0].1[0].col, result[0].1[0].depth), (12, 1));
    assert_eq!((result[0].1[1].col, result[0].1[1].depth), (18, 1));
    assert_eq!(result[1].0, 2);
    assert_eq!((result[1].1[0].col, result[1].1[0].depth), (0, 0));
    assert_eq!(result[1].1[0].color, Rgba::from_rgb(255, 215, 0));
    assert_eq!(result[0].1[0].color, Rgba::from_rgb(218, 112, 214));
    // An end beyond the lines is clamped; a start beyond the end gives nothing.
    assert_eq!(colorize_brackets(&lines, 0, 99).len(), 3);
    assert!(colorize_brackets(&lines, 5, 2).is_empty());
}

#[test]
fn colorize_brackets_line_closing_below_zero_stays_at_zero() {
    let (brackets, depth) = colorize_brackets_line("a)]b", 0);
    assert_eq!(brackets.len(), 2);
    assert_eq!(brackets[0].depth, 0);
    assert_eq!(brackets[1].col, 2);
    assert_eq!(depth, 0);
    let (brackets, depth) = colorize_brackets_line("}", 3);
    assert_eq!(brackets[0].depth, 2);
    assert_eq!(brackets[0].color, bracket_color(2));
    assert_eq!(depth, 2);
}
