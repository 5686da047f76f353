use openedit_ui::viewport::{
    block_selections, color_runs, cursor_visual_row, gutter_digits, gutter_label, indent_levels,
    position_under_mouse, row_selection, scroll_to_cursor, visual_rows, whitespace_marks, VisualRow,
};
use openedit_ui::color::Rgba;

fn vr(line_idx: usize, col_offset: usize, is_first: bool) -> VisualRow {
    VisualRow { line_idx, col_offset, is_first }
}

#[test]
fn rows_without_wrap() {
    let rows = visual_rows(&[(0, 25), (1, 0), (4, 3)], false, usize::MAX);
    assert_eq!(rows, vec![vr(0, 0, true), vr(1, 0, true), vr(4, 0, true)]);
}

#[test]
fn rows_with_wrap() {
    let rows = visual_rows(&[(0, 25), (1, 0), (2, 10), (3, 11)], true, 10);
    assert_eq!(
        rows,
        vec![
            vr(0, 0, true),
            vr(0, 10, false),
            vr(0, 20, false),
            vr(1, 0, true),
            vr(2, 0, true),
            vr(3, 0, true),
            vr(3, 10, false),
        ]
    );
}

#[test]
fn cursor_rows() {
    let rows = visual_rows(&[(0, 25), (1, 0), (3, 11)], true, 10);
    assert_eq!(cursor_visual_row(&rows, 0, 12, true, 10), 1);
    assert_eq!(cursor_visual_row(&rows, 0, 25, true, 10), 2);
    assert_eq!(cursor_visual_row(&rows, 3, 10, true, 10), 5);
    assert_eq!(cursor_visual_row(&rows, 2, 0, true, 10), 4);
    assert_eq!(cursor_visual_row(&rows, 9, 0, true, 10), 5);
    let flat = visual_rows(&[(0, 5), (2, 5)], false, usize::MAX);
    assert_eq!(cursor_visual_row(&flat, 2, 400, false, usize::MAX), 1);
    assert_eq!(cursor_visual_row(&flat, 1, 0, false, usize::MAX), 1);
    assert_eq!(cursor_visual_row(&[], 1, 0, false, usize::MAX), 0);
}

#[test]
fn scrolling_keeps_cursor_in_view() {
    assert_eq!(scroll_to_cursor(10, 0, false, 20, 9, 0), (7, 0));
    assert_eq!(scroll_to_cursor(1, 0, false, 20, 9, 0), (0, 0));
    assert_eq!(scroll_to_cursor(40, 0, false, 20, 10, 0), (24, 0));
    assert_eq!(scroll_to_cursor(20, 0, false, 20, 10, 0), (10, 0));
    assert_eq!(scroll_to_cursor(20, 100, false, 20, 10, 0), (10, 25));
    assert_eq!(scroll_to_cursor(20, 30, false, 20, 10, 40), (10, 28));
    assert_eq!(scroll_to_cursor(20, 30, true, 20, 10, 40), (10, 40));
}

#[test]
fn block_selection_lines() {
    let lens = [10, 2, 0, 8];
    assert_eq!(block_selections((0, 6), (3, 3), &lens), vec![(0, 3, 6), (1, 2, 2), (2, 0, 0), (3, 3, 6)]);
    assert_eq!(block_selections((5, 1), (2, 4), &lens), vec![(2, 0, 0), (3, 1, 4)]);
    assert_eq!(block_selections((6, 1), (9, 4), &lens), vec![]);
}

#[test]
fn gutter_numbers() {
    assert_eq!(gutter_digits(7), 3);
    assert_eq!(gutter_digits(12345), 5);
    assert_eq!(gutter_label(0, 3), "  1");
    assert_eq!(gutter_label(41, 3), " 42");
    assert_eq!(gutter_label(12344, 3), "12345");
    assert_eq!(gutter_label(9, 5), format!("{:>5}", 10));
}

#[test]
fn highlight_runs() {
    let fg = Rgba::from_rgb(200, 200, 200);
    let kw = Rgba::from_rgb(1, 2, 3);
    let st = Rgba::from_rgb(9, 9, 9);
    let spans = [(0, 3, kw), (8, 20, st), (10, 12, kw)];
    let runs = color_runs(14, &spans, fg, 0, None);
    assert_eq!(runs, vec![(0, 3, kw), (3, 8, fg), (8, 10, st), (10, 12, kw), (12, 14, st)]);
    let runs = color_runs(14, &spans, fg, 2, Some(5));
    assert_eq!(runs, vec![(2, 3, kw), (3, 7, fg)]);
    assert_eq!(color_runs(5, &spans, fg, 9, None), vec![]);
    assert_eq!(color_runs(4, &[], fg, 0, None), vec![(0, 4, fg)]);
}

#[test]
fn selection_on_rows() {
    let row = |line_idx, col_offset| VisualRow { line_idx, col_offset, is_first: col_offset == 0 };
    assert_eq!(row_selection((2, 3), (4, 5), row(1, 0), 10, false, usize::MAX), None);
    assert_eq!(row_selection((2, 3), (4, 5), row(2, 0), 10, false, usize::MAX), Some((3, 10)));
    assert_eq!(row_selection((2, 3), (4, 5), row(3, 0), 7, false, usize::MAX), Some((0, 7)));
    assert_eq!(row_selection((2, 3), (4, 5), row(4, 0), 10, false, usize::MAX), Some((0, 5)));
    assert_eq!(row_selection((2, 3), (2, 25), row(2, 10), 30, true, 10), Some((0, 10)));
    assert_eq!(row_selection((2, 3), (2, 25), row(2, 20), 30, true, 10), Some((0, 5)));
    assert_eq!(row_selection((2, 12), (2, 15), row(2, 0), 30, true, 10), None);
}

#[test]
fn whitespace_and_indent() {
    let line: Vec<char> = "  a\tb c".chars().collect();
    assert_eq!(whitespace_marks(&line, 0, line.len()), vec![(0, '\u{b7}'), (1, '\u{b7}'), (3, '\u{2192}'), (5, '\u{b7}')]);
    assert_eq!(whitespace_marks(&line, 2, 5), vec![(3, '\u{2192}')]);
    let indented: Vec<char> = "         x".chars().collect();
    assert_eq!(indent_levels(&indented, 4), 2);
    assert_eq!(indent_levels(&line, 4), 0);
    assert_eq!(indent_levels(&[], 4), 0);
}

#[test]
fn mouse_positions() {
    let drawn = vec![(0, vr(3, 0, true)), (1, vr(3, 10, false)), (2, vr(5, 0, true))];
    let lens = [0, 0, 0, 15, 0, 4];
    assert_eq!(position_under_mouse(&drawn, 1, 3, true, 0, &lens), (3, 13));
    assert_eq!(position_under_mouse(&drawn, 1, 9, true, 0, &lens), (3, 15));
    assert_eq!(position_under_mouse(&drawn, 7, 1, false, 2, &lens), (5, 3));
    assert_eq!(position_under_mouse(&drawn, 0, 1, false, 2, &lens), (3, 3));
    assert_eq!(position_under_mouse(&[], 0, 1, false, 0, &[]), (0, 0));
}
